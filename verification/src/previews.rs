//! Per-guild settings for message previews: the channels that are scanned for
//! message links, and the channel that archived messages go to.

use std::collections::HashSet;
use vstd::prelude::*;
use crate::cache::{CacheValue, GuildCache};
use crate::error::BotError;
use crate::sorted::{
    contains_id, insert_id, lemma_has_is_contains, lemma_insert_point_parts, remove_id, sorted,
    spec_insert, spec_remove, strictly_sorted,
};
use crate::sql::{spec_from_sql, spec_to_sql, SqlId};
use crate::tasks::TaskMessage;
use crate::text::{join, parse_u64, spec_join, spec_parse_u64, texts};
use crate::utils::{default_arg, mention_channel, spec_mention_channel};

verus! {

broadcast use vstd::std_specs::hash::group_hash_axioms;

/// The preview settings of one guild.
#[derive(Debug)]
pub struct PreviewsConfig {
    /// The channels that are scanned for message links, in ascending order
    /// and without repeats.
    pub auto_channels: Vec<u64>,
    /// The channel that archived messages are sent to.
    pub archive_channel: Option<u64>,
}

impl Default for PreviewsConfig {
    /// The settings of a guild that has set nothing: no channel is scanned,
    /// and there is no archive channel.
    fn default() -> (c: Self)
        ensures
            c.auto_channels@ == Seq::<u64>::empty(),
            c.archive_channel is None,
    {
        PreviewsConfig { auto_channels: Vec::new(), archive_channel: None }
    }
}

/// The list with `x` put in at its place, unless it is there already.
pub open spec fn spec_insert_new(s: Seq<u64>, x: u64) -> Seq<u64> {
    if s.contains(x) {
        s
    } else {
        spec_insert(s, x)
    }
}

/// Putting a new element into a list without repeats leaves it without repeats.
pub proof fn lemma_insert_new_strict(s: Seq<u64>, x: u64)
    requires
        strictly_sorted(s),
    ensures
        strictly_sorted(spec_insert_new(s, x)),
{
    if !s.contains(x) {
        lemma_insert_point_parts(s, x);
        lemma_has_is_contains(s, x);
        let k = crate::sorted::insert_point(s, x);
        let t = spec_insert(s, x);
        assert forall|i: int, j: int| 0 <= i < j < t.len() implies t[i] < t[j] by {
            let a = if i < k {
                s[i]
            } else if i == k {
                x
            } else {
                s[i - 1]
            };
            let b = if j < k {
                s[j]
            } else if j == k {
                x
            } else {
                s[j - 1]
            };
            assert(t[i] == a && t[j] == b);
            if j == k {
                assert(s[i] <= x);
                assert(s.contains(s[i]));
            }
        }
    }
}

/// Taking an element out of a list without repeats leaves it without repeats,
/// and without that element.
pub proof fn lemma_remove_strict(s: Seq<u64>, x: u64)
    requires
        strictly_sorted(s),
    ensures
        strictly_sorted(spec_remove(s, x)),
        !spec_remove(s, x).contains(x),
        forall|y: u64| y != x ==> spec_remove(s, x).contains(y) == s.contains(y),
{
    lemma_insert_point_parts(s, x);
    lemma_has_is_contains(s, x);
    let t = spec_remove(s, x);
    if s.contains(x) {
        let k = crate::sorted::insert_point(s, x) - 1;
        assert(t == s.remove(k));
        assert forall|i: int| 0 <= i < t.len() implies #[trigger] t[i] == s[if i < k {
            i
        } else {
            i + 1
        }] by {}
        assert forall|i: int, j: int| 0 <= i < j < t.len() implies t[i] < t[j] by {
            let a = if i < k {
                i
            } else {
                i + 1
            };
            let b = if j < k {
                j
            } else {
                j + 1
            };
            assert(t[i] == s[a] && t[j] == s[b]);
        }
        if t.contains(x) {
            let i = choose|i: int| 0 <= i < t.len() && t[i] == x;
            let a = if i < k {
                i
            } else {
                i + 1
            };
            assert(s[a] == x && s[k] == x && a != k);
            if a < k {
                assert(s[a] < s[k]);
            } else {
                assert(s[k] < s[a]);
            }
        }
        assert forall|y: u64| y != x implies t.contains(y) == s.contains(y) by {
            if s.contains(y) {
                let i = choose|i: int| 0 <= i < s.len() && s[i] == y;
                let b = if i < k {
                    i
                } else {
                    i - 1
                };
                assert(t[b] == y);
            }
            if t.contains(y) {
                let i = choose|i: int| 0 <= i < t.len() && t[i] == y;
                let a = if i < k {
                    i
                } else {
                    i + 1
                };
                assert(s[a] == y);
            }
        }
    }
}

impl PreviewsConfig {
    /// The invariant of the type: the scanned channels are in ascending order
    /// and none occurs twice.
    pub open spec fn wf(&self) -> bool {
        strictly_sorted(self.auto_channels@)
    }

    /// Whether `channel` is scanned for message links.
    pub fn scans(&self, channel: u64) -> (r: bool)
        requires
            self.wf(),
        ensures
            r == self.auto_channels@.contains(channel),
    {
        contains_id(&self.auto_channels, channel)
    }

    /// Adds `channel` to the scanned channels and says whether it was new.
    pub fn add_channel(&mut self, channel: u64) -> (added: bool)
        requires
            old(self).wf(),
        ensures
            final(self).wf(),
            added == !old(self).auto_channels@.contains(channel),
            final(self).auto_channels@ == spec_insert_new(old(self).auto_channels@, channel),
            final(self).archive_channel == old(self).archive_channel,
    {
        proof {
            lemma_insert_new_strict(self.auto_channels@, channel);
        }
        if contains_id(&self.auto_channels, channel) {
            false
        } else {
            insert_id(&mut self.auto_channels, channel);
            true
        }
    }

    /// Takes `channel` out of the scanned channels and says whether it was
    /// among them.
    pub fn remove_channel(&mut self, channel: u64) -> (removed: bool)
        requires
            old(self).wf(),
        ensures
            final(self).wf(),
            removed == old(self).auto_channels@.contains(channel),
            final(self).auto_channels@ == spec_remove(old(self).auto_channels@, channel),
            !final(self).auto_channels@.contains(channel),
            final(self).archive_channel == old(self).archive_channel,
    {
        proof {
            lemma_remove_strict(self.auto_channels@, channel);
        }
        remove_id(&mut self.auto_channels, channel)
    }
}

impl CacheValue for PreviewsConfig {
    open spec fn inv(&self) -> bool {
        self.wf()
    }

    open spec fn is_default(&self, key: u64) -> bool {
        self.auto_channels@ == Seq::<u64>::empty() && self.archive_channel is None
    }

    fn fresh(key: u64) -> (v: Self) {
        default_arg(key)
    }
}

/// The elements of `s` that are in `live`, in order.
pub open spec fn spec_live(s: Seq<u64>, live: Set<u64>) -> Seq<u64>
    decreases s.len(),
{
    if s.len() == 0 {
        Seq::empty()
    } else if live.contains(s.last()) {
        spec_live(s.drop_last(), live).push(s.last())
    } else {
        spec_live(s.drop_last(), live)
    }
}

/// The elements of `s` that are not in `live`, in order.
pub open spec fn spec_dead(s: Seq<u64>, live: Set<u64>) -> Seq<u64>
    decreases s.len(),
{
    if s.len() == 0 {
        Seq::empty()
    } else if live.contains(s.last()) {
        spec_dead(s.drop_last(), live)
    } else {
        spec_dead(s.drop_last(), live).push(s.last())
    }
}

impl PreviewsConfig {
    /// Keeps the scanned channels that still exist and returns the others.
    pub fn retain_live(&mut self, live: &HashSet<u64>) -> (gone: Vec<u64>)
        requires
            old(self).wf(),
        ensures
            final(self).wf(),
            final(self).auto_channels@ == spec_live(old(self).auto_channels@, live@),
            gone@ == spec_dead(old(self).auto_channels@, live@),
            final(self).archive_channel == old(self).archive_channel,
    {
        let mut kept: Vec<u64> = Vec::new();
        let mut gone: Vec<u64> = Vec::new();
        let mut i: usize = 0;
        let n = self.auto_channels.len();
        assert(self.auto_channels@.take(0) =~= Seq::<u64>::empty());
        while i < n
            invariant
                i <= n,
                n == self.auto_channels@.len(),
                self.auto_channels@ == old(self).auto_channels@,
                self.archive_channel == old(self).archive_channel,
                strictly_sorted(self.auto_channels@),
                kept@ == spec_live(self.auto_channels@.take(i as int), live@),
                gone@ == spec_dead(self.auto_channels@.take(i as int), live@),
                strictly_sorted(kept@),
                forall|a: int, p: int|
                    0 <= a < kept@.len() && i <= p < n ==> kept@[a] < self.auto_channels@[p],
            decreases n - i,
        {
            assert(self.auto_channels@.take(i + 1).drop_last() =~= self.auto_channels@.take(
                i as int,
            ));
            let channel = self.auto_channels[i];
            if live.contains(&channel) {
                kept.push(channel);
            } else {
                gone.push(channel);
            }
            i += 1;
        }
        assert(self.auto_channels@.take(n as int) =~= self.auto_channels@);
        self.auto_channels = kept;
        gone
    }
}

/// A row of the durable table of scanned channels, or of archive channels.
#[derive(Debug, Clone, Copy, PartialEq, Eq, Structural)]
pub struct ChannelRow {
    pub guild_id: i64,
    pub channel_id: i64,
}

/// What has to be written to the durable table of archive channels.
#[derive(Debug, Clone, Copy, PartialEq, Eq, Structural)]
pub enum ArchiveWrite {
    /// Store the row, replacing the row of the same guild.
    Upsert(ChannelRow),
    /// Delete the row of the guild.
    Delete { guild_id: i64 },
}

/// The text that lists the scanned channels: a heading and one mention per
/// line, or a remark where there are none.
pub open spec fn spec_channel_list(channels: Seq<u64>) -> Seq<char> {
    if channels.len() == 0 {
        "No channels"@
    } else {
        spec_join(
            seq!["**Channels**"@] + Seq::new(
                channels.len(),
                |j: int| spec_mention_channel(channels[j]),
            ),
            "\n"@,
        )
    }
}

/// The row for a channel of a guild.
pub open spec fn spec_channel_row(guild: u64, channel: u64) -> ChannelRow {
    ChannelRow { guild_id: spec_to_sql(guild), channel_id: spec_to_sql(channel) }
}

/// The row for a channel of a guild.
pub fn channel_row(guild: u64, channel: u64) -> (row: ChannelRow)
    ensures
        row == spec_channel_row(guild, channel),
{
    ChannelRow { guild_id: SqlId(guild).encode(), channel_id: SqlId(channel).encode() }
}

/// The guilds that the rows are about.
pub open spec fn channel_row_guilds(rows: Seq<ChannelRow>) -> Set<u64> {
    Set::new(|g: u64| exists|i: int| 0 <= i < rows.len() && spec_from_sql((#[trigger] rows[i]).guild_id) == g)
}

/// One more row adds its guild to the guilds that the rows are about.
pub proof fn lemma_row_guilds_step(rows: Seq<ChannelRow>, i: int)
    requires
        0 <= i < rows.len(),
    ensures
        forall|g: u64|
            channel_row_guilds(rows.take(i + 1)).contains(g) <==> channel_row_guilds(
                rows.take(i),
            ).contains(g) || spec_from_sql(rows[i].guild_id) == g,
{
    let done = rows.take(i);
    let next = rows.take(i + 1);
    assert forall|g: u64|
        channel_row_guilds(next).contains(g) <==> channel_row_guilds(done).contains(g)
            || spec_from_sql(rows[i].guild_id) == g by {
        if channel_row_guilds(done).contains(g) {
            let j = choose|j: int|
                0 <= j < done.len() && spec_from_sql((#[trigger] done[j]).guild_id) == g;
            assert(next[j] == done[j]);
        }
        if spec_from_sql(rows[i].guild_id) == g {
            assert(next[i] == rows[i]);
        }
        if channel_row_guilds(next).contains(g) {
            let j = choose|j: int|
                0 <= j < next.len() && spec_from_sql((#[trigger] next[j]).guild_id) == g;
            if j < i {
                assert(done[j] == next[j]);
            } else {
                assert(next[j] == rows[i]);
            }
        }
    }
}

/// The scanned channels of `guild` after the rows were loaded over `before`.
pub open spec fn loaded_channels(rows: Seq<ChannelRow>, guild: u64, before: Seq<u64>) -> Seq<u64>
    decreases rows.len(),
{
    if rows.len() == 0 {
        before
    } else if spec_from_sql(rows.last().guild_id) == guild {
        spec_insert_new(
            loaded_channels(rows.drop_last(), guild, before),
            spec_from_sql(rows.last().channel_id),
        )
    } else {
        loaded_channels(rows.drop_last(), guild, before)
    }
}

/// The archive channel of `guild` after the rows were loaded over `before`.
pub open spec fn loaded_archive(rows: Seq<ChannelRow>, guild: u64, before: Option<u64>) -> Option<
    u64,
>
    decreases rows.len(),
{
    if rows.len() == 0 {
        before
    } else if spec_from_sql(rows.last().guild_id) == guild {
        Some(spec_from_sql(rows.last().channel_id))
    } else {
        loaded_archive(rows.drop_last(), guild, before)
    }
}

/// The registry of preview settings: one cached entry per guild.
#[derive(Debug)]
pub struct PreviewsModule {
    cache: GuildCache<PreviewsConfig>,
}

impl PreviewsModule {
    /// The cache of guild entries.
    pub closed spec fn cache(&self) -> GuildCache<PreviewsConfig> {
        self.cache
    }

    /// The invariant of the type.
    pub open spec fn wf(&self) -> bool {
        self.cache().wf()
    }

    /// The scanned channels of a guild as every operation finds them.
    pub open spec fn channels_at(&self, guild: u64) -> Seq<u64> {
        if self.cache()@.contains_key(guild) {
            self.cache()@[guild].auto_channels@
        } else {
            Seq::empty()
        }
    }

    /// The archive channel of a guild as every operation finds it.
    pub open spec fn archive_at(&self, guild: u64) -> Option<u64> {
        if self.cache()@.contains_key(guild) {
            self.cache()@[guild].archive_channel
        } else {
            None
        }
    }

    /// Whether the cache is the other one with the entry of `guild` stored:
    /// the guild has an entry now, and every other guild has the entry that it
    /// had, or none as before.
    pub open spec fn touched(&self, other: &PreviewsModule, guild: u64) -> bool {
        &&& self.cache()@.contains_key(guild)
        &&& self.cache()@ == other.cache()@.insert(guild, self.cache()@[guild])
    }

    /// Whether the cache is the other one with `guild` populated: the guild
    /// has the entry that it had, or a default entry where it had none.
    pub open spec fn populated(&self, other: &PreviewsModule, guild: u64) -> bool {
        &&& self.touched(other, guild)
        &&& other.cache().observes(guild, self.cache()@[guild])
    }

    /// Whether the two registries hold the same settings for every guild
    /// but, perhaps, `guild`.
    pub open spec fn same_but(&self, other: &PreviewsModule, guild: u64) -> bool {
        forall|g: u64|
            g != guild ==> self.channels_at(g) == other.channels_at(g) && self.archive_at(g)
                == other.archive_at(g)
    }

    /// A registry without entries.
    pub fn empty() -> (m: Self)
        ensures
            m.wf(),
            m.cache()@ == Map::<u64, PreviewsConfig>::empty(),
    {
        PreviewsModule { cache: GuildCache::new() }
    }

    /// Whether a message in `channel` is scanned for links. A message outside
    /// a guild never is.
    pub fn should_scan(&mut self, guild: Option<u64>, channel: u64) -> (scan: bool)
        requires
            old(self).wf(),
        ensures
            final(self).wf(),
            match guild {
                Some(g) => final(self).populated(old(self), g),
                None => final(self).cache()@ == old(self).cache()@,
            },
            scan == match guild {
                Some(g) => old(self).channels_at(g).contains(channel),
                None => false,
            },
            forall|g: u64|
                final(self).channels_at(g) == old(self).channels_at(g) && final(self).archive_at(g)
                    == old(self).archive_at(g),
    {
        match guild {
            None => false,
            Some(g) => {
                let ghost before = *self;
                let entry = self.cache.entry(g);
                let scan = entry.scans(channel);
                proof {
                    lemma_touch(before, *self, g, *entry);
                }
                scan
            },
        }
    }

    /// Reacts to the deletion of a channel: it is no longer scanned. Where it
    /// was scanned, the row to delete from the durable table is returned;
    /// where it was not, nothing is to be done.
    pub fn channel_delete(&mut self, guild: u64, channel: u64) -> (row: Option<ChannelRow>)
        requires
            old(self).wf(),
        ensures
            final(self).wf(),
            final(self).touched(old(self), guild),
            final(self).channels_at(guild) == spec_remove(old(self).channels_at(guild), channel),
            !final(self).channels_at(guild).contains(channel),
            final(self).archive_at(guild) == old(self).archive_at(guild),
            final(self).same_but(old(self), guild),
            row == (if old(self).channels_at(guild).contains(channel) {
                Some(spec_channel_row(guild, channel))
            } else {
                None
            }),
    {
        let ghost before = *self;
        let entry = self.cache.entry_mut(guild);
        let ghost found = *entry;
        let removed = entry.remove_channel(channel);
        proof {
            lemma_touch(before, *self, guild, found);
        }
        if removed {
            Some(channel_row(guild, channel))
        } else {
            None
        }
    }

    /// Brings the scanned channels of a guild in line with the channels that
    /// the guild has now. The channels that are gone are returned: their rows
    /// are to be deleted from the durable table.
    pub fn guild_data(&mut self, guild: u64, channels: &HashSet<u64>) -> (gone: Vec<u64>)
        requires
            old(self).wf(),
        ensures
            final(self).wf(),
            final(self).touched(old(self), guild),
            final(self).channels_at(guild) == spec_live(old(self).channels_at(guild), channels@),
            gone@ == spec_dead(old(self).channels_at(guild), channels@),
            final(self).archive_at(guild) == old(self).archive_at(guild),
            final(self).same_but(old(self), guild),
    {
        let ghost before = *self;
        let entry = self.cache.entry_mut(guild);
        let ghost found = *entry;
        let gone = entry.retain_live(channels);
        proof {
            lemma_touch(before, *self, guild, found);
        }
        gone
    }

    /// Starts scanning `target`. The row to insert into the durable table is
    /// returned; a channel that is scanned already is an error.
    pub fn add_channel(&mut self, guild: u64, target: u64) -> (r: Result<ChannelRow, BotError>)
        requires
            old(self).wf(),
        ensures
            final(self).wf(),
            final(self).touched(old(self), guild),
            final(self).channels_at(guild) == spec_insert_new(
                old(self).channels_at(guild),
                target,
            ),
            final(self).archive_at(guild) == old(self).archive_at(guild),
            final(self).same_but(old(self), guild),
            match r {
                Ok(row) => !old(self).channels_at(guild).contains(target) && row
                    == spec_channel_row(guild, target),
                Err(e) => old(self).channels_at(guild).contains(target) && e.is_generic(
                    "Channel already added"@,
                ),
            },
    {
        let ghost before = *self;
        let entry = self.cache.entry_mut(guild);
        let ghost found = *entry;
        let added = entry.add_channel(target);
        proof {
            lemma_touch(before, *self, guild, found);
        }
        if added {
            Ok(channel_row(guild, target))
        } else {
            Err(BotError::Generic(String::from_str("Channel already added")))
        }
    }

    /// Stops scanning `target`. The row to delete from the durable table is
    /// returned; a channel that is not scanned is an error.
    pub fn remove_channel(&mut self, guild: u64, target: u64) -> (r: Result<ChannelRow, BotError>)
        requires
            old(self).wf(),
        ensures
            final(self).wf(),
            final(self).touched(old(self), guild),
            final(self).channels_at(guild) == spec_remove(old(self).channels_at(guild), target),
            !final(self).channels_at(guild).contains(target),
            final(self).archive_at(guild) == old(self).archive_at(guild),
            final(self).same_but(old(self), guild),
            match r {
                Ok(row) => old(self).channels_at(guild).contains(target) && row
                    == spec_channel_row(guild, target),
                Err(e) => !old(self).channels_at(guild).contains(target) && e.is_generic(
                    "Channel not in previews"@,
                ),
            },
    {
        let ghost before = *self;
        let entry = self.cache.entry_mut(guild);
        let ghost found = *entry;
        let removed = entry.remove_channel(target);
        proof {
            lemma_touch(before, *self, guild, found);
        }
        if removed {
            Ok(channel_row(guild, target))
        } else {
            Err(BotError::Generic(String::from_str("Channel not in previews")))
        }
    }

    /// Sets or clears the archive channel of a guild and says what to write
    /// to the durable table.
    pub fn update_archive(&mut self, from: Option<u64>, guild_id: u64) -> (write: ArchiveWrite)
        requires
            old(self).wf(),
        ensures
            final(self).wf(),
            final(self).touched(old(self), guild_id),
            final(self).archive_at(guild_id) == from,
            final(self).channels_at(guild_id) == old(self).channels_at(guild_id),
            final(self).same_but(old(self), guild_id),
            write == match from {
                Some(target) => ArchiveWrite::Upsert(spec_channel_row(guild_id, target)),
                None => ArchiveWrite::Delete { guild_id: spec_to_sql(guild_id) },
            },
    {
        let ghost before = *self;
        let entry = self.cache.entry_mut(guild_id);
        let ghost found = *entry;
        entry.archive_channel = from;
        proof {
            lemma_touch(before, *self, guild_id, found);
        }
        match from {
            Some(target) => ArchiveWrite::Upsert(channel_row(guild_id, target)),
            None => ArchiveWrite::Delete { guild_id: SqlId(guild_id).encode() },
        }
    }

    /// The channel that archived messages of a guild go to; an error where
    /// none is set.
    pub fn archive_channel(&mut self, guild: u64) -> (r: Result<u64, BotError>)
        requires
            old(self).wf(),
        ensures
            final(self).wf(),
            final(self).populated(old(self), guild),
            forall|g: u64|
                final(self).channels_at(g) == old(self).channels_at(g) && final(self).archive_at(g)
                    == old(self).archive_at(g),
            match r {
                Ok(channel) => old(self).archive_at(guild) == Some(channel),
                Err(e) => old(self).archive_at(guild) is None && e.is_generic(
                    "Archive channel not set"@,
                ),
            },
    {
        let ghost before = *self;
        let entry = self.cache.entry(guild);
        let found = entry.archive_channel;
        proof {
            lemma_touch(before, *self, guild, *entry);
        }
        match found {
            Some(channel) => Ok(channel),
            None => Err(BotError::Generic(String::from_str("Archive channel not set"))),
        }
    }

    /// The text that lists the scanned channels of a guild.
    pub fn channel_list(&mut self, guild: u64) -> (text: String)
        requires
            old(self).wf(),
        ensures
            final(self).wf(),
            final(self).populated(old(self), guild),
            forall|g: u64|
                final(self).channels_at(g) == old(self).channels_at(g) && final(self).archive_at(g)
                    == old(self).archive_at(g),
            text@ == spec_channel_list(old(self).channels_at(guild)),
    {
        let ghost before = *self;
        let entry = self.cache.entry(guild);
        let mut items: Vec<String> = Vec::new();
        items.push(String::from_str("**Channels**"));
        let mut i: usize = 0;
        assert(texts(items@) =~= seq!["**Channels**"@] + Seq::new(
            0nat,
            |j: int| spec_mention_channel(entry.auto_channels@[j]),
        ));
        while i < entry.auto_channels.len()
            invariant
                i <= entry.auto_channels.len(),
                texts(items@) == seq!["**Channels**"@] + Seq::new(
                    i as nat,
                    |j: int| spec_mention_channel(entry.auto_channels@[j]),
                ),
            decreases entry.auto_channels.len() - i,
        {
            let ghost done = texts(items@);
            let mention = mention_channel(entry.auto_channels[i]);
            let ghost written = mention@;
            items.push(mention);
            i += 1;
            assert(texts(items@) =~= done.push(written));
            assert(texts(items@) =~= seq!["**Channels**"@] + Seq::new(
                i as nat,
                |j: int| spec_mention_channel(entry.auto_channels@[j]),
            ));
        }
        proof {
            lemma_touch(before, *self, guild, *entry);
        }
        if items.len() == 1 {
            String::from_str("No channels")
        } else {
            join(&items, "\n")
        }
    }

    /// Reacts to a notice: the entry of a destroyed guild is dropped. The
    /// answer says whether to go on listening; a failed channel is given as
    /// no notice at all.
    pub fn on_task_message(&mut self, msg: Option<TaskMessage>) -> (listening: bool)
        requires
            old(self).wf(),
        ensures
            final(self).wf(),
            match msg {
                Some(TaskMessage::DestroyGuild(g)) => listening && final(self).cache()@ == old(
                    self,
                ).cache()@.remove(g),
                _ => !listening && final(self).cache()@ == old(self).cache()@,
            },
    {
        match msg {
            Some(TaskMessage::DestroyGuild(g)) => {
                self.cache.evict(g);
                true
            },
            _ => false,
        }
    }

    /// Loads the persisted rows: first the scanned channels, then the archive
    /// channels, each in order.
    pub fn initialize(&mut self, channel_rows: &Vec<ChannelRow>, archive_rows: &Vec<ChannelRow>)
        requires
            old(self).wf(),
        ensures
            final(self).wf(),
            forall|g: u64|
                final(self).cache()@.contains_key(g) <==> old(self).cache()@.contains_key(g)
                    || channel_row_guilds(channel_rows@).contains(g) || channel_row_guilds(
                    archive_rows@,
                ).contains(g),
            forall|g: u64|
                final(self).channels_at(g) == loaded_channels(
                    channel_rows@,
                    g,
                    old(self).channels_at(g),
                ),
            forall|g: u64|
                final(self).archive_at(g) == loaded_archive(
                    archive_rows@,
                    g,
                    old(self).archive_at(g),
                ),
    {
        let mut i: usize = 0;
        assert(channel_rows@.take(0) =~= Seq::<ChannelRow>::empty());
        while i < channel_rows.len()
            invariant
                i <= channel_rows.len(),
                self.wf(),
                forall|g: u64|
                    self.channels_at(g) == loaded_channels(
                        channel_rows@.take(i as int),
                        g,
                        old(self).channels_at(g),
                    ),
                forall|g: u64| self.archive_at(g) == old(self).archive_at(g),
                forall|g: u64|
                    self.cache()@.contains_key(g) <==> old(self).cache()@.contains_key(g)
                        || channel_row_guilds(channel_rows@.take(i as int)).contains(g),
            decreases channel_rows.len() - i,
        {
            let row = channel_rows[i];
            let guild = SqlId::decode(row.guild_id).0;
            let ghost before = *self;
            let entry = self.cache.entry_mut(guild);
            let ghost found = *entry;
            let _ = entry.add_channel(SqlId::decode(row.channel_id).0);
            proof {
                lemma_touch(before, *self, guild, found);
                let next = channel_rows@.take(i + 1);
                assert(next.drop_last() =~= channel_rows@.take(i as int));
                assert(next.last() == row);
                assert forall|g: u64|
                    self.channels_at(g) == loaded_channels(next, g, old(self).channels_at(g)) by {
                    assert(before.channels_at(g) == loaded_channels(
                        channel_rows@.take(i as int),
                        g,
                        old(self).channels_at(g),
                    ));
                }
                assert forall|g: u64| self.archive_at(g) == old(self).archive_at(g) by {
                    assert(before.archive_at(g) == old(self).archive_at(g));
                }
                lemma_row_guilds_step(channel_rows@, i as int);
                assert forall|g: u64|
                    self.cache()@.contains_key(g) <==> old(self).cache()@.contains_key(g)
                        || channel_row_guilds(next).contains(g) by {
                    assert(self.cache()@.contains_key(g) <==> before.cache()@.contains_key(g) || g
                        == guild);
                    assert(before.cache()@.contains_key(g) <==> old(self).cache()@.contains_key(g)
                        || channel_row_guilds(channel_rows@.take(i as int)).contains(g));
                    assert(channel_row_guilds(next).contains(g) <==> channel_row_guilds(
                        channel_rows@.take(i as int),
                    ).contains(g) || g == guild);
                }
            }
            i += 1;
        }
        assert(channel_rows@.take(channel_rows.len() as int) =~= channel_rows@);
        let ghost mid = *self;
        assert forall|g: u64|
            mid.cache()@.contains_key(g) <==> old(self).cache()@.contains_key(g)
                || channel_row_guilds(channel_rows@).contains(g) by {}
        assert forall|g: u64|
            mid.channels_at(g) == loaded_channels(channel_rows@, g, old(self).channels_at(g)) by {}
        assert forall|g: u64| mid.archive_at(g) == old(self).archive_at(g) by {}
        let mut j: usize = 0;
        assert(archive_rows@.take(0) =~= Seq::<ChannelRow>::empty());
        while j < archive_rows.len()
            invariant
                j <= archive_rows.len(),
                self.wf(),
                forall|g: u64|
                    mid.channels_at(g) == loaded_channels(
                        channel_rows@,
                        g,
                        old(self).channels_at(g),
                    ),
                forall|g: u64| self.channels_at(g) == mid.channels_at(g),
                forall|g: u64|
                    mid.cache()@.contains_key(g) <==> old(self).cache()@.contains_key(g)
                        || channel_row_guilds(channel_rows@).contains(g),
                forall|g: u64|
                    self.cache()@.contains_key(g) <==> mid.cache()@.contains_key(g)
                        || channel_row_guilds(archive_rows@.take(j as int)).contains(g),
                forall|g: u64|
                    self.archive_at(g) == loaded_archive(
                        archive_rows@.take(j as int),
                        g,
                        old(self).archive_at(g),
                    ),
            decreases archive_rows.len() - j,
        {
            let row = archive_rows[j];
            let guild = SqlId::decode(row.guild_id).0;
            let ghost before = *self;
            assert forall|g: u64|
                before.cache()@.contains_key(g) <==> mid.cache()@.contains_key(g)
                    || channel_row_guilds(archive_rows@.take(j as int)).contains(g) by {
                assert(self.cache()@.contains_key(g) <==> mid.cache()@.contains_key(g)
                    || channel_row_guilds(archive_rows@.take(j as int)).contains(g));
            }
            let entry = self.cache.entry_mut(guild);
            let ghost found = *entry;
            entry.archive_channel = Some(SqlId::decode(row.channel_id).0);
            proof {
                lemma_touch(before, *self, guild, found);
                let next = archive_rows@.take(j + 1);
                assert(next.drop_last() =~= archive_rows@.take(j as int));
                assert(next.last() == row);
                assert forall|g: u64|
                    self.archive_at(g) == loaded_archive(next, g, old(self).archive_at(g)) by {
                    assert(before.archive_at(g) == loaded_archive(
                        archive_rows@.take(j as int),
                        g,
                        old(self).archive_at(g),
                    ));
                }
                assert forall|g: u64| self.channels_at(g) == mid.channels_at(g) by {
                    assert(before.channels_at(g) == mid.channels_at(g));
                }
                lemma_row_guilds_step(archive_rows@, j as int);
                assert forall|g: u64|
                    self.cache()@.contains_key(g) <==> mid.cache()@.contains_key(g)
                        || channel_row_guilds(next).contains(g) by {
                    assert(self.cache()@.contains_key(g) <==> before.cache()@.contains_key(g) || g
                        == guild);
                    assert(before.cache()@.contains_key(g) <==> mid.cache()@.contains_key(g)
                        || channel_row_guilds(archive_rows@.take(j as int)).contains(g));
                    assert(channel_row_guilds(next).contains(g) <==> channel_row_guilds(
                        archive_rows@.take(j as int),
                    ).contains(g) || g == guild);
                }
            }
            j += 1;
        }
        assert(archive_rows@.take(archive_rows.len() as int) =~= archive_rows@);
        assert forall|g: u64|
            self.channels_at(g) == loaded_channels(channel_rows@, g, old(self).channels_at(g)) by {
            assert(self.channels_at(g) == mid.channels_at(g));
        }
    }
}

/// What touching the entry of one guild does to the registry: the guild has
/// what was stored, and every other guild has what it had.
pub proof fn lemma_touch(
    before: PreviewsModule,
    after: PreviewsModule,
    guild: u64,
    found: PreviewsConfig,
)
    requires
        before.cache().observes(guild, found),
        after.cache()@.contains_key(guild),
        after.cache()@ == before.cache()@.insert(guild, after.cache()@[guild]),
    ensures
        found.auto_channels@ == before.channels_at(guild),
        found.archive_channel == before.archive_at(guild),
        after.channels_at(guild) == after.cache()@[guild].auto_channels@,
        after.archive_at(guild) == after.cache()@[guild].archive_channel,
        after.same_but(&before, guild),
{
    assert forall|g: u64| g != guild implies after.channels_at(g) == before.channels_at(g)
        && after.archive_at(g) == before.archive_at(g) by {
        assert(after.cache()@.contains_key(g) == before.cache()@.contains_key(g));
        if before.cache()@.contains_key(g) {
            assert(after.cache()@[g] == before.cache()@[g]);
        }
    }
}

/// The pattern of a link to a message: the ids of the guild, the channel and
/// the message are its three groups.
pub const LINK_PATTERN: &'static str =
    r"https://(?:\w+\.)?discord(?:app)?.com/channels/(\d+)/(\d+)/(\d+)";

/// What matching `pattern` against `text` finds: nothing where the pattern
/// does not compile; else, for each match from left to right, the text of
/// each group of the pattern, the whole match first, where the group took
/// part in the match.
pub uninterp spec fn regex_captures(pattern: Seq<char>, text: Seq<char>) -> Option<
    Seq<Seq<Option<Seq<char>>>>,
>;

/// The groups of one match as plain text.
pub open spec fn groups_view(groups: Seq<Option<String>>) -> Seq<Option<Seq<char>>> {
    Seq::new(
        groups.len(),
        |i: int|
            match groups[i] {
                Some(s) => Some(s@),
                None => None,
            },
    )
}

/// The matches of a text as plain text.
pub open spec fn captures_view(found: Option<Vec<Vec<Option<String>>>>) -> Option<
    Seq<Seq<Option<Seq<char>>>>,
> {
    match found {
        Some(matches) => Some(Seq::new(matches@.len(), |i: int| groups_view(matches@[i]@))),
        None => None,
    }
}

/// Finds the successive matches of `pattern` in `text`, with their groups.
///
/// Trusted: the result is what `regex::Regex::new` and then
/// `Regex::captures_iter` give for this pattern and text, each group read
/// with `Match::as_str`; it depends on the pattern and the text alone.
/// Whether the pattern compiles does not depend on the text.
#[verifier::external_body]
fn find_captures(pattern: &str, text: &str) -> (found: Option<Vec<Vec<Option<String>>>>)
    ensures
        captures_view(found) == regex_captures(pattern@, text@),
        forall|other: Seq<char>| (#[trigger] regex_captures(pattern@, other) is None) == (found is None),
{
    match regex::Regex::new(pattern) {
        Ok(re) => Some(
            re.captures_iter(text).map(
                |c| c.iter().map(|m| m.map(|m| m.as_str().to_string())).collect(),
            ).collect(),
        ),
        Err(_) => None,
    }
}

/// The message that a link points to.
#[derive(Debug, Clone, Copy, PartialEq, Eq, Structural)]
pub struct MessageLink {
    pub guild: u64,
    pub channel: u64,
    pub message: u64,
}

/// What one group of a match gives as an id, or the number of the step that
/// failed: `missing` where the group took no part, `missing + 1` where its
/// text is not a number that fits in 64 bits.
pub open spec fn spec_group_id(groups: Seq<Option<Seq<char>>>, index: int, missing: u64) -> Result<
    u64,
    u64,
> {
    if index < groups.len() && groups[index] is Some {
        match spec_parse_u64(groups[index]->0) {
            Some(id) => Ok(id),
            None => Err((missing + 1) as u64),
        }
    } else {
        Err(missing)
    }
}

/// What the groups of one match give as a link: the three ids, or the number
/// of the first step that failed, counted from `base`.
pub open spec fn spec_parse_capture(groups: Seq<Option<Seq<char>>>, base: u64) -> Result<
    MessageLink,
    u64,
> {
    match spec_group_id(groups, 1, base) {
        Err(code) => Err(code),
        Ok(guild) => match spec_group_id(groups, 2, (base + 2) as u64) {
            Err(code) => Err(code),
            Ok(channel) => match spec_group_id(groups, 3, (base + 4) as u64) {
                Err(code) => Err(code),
                Ok(message) => Ok(MessageLink { guild, channel, message }),
            },
        },
    }
}

fn group_id(groups: &Vec<Option<String>>, index: usize, missing: u64) -> (r: Result<u64, BotError>)
    requires
        missing < u64::MAX,
    ensures
        match r {
            Ok(id) => spec_group_id(groups_view(groups@), index as int, missing) == Ok::<u64, u64>(id),
            Err(e) => spec_group_id(groups_view(groups@), index as int, missing) is Err
                && e == BotError::Internal(
                spec_group_id(groups_view(groups@), index as int, missing)->Err_0,
            ),
        },
{
    if index >= groups.len() {
        return Err(BotError::Internal(missing));
    }
    match &groups[index] {
        None => Err(BotError::Internal(missing)),
        Some(text) => match parse_u64(text.as_str()) {
            Some(id) => Ok(id),
            None => Err(BotError::Internal(missing + 1)),
        },
    }
}

/// Reads the three ids of a link from the groups of one match. A step that
/// fails is reported as an internal error numbered from `base`: a group that
/// took no part in the match, then a group that is not a number, for the
/// guild, the channel and the message in turn.
pub fn parse_capture(groups: &Vec<Option<String>>, base: u64) -> (r: Result<MessageLink, BotError>)
    requires
        base <= u64::MAX - 6,
    ensures
        match r {
            Ok(link) => spec_parse_capture(groups_view(groups@), base) == Ok::<MessageLink, u64>(
                link,
            ),
            Err(e) => spec_parse_capture(groups_view(groups@), base) is Err && e
                == BotError::Internal(spec_parse_capture(groups_view(groups@), base)->Err_0),
        },
{
    let guild = match group_id(groups, 1, base) {
        Ok(id) => id,
        Err(e) => {
            return Err(e);
        },
    };
    let channel = match group_id(groups, 2, base + 2) {
        Ok(id) => id,
        Err(e) => {
            return Err(e);
        },
    };
    let message = match group_id(groups, 3, base + 4) {
        Ok(id) => id,
        Err(e) => {
            return Err(e);
        },
    };
    Ok(MessageLink { guild, channel, message })
}

/// The links of the matches up to the first match that cannot be read, and
/// the number of the step that failed there, if any did.
pub open spec fn spec_links(matches: Seq<Seq<Option<Seq<char>>>>, base: u64) -> (
    Seq<MessageLink>,
    Option<u64>,
)
    decreases matches.len(),
{
    if matches.len() == 0 {
        (Seq::empty(), None)
    } else {
        let before = spec_links(matches.drop_last(), base);
        if before.1 is Some {
            before
        } else {
            match spec_parse_capture(matches.last(), base) {
                Ok(link) => (before.0.push(link), None),
                Err(code) => (before.0, Some(code)),
            }
        }
    }
}

/// Reads the links of successive matches. Reading stops at the first match
/// that cannot be read; the links before it are returned with the error.
pub fn links_of(matches: &Vec<Vec<Option<String>>>, base: u64) -> (out: (
    Vec<MessageLink>,
    Option<BotError>,
))
    requires
        base <= u64::MAX - 6,
    ensures
        out.0@ == spec_links(captures_view(Some(*matches))->0, base).0,
        match out.1 {
            Some(e) => spec_links(captures_view(Some(*matches))->0, base).1 is Some && e
                == BotError::Internal(spec_links(captures_view(Some(*matches))->0, base).1->0),
            None => spec_links(captures_view(Some(*matches))->0, base).1 is None,
        },
{
    let ghost all = captures_view(Some(*matches))->0;
    let mut links: Vec<MessageLink> = Vec::new();
    let mut i: usize = 0;
    assert(all.take(0) =~= Seq::<Seq<Option<Seq<char>>>>::empty());
    while i < matches.len()
        invariant
            i <= matches.len(),
            base <= u64::MAX - 6,
            all == captures_view(Some(*matches))->0,
            spec_links(all.take(i as int), base) == (links@, None::<u64>),
        decreases matches.len() - i,
    {
        proof {
            let next = all.take(i + 1);
            assert(next.drop_last() =~= all.take(i as int));
            assert(next.last() == groups_view(matches@[i as int]@));
        }
        match parse_capture(&matches[i], base) {
            Ok(link) => {
                links.push(link);
            },
            Err(e) => {
                proof {
                    lemma_links_stop(all, i + 1, base);
                }
                return (links, Some(e));
            },
        }
        i += 1;
    }
    assert(all.take(matches.len() as int) =~= all);
    (links, None)
}

/// Once a match could not be read, the matches after it change nothing.
pub proof fn lemma_links_stop(matches: Seq<Seq<Option<Seq<char>>>>, k: int, base: u64)
    requires
        0 <= k <= matches.len(),
        spec_links(matches.take(k), base).1 is Some,
    ensures
        spec_links(matches, base) == spec_links(matches.take(k), base),
    decreases matches.len() - k,
{
    if k == matches.len() {
        assert(matches.take(k) =~= matches);
    } else {
        assert(matches.take(k + 1).drop_last() =~= matches.take(k));
        lemma_links_stop(matches, k + 1, base);
    }
}

impl PreviewsModule {
    /// Whether the pattern of message links compiles.
    pub open spec fn pattern_ok() -> bool {
        regex_captures(LINK_PATTERN@, Seq::<char>::empty()) is Some
    }

    /// A registry without entries. It cannot be had where the pattern of
    /// message links does not compile.
    pub fn new() -> (r: Result<Self, BotError>)
        ensures
            match r {
                Ok(m) => Self::pattern_ok() && m.wf() && m.cache()@ == Map::<
                    u64,
                    PreviewsConfig,
                >::empty(),
                Err(e) => !Self::pattern_ok() && e.is_generic("Link pattern does not compile"@),
            },
    {
        match find_captures(LINK_PATTERN, "") {
            Some(_) => Ok(Self::empty()),
            None => Err(BotError::Generic(String::from_str("Link pattern does not compile"))),
        }
    }

    /// The messages that the links in `content` point to, from left to right.
    /// Reading stops at the first link whose ids cannot be read; the links
    /// before it are returned together with the error.
    pub fn message_links(content: &str) -> (out: (Vec<MessageLink>, Option<BotError>))
        ensures
            out.0@ == spec_message_links(content@).0,
            match out.1 {
                Some(e) => spec_message_links(content@).1 is Some && e == BotError::Internal(
                    spec_message_links(content@).1->0,
                ),
                None => spec_message_links(content@).1 is None,
            },
    {
        match find_captures(LINK_PATTERN, content) {
            Some(matches) => links_of(&matches, 0),
            None => (Vec::new(), None),
        }
    }

    /// What a message asks for: the linked messages to preview, in order,
    /// and the error at which reading the links stopped, if it did. A message
    /// outside a guild, or in a channel that is not scanned, asks for nothing.
    pub fn message(&mut self, guild: Option<u64>, channel: u64, content: &str) -> (out: (
        Vec<MessageLink>,
        Option<BotError>,
    ))
        requires
            old(self).wf(),
        ensures
            final(self).wf(),
            match guild {
                Some(g) => final(self).populated(old(self), g),
                None => final(self).cache()@ == old(self).cache()@,
            },
            forall|g: u64|
                final(self).channels_at(g) == old(self).channels_at(g) && final(self).archive_at(g)
                    == old(self).archive_at(g),
            out.0@ == old(self).spec_message(guild, channel, content@).0,
            match out.1 {
                Some(e) => old(self).spec_message(guild, channel, content@).1 is Some && e
                    == BotError::Internal(old(self).spec_message(guild, channel, content@).1->0),
                None => old(self).spec_message(guild, channel, content@).1 is None,
            },
    {
        if !self.should_scan(guild, channel) {
            return (Vec::new(), None);
        }
        Self::message_links(content)
    }

    /// What a message asks for, as plain values.
    pub open spec fn spec_message(&self, guild: Option<u64>, channel: u64, content: Seq<char>) -> (
        Seq<MessageLink>,
        Option<u64>,
    ) {
        if guild is Some && self.channels_at(guild->0).contains(channel) {
            spec_message_links(content)
        } else {
            (Seq::empty(), None)
        }
    }

    /// The message that the first link in `target` points to. A text without
    /// a link is malformed; a link whose ids cannot be read is an internal
    /// error numbered from six.
    pub fn view_link(target: &str) -> (r: Result<MessageLink, BotError>)
        ensures
            match spec_first_match(target@) {
                None => r matches Err(e) && e.is_generic("Malformed link"@),
                Some(groups) => match r {
                    Ok(link) => spec_parse_capture(groups, 6) == Ok::<MessageLink, u64>(link),
                    Err(e) => spec_parse_capture(groups, 6) is Err && e == BotError::Internal(
                        spec_parse_capture(groups, 6)->Err_0,
                    ),
                },
            },
    {
        match find_captures(LINK_PATTERN, target) {
            Some(matches) => {
                if matches.len() == 0 {
                    Err(BotError::Generic(String::from_str("Malformed link")))
                } else {
                    parse_capture(&matches[0], 6)
                }
            },
            None => Err(BotError::Generic(String::from_str("Malformed link"))),
        }
    }
}

/// The links in a text and the step at which reading them stopped; nothing
/// at all where the pattern of links does not compile.
pub open spec fn spec_message_links(content: Seq<char>) -> (Seq<MessageLink>, Option<u64>) {
    match regex_captures(LINK_PATTERN@, content) {
        Some(matches) => spec_links(matches, 0),
        None => (Seq::empty(), None),
    }
}

/// The groups of the first link in a text, if it has one.
pub open spec fn spec_first_match(content: Seq<char>) -> Option<Seq<Option<Seq<char>>>> {
    match regex_captures(LINK_PATTERN@, content) {
        Some(matches) => if matches.len() > 0 {
            Some(matches[0])
        } else {
            None
        },
        None => None,
    }
}

/// The largest attachment that is passed on, in bytes, is just below this.
pub const ATTACHMENT_LIMIT: u64 = 8388246;

/// The positions of the sizes below the limit, in order.
pub open spec fn spec_sendable(sizes: Seq<u64>) -> Seq<usize>
    decreases sizes.len(),
{
    if sizes.len() == 0 {
        Seq::empty()
    } else if sizes.last() < ATTACHMENT_LIMIT {
        spec_sendable(sizes.drop_last()).push((sizes.len() - 1) as usize)
    } else {
        spec_sendable(sizes.drop_last())
    }
}

/// The positions of the attachments that are small enough to be passed on.
pub fn sendable(sizes: &Vec<u64>) -> (keep: Vec<usize>)
    ensures
        keep@ == spec_sendable(sizes@),
{
    let mut keep: Vec<usize> = Vec::new();
    let mut i: usize = 0;
    assert(sizes@.take(0) =~= Seq::<u64>::empty());
    while i < sizes.len()
        invariant
            i <= sizes.len(),
            keep@ == spec_sendable(sizes@.take(i as int)),
        decreases sizes.len() - i,
    {
        assert(sizes@.take(i + 1).drop_last() =~= sizes@.take(i as int));
        if sizes[i] < ATTACHMENT_LIMIT {
            keep.push(i);
        }
        i += 1;
    }
    assert(sizes@.take(sizes.len() as int) =~= sizes@);
    keep
}

} // verus!

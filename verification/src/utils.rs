//! Helpers shared by the command handlers.

use std::collections::HashMap;
use vstd::prelude::*;
use crate::permissions::Role;
use crate::text::{chars_of, is_digit, parse_digits_from, push_decimal, spec_decimal, spec_parse_digits};

verus! {

broadcast use vstd::std_specs::hash::group_hash_axioms;

/// The positions are in ascending order, without repeats, and inside a list
/// of length `len`.
pub open spec fn valid_positions(indexes: Seq<usize>, len: nat) -> bool {
    &&& forall|i: int, j: int| 0 <= i < j < indexes.len() ==> indexes[i] < indexes[j]
    &&& forall|i: int| 0 <= i < indexes.len() ==> indexes[i] < len
}

/// The elements of `s` at the given positions.
pub open spec fn spec_picked<T>(s: Seq<T>, indexes: Seq<usize>) -> Seq<T> {
    Seq::new(indexes.len(), |i: int| s[indexes[i] as int])
}

/// `s` without the elements at the given positions.
pub open spec fn spec_without<T>(s: Seq<T>, indexes: Seq<usize>) -> Seq<T>
    decreases indexes.len(),
{
    if indexes.len() == 0 {
        s
    } else {
        spec_without(s.remove(indexes.last() as int), indexes.drop_last())
    }
}

/// Taking out a position behind all the others can be done last.
pub proof fn lemma_without_then_remove<T>(s: Seq<T>, indexes: Seq<usize>, j: int)
    requires
        valid_positions(indexes, s.len()),
        0 <= j < s.len(),
        forall|i: int| 0 <= i < indexes.len() ==> indexes[i] < j,
    ensures
        indexes.len() <= j,
        spec_without(s, indexes).len() == s.len() - indexes.len(),
        spec_without(s.remove(j), indexes) == spec_without(s, indexes).remove(j - indexes.len()),
    decreases indexes.len(),
{
    if indexes.len() == 0 {
    } else {
        let last = indexes.last() as int;
        let rest = indexes.drop_last();
        assert(indexes[indexes.len() - 1] < j);
        assert forall|i: int| 0 <= i < rest.len() implies rest[i] < last by {
            assert(rest[i] == indexes[i]);
        }
        assert(valid_positions(rest, (s.len() - 1) as nat)) by {
            assert forall|i: int| 0 <= i < rest.len() implies rest[i] < s.len() - 1 by {
                assert(rest[i] == indexes[i]);
                assert(indexes[i] < indexes[indexes.len() - 1]);
            }
            assert forall|a: int, b: int| 0 <= a < b < rest.len() implies rest[a] < rest[b] by {
                assert(rest[a] == indexes[a] && rest[b] == indexes[b]);
            }
        }
        // both sides start by removing `last` and `j`, in either order
        assert(s.remove(j).remove(last) =~= s.remove(last).remove(j - 1));
        lemma_without_then_remove(s.remove(last), rest, j - 1);
    }
}

/// Takes the elements at the given positions out of `vector` and returns them
/// in that order. The positions refer to the vector as it was handed in.
pub fn remove_indexes<T>(vector: &mut Vec<T>, indexes: &[usize]) -> (entries: Vec<T>)
    requires
        valid_positions(indexes@, old(vector)@.len()),
    ensures
        entries@ == spec_picked(old(vector)@, indexes@),
        final(vector)@ == spec_without(old(vector)@, indexes@),
{
    let mut entries: Vec<T> = Vec::new();
    let mut offset: usize = 0;
    assert(indexes@.take(0) =~= Seq::<usize>::empty());
    while offset < indexes.len()
        invariant
            offset <= indexes.len(),
            valid_positions(indexes@, old(vector)@.len()),
            entries@ == spec_picked(old(vector)@, indexes@.take(offset as int)),
            vector@ == spec_without(old(vector)@, indexes@.take(offset as int)),
            vector@.len() == old(vector)@.len() - offset,
        decreases indexes.len() - offset,
    {
        let entry = indexes[offset];
        let ghost done = indexes@.take(offset as int);
        let ghost next = indexes@.take(offset + 1);
        proof {
            assert(next.drop_last() =~= done);
            assert(next.last() == entry);
            assert(valid_positions(done, old(vector)@.len())) by {
                assert forall|i: int, j: int| 0 <= i < j < done.len() implies done[i] < done[j] by {
                    assert(done[i] == indexes@[i] && done[j] == indexes@[j]);
                }
                assert forall|i: int| 0 <= i < done.len() implies done[i] < old(vector)@.len() by {
                    assert(done[i] == indexes@[i]);
                }
            }
            assert forall|i: int| 0 <= i < done.len() implies done[i] < entry by {
                assert(done[i] == indexes@[i]);
            }
            lemma_without_then_remove(old(vector)@, done, entry as int);
        }
        let item = vector.remove(entry - offset);
        proof {
            lemma_picked_at(old(vector)@, done, entry as int);
        }
        entries.push(item);
        proof {
            assert(entries@ =~= spec_picked(old(vector)@, next));
        }
        offset += 1;
    }
    assert(indexes@.take(indexes.len() as int) =~= indexes@);
    entries
}

/// After the earlier positions are taken out, the element that stood at `j`
/// stands that many places further to the front.
pub proof fn lemma_picked_at<T>(s: Seq<T>, indexes: Seq<usize>, j: int)
    requires
        valid_positions(indexes, s.len()),
        0 <= j < s.len(),
        forall|i: int| 0 <= i < indexes.len() ==> indexes[i] < j,
    ensures
        indexes.len() <= j,
        j - indexes.len() < spec_without(s, indexes).len(),
        spec_without(s, indexes)[j - indexes.len()] == s[j],
    decreases indexes.len(),
{
    lemma_without_then_remove(s, indexes, j);
    if indexes.len() > 0 {
        let last = indexes.last() as int;
        let rest = indexes.drop_last();
        assert(indexes[indexes.len() - 1] < j);
        assert(valid_positions(rest, (s.len() - 1) as nat)) by {
            assert forall|i: int| 0 <= i < rest.len() implies rest[i] < s.len() - 1 by {
                assert(rest[i] == indexes[i]);
                assert(indexes[i] < indexes[indexes.len() - 1]);
            }
            assert forall|a: int, b: int| 0 <= a < b < rest.len() implies rest[a] < rest[b] by {
                assert(rest[a] == indexes[a] && rest[b] == indexes[b]);
            }
        }
        assert forall|i: int| 0 <= i < rest.len() implies rest[i] < j - 1 by {
            assert(rest[i] == indexes[i]);
            assert(indexes[i] < indexes[indexes.len() - 1]);
        }
        lemma_picked_at(s.remove(last), rest, j - 1);
    }
}

/// The default value of `U`, whatever the argument.
pub fn default_arg<T, U: Default>(_ignored: T) -> (r: U)
    ensures
        call_ensures(U::default, (), r),
{
    U::default()
}

/// The number of seconds in one unit of time, by the letter that names it.
pub open spec fn spec_unit_seconds(c: char) -> Option<nat> {
    if c == 'd' {
        Some(86400nat)
    } else if c == 'h' {
        Some(3600nat)
    } else if c == 'm' {
        Some(60nat)
    } else if c == 's' {
        Some(1nat)
    } else {
        None
    }
}

/// What reading a duration has found after `s`: the digits read so far and
/// the seconds counted so far, or nothing once the text has gone wrong.
///
/// A digit joins the digits read so far. Any other character must name a unit,
/// and the digits read so far must be a number that fits in 64 bits; that many
/// units are counted. The digits are not forgotten after a unit: in `1h30m`
/// the minutes are read as 130.
pub open spec fn spec_duration_scan(s: Seq<char>) -> Option<(Seq<char>, nat)>
    decreases s.len(),
{
    if s.len() == 0 {
        Some((Seq::<char>::empty(), 0nat))
    } else {
        match spec_duration_scan(s.drop_last()) {
            None => None,
            Some((digits, total)) => if is_digit(s.last()) {
                Some((digits.push(s.last()), total))
            } else {
                match (spec_parse_digits(digits), spec_unit_seconds(s.last())) {
                    (Some(quantity), Some(unit)) => Some((digits, total + quantity as nat * unit)),
                    _ => None,
                }
            },
        }
    }
}

/// The seconds that a duration text stands for. Digits at the end that no
/// unit follows count for nothing.
pub open spec fn spec_parse_duration(s: Seq<char>) -> Option<nat> {
    match spec_duration_scan(s) {
        Some((_, total)) => Some(total),
        None => None,
    }
}

/// The seconds counted after `s`, zero once the text has gone wrong.
pub open spec fn spec_duration_total(s: Seq<char>) -> nat {
    match spec_duration_scan(s) {
        Some((_, total)) => total,
        None => 0,
    }
}

/// Reading on never lowers the count, and never mends a text that has gone
/// wrong.
pub proof fn lemma_duration_scan_grows(s: Seq<char>, k: int)
    requires
        0 <= k <= s.len(),
    ensures
        spec_duration_scan(s.take(k)) is None ==> spec_duration_scan(s) is None,
        spec_duration_scan(s) is Some ==> spec_duration_total(s.take(k)) <= spec_duration_total(s),
    decreases s.len() - k,
{
    if k == s.len() {
        assert(s.take(k) =~= s);
    } else {
        assert(s.take(k + 1).drop_last() =~= s.take(k));
        lemma_duration_scan_grows(s, k + 1);
    }
}

/// Reads a duration such as `90s`, `15m` or `2d`, in seconds. Nothing is
/// returned where the text is malformed or the seconds do not fit in 64 bits.
pub fn parse_duration(from: &str) -> (r: Option<u64>)
    ensures
        r == match spec_parse_duration(from@) {
            Some(total) => if total <= u64::MAX {
                Some(total as u64)
            } else {
                None
            },
            None => None::<u64>,
        },
{
    let chars = chars_of(from);
    let mut digits: Vec<char> = Vec::new();
    let mut total: u64 = 0;
    let mut i: usize = 0;
    assert(chars@.take(0) =~= Seq::<char>::empty());
    while i < chars.len()
        invariant
            i <= chars.len(),
            chars@ == from@,
            spec_duration_scan(chars@.take(i as int)) == Some((digits@, total as nat)),
        decreases chars.len() - i,
    {
        let c = chars[i];
        let ghost next = chars@.take(i + 1);
        proof {
            assert(next.drop_last() =~= chars@.take(i as int));
            assert(next.last() == c);
            lemma_duration_scan_grows(chars@, i + 1);
        }
        if c >= '0' && c <= '9' {
            digits.push(c);
        } else {
            assert(digits@.skip(0) =~= digits@);
            let quantity = match parse_digits_from(&digits, 0) {
                Some(q) => q,
                None => {
                    return None;
                },
            };
            let unit: u64 = if c == 'd' {
                86400
            } else if c == 'h' {
                3600
            } else if c == 'm' {
                60
            } else if c == 's' {
                1
            } else {
                return None;
            };
            let product = match quantity.checked_mul(unit) {
                Some(p) => p,
                None => {
                    return None;
                },
            };
            total = match total.checked_add(product) {
                Some(t) => t,
                None => {
                    return None;
                },
            };
        }
        i += 1;
    }
    assert(chars@.take(chars.len() as int) =~= chars@);
    Some(total)
}

/// The rank of a role as far as it is known: that of the cached role, or zero.
pub open spec fn spec_position(cached: Map<u64, Role>, role: u64) -> int {
    if cached.contains_key(role) {
        cached[role].position as int
    } else {
        0
    }
}

/// The highest rank among the roles, zero for no roles at all.
pub open spec fn spec_highest_role(cached: Map<u64, Role>, roles: Seq<u64>) -> int
    decreases roles.len(),
{
    if roles.len() == 0 {
        0
    } else if roles.len() == 1 {
        spec_position(cached, roles[0])
    } else {
        let before = spec_highest_role(cached, roles.drop_last());
        let last = spec_position(cached, roles.last());
        if last >= before {
            last
        } else {
            before
        }
    }
}

/// The highest rank among the roles, zero for no roles at all. A role that is
/// not cached counts as rank zero.
pub fn highest_role(cached: &HashMap<u64, Role>, roles: &[u64]) -> (r: i64)
    ensures
        r == spec_highest_role(cached@, roles@),
{
    let mut best: i64 = 0;
    let mut i: usize = 0;
    assert(roles@.take(0) =~= Seq::<u64>::empty());
    while i < roles.len()
        invariant
            i <= roles.len(),
            best == spec_highest_role(cached@, roles@.take(i as int)),
        decreases roles.len() - i,
    {
        let position: i64 = match cached.get(&roles[i]) {
            Some(role) => role.position,
            None => 0,
        };
        proof {
            let next = roles@.take(i + 1);
            assert(next.drop_last() =~= roles@.take(i as int));
            assert(next.last() == roles@[i as int]);
            assert(position == spec_position(cached@, roles@[i as int]));
        }
        if i == 0 || position >= best {
            best = position;
        }
        i += 1;
    }
    assert(roles@.take(roles.len() as int) =~= roles@);
    best
}

/// A value that may be present, present but empty, or not there at all.
#[derive(Debug)]
pub enum OptionalOption<T> {
    Present(Option<T>),
    Missing,
}

impl<T> Default for OptionalOption<T> {
    fn default() -> (r: Self)
        ensures
            r is Missing,
    {
        OptionalOption::Missing
    }
}

impl<T> OptionalOption<T> {
    /// Reads the outcome of looking for a value: a value that was read is
    /// present, a failed read counts as missing.
    pub fn from_lookup<E>(found: Result<Option<T>, E>) -> (r: Self)
        ensures
            match found {
                Ok(v) => r == OptionalOption::Present(v),
                Err(_) => r is Missing,
            },
    {
        match found {
            Ok(v) => OptionalOption::Present(v),
            Err(_) => OptionalOption::Missing,
        }
    }
}

/// How a prepared answer is delivered.
#[derive(Debug, Clone, Copy, PartialEq, Eq, Structural)]
pub enum Delivery {
    /// As the first response to the interaction.
    Response,
    /// As a follow-up to an interaction that was already acknowledged.
    Followup,
}

/// A small answer to an interaction, prepared before it is sent.
#[derive(Debug)]
pub struct FollowupBuilder {
    title: Option<String>,
    description: Option<String>,
    ephemeral: bool,
}

impl Default for FollowupBuilder {
    /// An answer without title or text, visible to everyone.
    fn default() -> (b: Self)
        ensures
            b.spec_title() is None,
            b.spec_description() is None,
            !b.spec_ephemeral(),
    {
        FollowupBuilder { title: None, description: None, ephemeral: false }
    }
}

impl FollowupBuilder {
    /// The title of the answer, if one was set.
    pub closed spec fn spec_title(&self) -> Option<Seq<char>> {
        match self.title {
            Some(t) => Some(t@),
            None => None,
        }
    }

    /// The text of the answer, if one was set.
    pub closed spec fn spec_description(&self) -> Option<Seq<char>> {
        match self.description {
            Some(t) => Some(t@),
            None => None,
        }
    }

    /// Whether only the person who ran the command sees the answer.
    pub closed spec fn spec_ephemeral(&self) -> bool {
        self.ephemeral
    }

    /// An answer without title or text, visible to everyone.
    pub fn new() -> (b: Self)
        ensures
            b.spec_title() is None,
            b.spec_description() is None,
            !b.spec_ephemeral(),
    {
        Default::default()
    }

    /// Sets the title.
    pub fn title(self, title: &str) -> (b: Self)
        ensures
            b.spec_title() == Some(title@),
            b.spec_description() == self.spec_description(),
            b.spec_ephemeral() == self.spec_ephemeral(),
    {
        let mut b = self;
        b.title = Some(String::from_str(title));
        b
    }

    /// Sets the text.
    pub fn description(self, description: &str) -> (b: Self)
        ensures
            b.spec_title() == self.spec_title(),
            b.spec_description() == Some(description@),
            b.spec_ephemeral() == self.spec_ephemeral(),
    {
        let mut b = self;
        b.description = Some(String::from_str(description));
        b
    }

    /// Makes the answer visible to the person who ran the command only.
    pub fn ephemeral(self) -> (b: Self)
        ensures
            b.spec_title() == self.spec_title(),
            b.spec_description() == self.spec_description(),
            b.spec_ephemeral(),
    {
        let mut b = self;
        b.ephemeral = true;
        b
    }

    /// Says whether the answer is visible to the person who ran the command only.
    pub fn set_ephemeral(self, value: bool) -> (b: Self)
        ensures
            b.spec_title() == self.spec_title(),
            b.spec_description() == self.spec_description(),
            b.spec_ephemeral() == value,
    {
        let mut b = self;
        b.ephemeral = value;
        b
    }

    /// The title, if one was set.
    pub fn get_title(&self) -> (t: Option<&String>)
        ensures
            match t {
                Some(s) => self.spec_title() == Some(s@),
                None => self.spec_title() is None,
            },
    {
        self.title.as_ref()
    }

    /// The text, if one was set.
    pub fn get_description(&self) -> (t: Option<&String>)
        ensures
            match t {
                Some(s) => self.spec_description() == Some(s@),
                None => self.spec_description() is None,
            },
    {
        self.description.as_ref()
    }

    /// Whether the answer is visible to the person who ran the command only.
    pub fn is_ephemeral(&self) -> (e: bool)
        ensures
            e == self.spec_ephemeral(),
    {
        self.ephemeral
    }

    /// How to deliver the answer: as a follow-up where the interaction was
    /// acknowledged before, else as its first response.
    pub fn build_command_somehow(&self, followup: bool) -> (d: Delivery)
        ensures
            d == (if followup {
                Delivery::Followup
            } else {
                Delivery::Response
            }),
    {
        if followup {
            Delivery::Followup
        } else {
            Delivery::Response
        }
    }
}

/// Where a message points to.
#[derive(Debug, Clone, Copy, PartialEq, Eq, Structural)]
pub struct MessageReference {
    pub guild_id: Option<u64>,
    pub channel_id: u64,
    pub message_id: Option<u64>,
}

/// The address of a channel in a guild.
pub open spec fn spec_channel_link(guild: u64, channel: u64) -> Seq<char> {
    "https://discord.com/channels/"@ + spec_decimal(guild as nat) + "/"@ + spec_decimal(
        channel as nat,
    )
}

/// The address of a message in a channel of a guild.
pub open spec fn spec_message_link(guild: u64, channel: u64, message: u64) -> Seq<char> {
    spec_channel_link(guild, channel) + "/"@ + spec_decimal(message as nat)
}

/// The address of a channel in a guild.
pub fn channel_link(guild: u64, channel: u64) -> (s: String)
    ensures
        s@ == spec_channel_link(guild, channel),
{
    let mut s = String::from_str("https://discord.com/channels/");
    push_decimal(&mut s, guild);
    s.append("/");
    push_decimal(&mut s, channel);
    s
}

/// Things that have an address where enough is known about them.
pub trait TryLink {
    /// The address, if there is one.
    spec fn spec_try_link(&self) -> Option<Seq<char>>;

    /// The address, if there is one.
    fn try_link(&self) -> (r: Option<String>)
        ensures
            match r {
                Some(s) => self.spec_try_link() == Some(s@),
                None => self.spec_try_link() is None,
            },
    ;
}

impl TryLink for MessageReference {
    open spec fn spec_try_link(&self) -> Option<Seq<char>> {
        match self.guild_id {
            Some(guild) => match self.message_id {
                Some(message) => Some(spec_message_link(guild, self.channel_id, message)),
                None => Some(spec_channel_link(guild, self.channel_id)),
            },
            None => None,
        }
    }

    fn try_link(&self) -> (r: Option<String>) {
        match self.guild_id {
            Some(guild) => {
                let mut s = channel_link(guild, self.channel_id);
                if let Some(message) = self.message_id {
                    s.append("/");
                    push_decimal(&mut s, message);
                }
                Some(s)
            },
            None => None,
        }
    }
}

/// Things that have an address.
pub trait Link {
    /// Whether the address can be given.
    spec fn has_link(&self) -> bool;

    /// The address.
    spec fn spec_link(&self) -> Seq<char>;

    /// The address.
    fn link(&self) -> (s: String)
        requires
            self.has_link(),
        ensures
            s@ == self.spec_link(),
    ;
}

impl<T: TryLink> Link for T {
    open spec fn has_link(&self) -> bool {
        self.spec_try_link() is Some
    }

    open spec fn spec_link(&self) -> Seq<char> {
        self.spec_try_link()->0
    }

    fn link(&self) -> (s: String) {
        self.try_link().unwrap()
    }
}

impl Link for (u64, u64) {
    open spec fn has_link(&self) -> bool {
        true
    }

    open spec fn spec_link(&self) -> Seq<char> {
        spec_channel_link(self.0, self.1)
    }

    fn link(&self) -> (s: String) {
        channel_link(self.0, self.1)
    }
}

/// The text that mentions a user.
pub open spec fn spec_mention_user(id: u64) -> Seq<char> {
    "<@"@ + spec_decimal(id as nat) + ">"@
}

/// The text that mentions a role.
pub open spec fn spec_mention_role(id: u64) -> Seq<char> {
    "<@&"@ + spec_decimal(id as nat) + ">"@
}

/// The text that mentions a channel.
pub open spec fn spec_mention_channel(id: u64) -> Seq<char> {
    "<#"@ + spec_decimal(id as nat) + ">"@
}

/// The text that mentions a user.
pub fn mention_user(id: u64) -> (s: String)
    ensures
        s@ == spec_mention_user(id),
{
    let mut s = String::from_str("<@");
    push_decimal(&mut s, id);
    s.append(">");
    s
}

/// The text that mentions a role.
pub fn mention_role(id: u64) -> (s: String)
    ensures
        s@ == spec_mention_role(id),
{
    let mut s = String::from_str("<@&");
    push_decimal(&mut s, id);
    s.append(">");
    s
}

/// The text that mentions a channel.
pub fn mention_channel(id: u64) -> (s: String)
    ensures
        s@ == spec_mention_channel(id),
{
    let mut s = String::from_str("<#");
    push_decimal(&mut s, id);
    s.append(">");
    s
}

/// The native permission to see a channel.
pub const VIEW_CHANNEL: u64 = 0x400;

/// What is read of a channel when a link into a guild is made.
#[derive(Debug)]
pub struct ChannelFacts {
    pub id: u64,
    /// Whether it is a text-like channel of the guild.
    pub guild_channel: bool,
    /// What each permission overwrite of the channel denies.
    pub denies: Vec<u64>,
}

/// Whether everyone can see the channel: it is a channel of the guild and no
/// overwrite denies seeing it.
pub open spec fn open_to_all(c: ChannelFacts) -> bool {
    c.guild_channel && forall|i: int|
        0 <= i < c.denies@.len() ==> (#[trigger] c.denies@[i]) & VIEW_CHANNEL != VIEW_CHANNEL
}

/// The first channel, in the order given, that everyone can see.
pub open spec fn spec_first_open(channels: Seq<ChannelFacts>) -> Option<u64>
    decreases channels.len(),
{
    if channels.len() == 0 {
        None
    } else if open_to_all(channels[0]) {
        Some(channels[0].id)
    } else {
        spec_first_open(channels.drop_first())
    }
}

/// The channel that a link into a guild leads to: the rules channel where
/// the guild has one, else the first channel that everyone can see, else the
/// channel given as a hint.
pub open spec fn spec_link_channel(
    rules_channel: Option<u64>,
    channels: Seq<ChannelFacts>,
    hint: u64,
) -> u64 {
    match rules_channel {
        Some(c) => c,
        None => match spec_first_open(channels) {
            Some(c) => c,
            None => hint,
        },
    }
}

fn is_open(c: &ChannelFacts) -> (r: bool)
    ensures
        r == open_to_all(*c),
{
    if !c.guild_channel {
        return false;
    }
    let mut i: usize = 0;
    while i < c.denies.len()
        invariant
            i <= c.denies.len(),
            forall|j: int| 0 <= j < i ==> (#[trigger] c.denies@[j]) & VIEW_CHANNEL != VIEW_CHANNEL,
        decreases c.denies.len() - i,
    {
        if (c.denies[i] & VIEW_CHANNEL) == VIEW_CHANNEL {
            return false;
        }
        i += 1;
    }
    true
}

fn first_open(channels: &Vec<ChannelFacts>) -> (r: Option<u64>)
    ensures
        r == spec_first_open(channels@),
{
    let mut i: usize = 0;
    assert(channels@.skip(0) =~= channels@);
    while i < channels.len()
        invariant
            i <= channels.len(),
            spec_first_open(channels@) == spec_first_open(channels@.skip(i as int)),
        decreases channels.len() - i,
    {
        let ghost rest = channels@.skip(i as int);
        assert(rest[0] == channels@[i as int]);
        assert(rest.drop_first() =~= channels@.skip(i + 1));
        if is_open(&channels[i]) {
            return Some(channels[i].id);
        }
        i += 1;
    }
    None
}

/// A link into a guild under the name of the guild. The channels are looked
/// at in the order given; they are not looked at where the guild has a rules
/// channel.
pub fn link_guild(
    name: &str,
    guild: u64,
    rules_channel: Option<u64>,
    channels: &Vec<ChannelFacts>,
    hint: u64,
) -> (s: String)
    ensures
        s@ == "["@ + name@ + "]("@ + spec_channel_link(
            guild,
            spec_link_channel(rules_channel, channels@, hint),
        ) + ")"@,
{
    let channel = match rules_channel {
        Some(c) => c,
        None => match first_open(channels) {
            Some(c) => c,
            None => hint,
        },
    };
    let mut s = String::from_str("[");
    s.append(name);
    s.append("](");
    s.append(channel_link(guild, channel).as_str());
    s.append(")");
    s
}

} // verus!

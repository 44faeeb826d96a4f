//! The commands that change and show the preview settings of a guild.

use vstd::prelude::*;
use crate::decode::{spec_get_channel, spec_get_string, SlashMap, SlashValue};
use crate::error::{BotError, BotErrorView, CommandError, CommandErrorView};
use crate::permission_commands::agrees;
use crate::permissions::{covers, Role, ADMINISTRATOR};
use crate::previews::{
    spec_channel_list, spec_channel_row, spec_first_match, spec_insert_new, spec_parse_capture,
    ArchiveWrite, ChannelRow, MessageLink, PreviewsModule,
};
use crate::sorted::spec_remove;
use crate::sql::spec_to_sql;
use crate::text::{push_decimal, spec_decimal};

verus! {

/// The guild and the channel that `previews add` and `previews remove` are
/// about.
pub open spec fn spec_target_args(guild_id: Option<u64>, args: Map<Seq<char>, SlashValue>) -> Result<
    (u64, u64),
    CommandErrorView,
> {
    match spec_get_channel(args, "target"@) {
        Err(e) => Err(CommandErrorView::Decode(e)),
        Ok(target) => match guild_id {
            None => Err(CommandErrorView::Bot(BotErrorView::GuildOnly)),
            Some(guild) => Ok((guild, target.id)),
        },
    }
}

/// Reads the guild and the channel that a command is about.
pub fn read_target_args(guild_id: Option<u64>, args: &SlashMap) -> (r: Result<
    (u64, u64),
    CommandError,
>)
    requires
        args.wf(),
    ensures
        agrees(r, spec_target_args(guild_id, args@)),
{
    let target = match args.get_channel("target") {
        Ok(t) => t,
        Err(e) => {
            return Err(CommandError::Decode(e));
        },
    };
    match guild_id {
        None => Err(CommandError::Bot(BotError::GuildOnly)),
        Some(guild) => Ok((guild, target.id)),
    }
}

/// The line under an archived message that names who asked for it.
pub fn requested_by(name: &str, discriminator: u16) -> (s: String)
    ensures
        s@ == "Requested by "@ + name@ + "#"@ + spec_decimal(discriminator as nat),
{
    let mut s = String::from_str("Requested by ");
    s.append(name);
    s.append("#");
    push_decimal(&mut s, discriminator as u64);
    s
}

impl PreviewsModule {
    /// Whether the two registries hold the same settings for every guild.
    pub open spec fn same_settings(&self, other: &PreviewsModule) -> bool {
        forall|g: u64|
            self.channels_at(g) == other.channels_at(g) && self.archive_at(g) == other.archive_at(
                g,
            )
    }

    /// `previews add`: starts scanning the target channel. The row to insert
    /// into the durable table is returned.
    pub fn previews_add(&mut self, guild_id: Option<u64>, args: &SlashMap) -> (r: Result<
        ChannelRow,
        CommandError,
    >)
        requires
            old(self).wf(),
            args.wf(),
        ensures
            final(self).wf(),
            match spec_target_args(guild_id, args@) {
                Err(e) => r matches Err(err) && err@ == e && final(self).cache()@ == old(self).cache()@,
                Ok((guild, target)) => {
                    &&& final(self).channels_at(guild) == spec_insert_new(
                        old(self).channels_at(guild),
                        target,
                    )
                    &&& final(self).archive_at(guild) == old(self).archive_at(guild)
                    &&& final(self).same_but(old(self), guild)
                    &&& final(self).touched(old(self), guild)
                    &&& if old(self).channels_at(guild).contains(target) {
                        r matches Err(err) && err@ == CommandErrorView::Bot(
                            BotErrorView::Generic("Channel already added"@),
                        )
                    } else {
                        r matches Ok(row) && row == spec_channel_row(guild, target)
                    }
                },
            },
    {
        let (guild, target) = match read_target_args(guild_id, args) {
            Ok(found) => found,
            Err(e) => {
                return Err(e);
            },
        };
        match self.add_channel(guild, target) {
            Ok(row) => Ok(row),
            Err(e) => Err(CommandError::Bot(e)),
        }
    }

    /// `previews remove`: stops scanning the target channel. The row to
    /// delete from the durable table is returned.
    pub fn previews_remove(&mut self, guild_id: Option<u64>, args: &SlashMap) -> (r: Result<
        ChannelRow,
        CommandError,
    >)
        requires
            old(self).wf(),
            args.wf(),
        ensures
            final(self).wf(),
            match spec_target_args(guild_id, args@) {
                Err(e) => r matches Err(err) && err@ == e && final(self).cache()@ == old(self).cache()@,
                Ok((guild, target)) => {
                    &&& final(self).channels_at(guild) == spec_remove(
                        old(self).channels_at(guild),
                        target,
                    )
                    &&& final(self).archive_at(guild) == old(self).archive_at(guild)
                    &&& final(self).same_but(old(self), guild)
                    &&& final(self).touched(old(self), guild)
                    &&& if old(self).channels_at(guild).contains(target) {
                        r matches Ok(row) && row == spec_channel_row(guild, target)
                    } else {
                        r matches Err(err) && err@ == CommandErrorView::Bot(
                            BotErrorView::Generic("Channel not in previews"@),
                        )
                    }
                },
            },
    {
        let (guild, target) = match read_target_args(guild_id, args) {
            Ok(found) => found,
            Err(e) => {
                return Err(e);
            },
        };
        match self.remove_channel(guild, target) {
            Ok(row) => Ok(row),
            Err(e) => Err(CommandError::Bot(e)),
        }
    }

    /// `previews list`: the text that lists the scanned channels.
    pub fn previews_list(&mut self, guild_id: Option<u64>) -> (r: Result<String, BotError>)
        requires
            old(self).wf(),
        ensures
            final(self).wf(),
            final(self).same_settings(old(self)),
            match guild_id {
                None => r matches Err(e) && e == BotError::GuildOnly && final(self).cache()@ == old(
                    self,
                ).cache()@,
                Some(guild) => r matches Ok(text) && text@ == spec_channel_list(
                    old(self).channels_at(guild),
                ) && final(self).populated(old(self), guild),
            },
    {
        match guild_id {
            None => Err(BotError::GuildOnly),
            Some(guild) => Ok(self.channel_list(guild)),
        }
    }

    /// `previews view`: the message that the link given as target points to.
    pub fn previews_view(args: &SlashMap) -> (r: Result<MessageLink, CommandError>)
        requires
            args.wf(),
        ensures
            match spec_get_string(args@, "target"@) {
                Err(e) => r matches Err(err) && err@ == CommandErrorView::Decode(e),
                Ok(target) => match spec_first_match(target) {
                    None => r matches Err(err) && err@ == CommandErrorView::Bot(
                        BotErrorView::Generic("Malformed link"@),
                    ),
                    Some(groups) => match spec_parse_capture(groups, 6) {
                        Ok(link) => r matches Ok(found) && found == link,
                        Err(code) => r matches Err(err) && err@ == CommandErrorView::Bot(
                            BotErrorView::Internal(code),
                        ),
                    },
                },
            },
    {
        let target = match args.get_string("target") {
            Ok(t) => t,
            Err(e) => {
                return Err(CommandError::Decode(e));
            },
        };
        match Self::view_link(target.as_str()) {
            Ok(link) => Ok(link),
            Err(e) => Err(CommandError::Bot(e)),
        }
    }

    /// `previews archive`: sets the archive channel to the target, or clears
    /// it where no channel is given. Says what to write to the durable table.
    pub fn previews_archive(&mut self, guild_id: u64, args: &SlashMap) -> (write: ArchiveWrite)
        requires
            old(self).wf(),
            args.wf(),
        ensures
            final(self).wf(),
            final(self).channels_at(guild_id) == old(self).channels_at(guild_id),
            final(self).same_but(old(self), guild_id),
            final(self).touched(old(self), guild_id),
            match spec_get_channel(args@, "target"@) {
                Ok(target) => final(self).archive_at(guild_id) == Some(target.id) && write
                    == ArchiveWrite::Upsert(spec_channel_row(guild_id, target.id)),
                Err(_) => final(self).archive_at(guild_id) is None && write
                    == (ArchiveWrite::Delete { guild_id: spec_to_sql(guild_id) }),
            },
    {
        let from = match args.get_channel("target") {
            Ok(c) => Some(c.id),
            Err(_) => None,
        };
        self.update_archive(from, guild_id)
    }

    /// The archive command of the context menu: the channel that the
    /// archived message goes to.
    pub fn previews_archive_context(&mut self, guild_id: u64) -> (r: Result<u64, BotError>)
        requires
            old(self).wf(),
        ensures
            final(self).wf(),
            final(self).same_settings(old(self)),
            final(self).populated(old(self), guild_id),
            match r {
                Ok(channel) => old(self).archive_at(guild_id) == Some(channel),
                Err(e) => old(self).archive_at(guild_id) is None && e.is_generic(
                    "Archive channel not set"@,
                ),
            },
    {
        self.archive_channel(guild_id)
    }
}

/// The native permission to read the history of a channel.
pub const READ_MESSAGE_HISTORY: u64 = 0x1_0000;

/// What the snapshot of a guild says about an id that should be a channel.
#[derive(Debug, Clone, Copy, PartialEq, Eq, Structural)]
pub enum ChannelLookup {
    /// A text-like channel of the guild.
    GuildChannel,
    /// Something else among the channels, such as a category.
    OtherChannel,
    /// Not among the channels, but a thread of the guild.
    Thread,
    /// Neither a channel nor a thread that the snapshot holds.
    Unknown,
}

/// What is known when somebody asks to see a message of a guild. Each part is
/// looked at only where the parts before it let the request go on.
#[derive(Debug)]
pub struct PreviewRequest {
    /// Whether the snapshot holds the guild of the message.
    pub guild_known: bool,
    /// Whether the person is a member of that guild.
    pub member_found: bool,
    /// The roles of the member, where the snapshot holds them.
    pub roles: Option<Vec<Role>>,
    /// What the snapshot says about the channel of the message.
    pub channel: ChannelLookup,
    /// The permissions of the member in that channel; nothing where working
    /// them out failed, with the text of the failure given separately.
    pub channel_permissions: Option<u64>,
}

/// Whether one of the roles carries the native permission "Administrator".
pub open spec fn any_administrator(roles: Seq<Role>) -> bool {
    exists|i: int| 0 <= i < roles.len() && covers((#[trigger] roles[i]).permissions, ADMINISTRATOR)
}

/// Whether the person may see the message, or why not.
pub open spec fn spec_preview_access(req: PreviewRequest, failure: Seq<char>) -> Result<
    (),
    CommandErrorView,
> {
    if !req.guild_known {
        Err(CommandErrorView::Bot(BotErrorView::NotFound("Server"@)))
    } else if !req.member_found {
        Err(
            CommandErrorView::Bot(
                BotErrorView::Generic("You must be in a server to preview messages from it"@),
            ),
        )
    } else if req.roles is None {
        Err(CommandErrorView::Bot(BotErrorView::CacheMissing))
    } else if any_administrator(req.roles->0@) {
        Ok(())
    } else if req.channel == ChannelLookup::OtherChannel {
        Err(CommandErrorView::Bot(BotErrorView::NotFound("Channel"@)))
    } else if req.channel == ChannelLookup::Unknown {
        Err(CommandErrorView::Bot(BotErrorView::CacheMissing))
    } else if req.channel_permissions is None {
        Err(CommandErrorView::Other(failure))
    } else if covers(req.channel_permissions->0, READ_MESSAGE_HISTORY) {
        Ok(())
    } else {
        Err(
            CommandErrorView::Bot(
                BotErrorView::Generic("You do not have permission to view this message"@),
            ),
        )
    }
}

fn has_administrator(roles: &Vec<Role>) -> (r: bool)
    ensures
        r == any_administrator(roles@),
{
    let mut i: usize = 0;
    while i < roles.len()
        invariant
            i <= roles.len(),
            forall|j: int| 0 <= j < i ==> !covers((#[trigger] roles@[j]).permissions, ADMINISTRATOR),
        decreases roles.len() - i,
    {
        if (roles[i].permissions & ADMINISTRATOR) == ADMINISTRATOR {
            return true;
        }
        i += 1;
    }
    false
}

/// Decides whether a person may see a message of a guild: the guild must be
/// known and the person a member of it; an administrator sees everything,
/// anyone else needs the permission to read the history of the channel.
/// `failure` is the text with which working out the channel permissions
/// failed, where it did.
pub fn preview_access(req: &PreviewRequest, failure: &str) -> (r: Result<(), CommandError>)
    ensures
        agrees(r, spec_preview_access(*req, failure@)),
{
    if !req.guild_known {
        return Err(CommandError::Bot(BotError::NotFound(String::from_str("Server"))));
    }
    if !req.member_found {
        return Err(
            CommandError::Bot(
                BotError::Generic(
                    String::from_str("You must be in a server to preview messages from it"),
                ),
            ),
        );
    }
    let roles = match &req.roles {
        Some(roles) => roles,
        None => {
            return Err(CommandError::Bot(BotError::CacheMissing));
        },
    };
    if has_administrator(roles) {
        return Ok(());
    }
    match req.channel {
        ChannelLookup::OtherChannel => {
            return Err(CommandError::Bot(BotError::NotFound(String::from_str("Channel"))));
        },
        ChannelLookup::Unknown => {
            return Err(CommandError::Bot(BotError::CacheMissing));
        },
        _ => {},
    }
    let held = match req.channel_permissions {
        Some(bits) => bits,
        None => {
            return Err(CommandError::Other(String::from_str(failure)));
        },
    };
    if (held & READ_MESSAGE_HISTORY) == READ_MESSAGE_HISTORY {
        Ok(())
    } else {
        Err(
            CommandError::Bot(
                BotError::Generic(String::from_str("You do not have permission to view this message")),
            ),
        )
    }
}

/// The text of the failure to fetch the message itself.
pub fn message_not_found() -> (e: BotError)
    ensures
        e.is_not_found("Message"@),
{
    BotError::NotFound(String::from_str("Message"))
}

/// Whether the embed of a message names the guild it is from: only where the
/// message is shown in another guild than its own.
pub fn shown_elsewhere(from_guild: Option<u64>, guild: u64) -> (foreign: bool)
    ensures
        foreign == (from_guild matches Some(g) && g != guild),
{
    match from_guild {
        Some(g) => g != guild,
        None => false,
    }
}

} // verus!

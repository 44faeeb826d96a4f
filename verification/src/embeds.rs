//! How a message is shown when it is previewed somewhere else.
//!
//! What is read of the message is handed in as plain values; what comes out
//! is a plan of the embed: its text, its author line, its fields.

use vstd::prelude::*;
use crate::text::{push_decimal, spec_decimal};
use crate::utils::{
    mention_channel, mention_user, spec_channel_link, spec_mention_channel, spec_mention_user,
    spec_message_link, Link, MessageReference, TryLink,
};

verus! {

/// The kinds of message.
#[derive(Debug, Clone, Copy, PartialEq, Eq, Structural)]
pub enum MessageKind {
    Regular,
    GroupRecipientAddition,
    GroupRecipientRemoval,
    GroupCallCreation,
    GroupNameUpdate,
    GroupIconUpdate,
    PinsAdd,
    MemberJoin,
    NitroBoost,
    NitroTier1,
    NitroTier2,
    NitroTier3,
    ChannelFollowAdd,
    GuildDiscoveryDisqualified,
    GuildDiscoveryRequalified,
    GuildDiscoveryGracePeriodInitialWarning,
    GuildDiscoveryGracePeriodFinalWarning,
    ThreadCreated,
    InlineReply,
    ChatInputCommand,
    ThreadStarterMessage,
    GuildInviteReminder,
    ContextMenuCommand,
    AutoModerationAction,
    Unknown,
}

/// The message was published to the channels that follow its channel.
pub const CROSSPOSTED: u64 = 0x1;

/// The message came from a channel that this channel follows.
pub const IS_CROSSPOST: u64 = 0x2;

/// The message that this one was published from is deleted.
pub const SOURCE_MESSAGE_DELETED: u64 = 0x8;

/// The message has a thread.
pub const HAS_THREAD: u64 = 0x20;

/// The message is an answer that is still being worked out.
pub const LOADING: u64 = 0x80;

/// The user who is told about messages that should not be there.
pub const REPORT_TO: u64 = 719046554744520754;

/// An empty-looking text: one character without width.
pub const BLANK: &'static str = "\u{200B}";

/// What is read of the author of a message.
#[derive(Debug)]
pub struct AuthorFacts {
    pub id: u64,
    pub name: String,
    pub discriminator: u16,
    /// The address of the picture of the author.
    pub icon_url: String,
}

/// What is read of a message to show it somewhere else.
#[derive(Debug)]
pub struct MessageFacts {
    pub kind: MessageKind,
    /// The flags of the message, none where it has none.
    pub flags: Option<u64>,
    pub id: u64,
    pub channel_id: u64,
    pub guild_id: Option<u64>,
    pub author: AuthorFacts,
    pub content: String,
    /// The moment at which it was sent, in seconds since the epoch.
    pub timestamp: i64,
    /// The message that it points to, where it points to one.
    pub reference: Option<MessageReference>,
    /// The address of the message that it answers, where it answers one.
    pub reply_link: Option<String>,
    /// The link to its guild, where it is shown in another guild.
    pub foreign_link: Option<String>,
    /// The name of the guild that it points to, where the snapshot holds it.
    pub referenced_guild_name: Option<String>,
    /// Whether the snapshot holds the thread that it points to.
    pub thread_known: bool,
}

/// The author line of an embed.
#[derive(Debug)]
pub struct AuthorPlan {
    pub name: String,
    pub url: String,
    pub icon_url: String,
}

/// One field of an embed. Every field of a preview stands beside the others.
#[derive(Debug)]
pub struct FieldPlan {
    pub name: &'static str,
    pub value: String,
    pub inline: bool,
}

/// The plan of an embed.
#[derive(Debug)]
pub struct EmbedPlan {
    pub description: String,
    pub author: Option<AuthorPlan>,
    pub fields: Vec<FieldPlan>,
    /// Whether the embed carries the moment at which the message was sent.
    pub timestamp: bool,
    /// The text to send to [`REPORT_TO`], where the message is of a kind that
    /// should never be seen.
    pub report: Option<String>,
}

impl MessageKind {
    /// The name of the kind.
    pub open spec fn spec_name(&self) -> Seq<char> {
        match self {
            MessageKind::Regular => "Regular"@,
            MessageKind::GroupRecipientAddition => "GroupRecipientAddition"@,
            MessageKind::GroupRecipientRemoval => "GroupRecipientRemoval"@,
            MessageKind::GroupCallCreation => "GroupCallCreation"@,
            MessageKind::GroupNameUpdate => "GroupNameUpdate"@,
            MessageKind::GroupIconUpdate => "GroupIconUpdate"@,
            MessageKind::PinsAdd => "PinsAdd"@,
            MessageKind::MemberJoin => "MemberJoin"@,
            MessageKind::NitroBoost => "NitroBoost"@,
            MessageKind::NitroTier1 => "NitroTier1"@,
            MessageKind::NitroTier2 => "NitroTier2"@,
            MessageKind::NitroTier3 => "NitroTier3"@,
            MessageKind::ChannelFollowAdd => "ChannelFollowAdd"@,
            MessageKind::GuildDiscoveryDisqualified => "GuildDiscoveryDisqualified"@,
            MessageKind::GuildDiscoveryRequalified => "GuildDiscoveryRequalified"@,
            MessageKind::GuildDiscoveryGracePeriodInitialWarning => "GuildDiscoveryGracePeriodInitialWarning"@,
            MessageKind::GuildDiscoveryGracePeriodFinalWarning => "GuildDiscoveryGracePeriodFinalWarning"@,
            MessageKind::ThreadCreated => "ThreadCreated"@,
            MessageKind::InlineReply => "InlineReply"@,
            MessageKind::ChatInputCommand => "ChatInputCommand"@,
            MessageKind::ThreadStarterMessage => "ThreadStarterMessage"@,
            MessageKind::GuildInviteReminder => "GuildInviteReminder"@,
            MessageKind::ContextMenuCommand => "ContextMenuCommand"@,
            MessageKind::AutoModerationAction => "AutoModerationAction"@,
            MessageKind::Unknown => "Unknown"@,
        }
    }

    /// The name of the kind.
    pub fn name(&self) -> (s: &'static str)
        ensures
            s@ == self.spec_name(),
    {
        match self {
            MessageKind::Regular => "Regular",
            MessageKind::GroupRecipientAddition => "GroupRecipientAddition",
            MessageKind::GroupRecipientRemoval => "GroupRecipientRemoval",
            MessageKind::GroupCallCreation => "GroupCallCreation",
            MessageKind::GroupNameUpdate => "GroupNameUpdate",
            MessageKind::GroupIconUpdate => "GroupIconUpdate",
            MessageKind::PinsAdd => "PinsAdd",
            MessageKind::MemberJoin => "MemberJoin",
            MessageKind::NitroBoost => "NitroBoost",
            MessageKind::NitroTier1 => "NitroTier1",
            MessageKind::NitroTier2 => "NitroTier2",
            MessageKind::NitroTier3 => "NitroTier3",
            MessageKind::ChannelFollowAdd => "ChannelFollowAdd",
            MessageKind::GuildDiscoveryDisqualified => "GuildDiscoveryDisqualified",
            MessageKind::GuildDiscoveryRequalified => "GuildDiscoveryRequalified",
            MessageKind::GuildDiscoveryGracePeriodInitialWarning => "GuildDiscoveryGracePeriodInitialWarning",
            MessageKind::GuildDiscoveryGracePeriodFinalWarning => "GuildDiscoveryGracePeriodFinalWarning",
            MessageKind::ThreadCreated => "ThreadCreated",
            MessageKind::InlineReply => "InlineReply",
            MessageKind::ChatInputCommand => "ChatInputCommand",
            MessageKind::ThreadStarterMessage => "ThreadStarterMessage",
            MessageKind::GuildInviteReminder => "GuildInviteReminder",
            MessageKind::ContextMenuCommand => "ContextMenuCommand",
            MessageKind::AutoModerationAction => "AutoModerationAction",
            MessageKind::Unknown => "Unknown",
        }
    }

    /// A message of a group chat, which the bot should never see.
    pub open spec fn is_group(&self) -> bool {
        ||| self is GroupRecipientAddition
        ||| self is GroupRecipientRemoval
        ||| self is GroupCallCreation
        ||| self is GroupNameUpdate
        ||| self is GroupIconUpdate
    }

    /// A kind of message that cannot be shown.
    pub open spec fn is_unsupported(&self) -> bool {
        ||| self is Unknown
        ||| self is GuildInviteReminder
        ||| self is GuildDiscoveryGracePeriodInitialWarning
        ||| self is GuildDiscoveryGracePeriodFinalWarning
        ||| self is ThreadStarterMessage
        ||| self is ContextMenuCommand
    }

    /// A kind of message that is shown with its author.
    pub open spec fn has_author(&self) -> bool {
        ||| self is Regular
        ||| self is PinsAdd
        ||| self.is_nitro()
        ||| self is MemberJoin
        ||| self is ChannelFollowAdd
        ||| self is ThreadCreated
        ||| self is InlineReply
        ||| self is ChatInputCommand
    }

    /// A message that somebody wrote.
    pub open spec fn is_standard(&self) -> bool {
        self is Regular || self is InlineReply || self is ChatInputCommand
    }

    /// A message about a boost of the guild.
    pub open spec fn is_nitro(&self) -> bool {
        self is NitroBoost || self is NitroTier1 || self is NitroTier2 || self is NitroTier3
    }

    /// A kind of message that is shown with the moment at which it was sent.
    pub open spec fn has_timestamp(&self) -> bool {
        ||| self is Regular
        ||| self is InlineReply
        ||| self.is_nitro()
        ||| self is PinsAdd
        ||| self is ChannelFollowAdd
        ||| self is ThreadCreated
    }

    fn group(&self) -> (r: bool)
        ensures
            r == self.is_group(),
    {
        matches!(
            self,
            MessageKind::GroupRecipientAddition | MessageKind::GroupRecipientRemoval
                | MessageKind::GroupCallCreation | MessageKind::GroupNameUpdate
                | MessageKind::GroupIconUpdate
        )
    }

    fn unsupported(&self) -> (r: bool)
        ensures
            r == self.is_unsupported(),
    {
        matches!(
            self,
            MessageKind::Unknown | MessageKind::GuildInviteReminder
                | MessageKind::GuildDiscoveryGracePeriodInitialWarning
                | MessageKind::GuildDiscoveryGracePeriodFinalWarning
                | MessageKind::ThreadStarterMessage | MessageKind::ContextMenuCommand
        )
    }

    fn nitro(&self) -> (r: bool)
        ensures
            r == self.is_nitro(),
    {
        matches!(
            self,
            MessageKind::NitroBoost | MessageKind::NitroTier1 | MessageKind::NitroTier2
                | MessageKind::NitroTier3
        )
    }

    fn standard(&self) -> (r: bool)
        ensures
            r == self.is_standard(),
    {
        matches!(
            self,
            MessageKind::Regular | MessageKind::InlineReply | MessageKind::ChatInputCommand
        )
    }

    fn author_shown(&self) -> (r: bool)
        ensures
            r == self.has_author(),
    {
        self.standard() || self.nitro() || matches!(
            self,
            MessageKind::PinsAdd | MessageKind::MemberJoin | MessageKind::ChannelFollowAdd
                | MessageKind::ThreadCreated
        )
    }

    fn timestamp_shown(&self) -> (r: bool)
        ensures
            r == self.has_timestamp(),
    {
        self.nitro() || matches!(
            self,
            MessageKind::Regular | MessageKind::InlineReply | MessageKind::PinsAdd
                | MessageKind::ChannelFollowAdd | MessageKind::ThreadCreated
        )
    }
}

/// Whether the flags hold the given one.
pub open spec fn flagged(flags: Option<u64>, flag: u64) -> bool {
    match flags {
        Some(bits) => bits & flag == flag,
        None => false,
    }
}

fn has_flag(flags: Option<u64>, flag: u64) -> (r: bool)
    ensures
        r == flagged(flags, flag),
{
    match flags {
        Some(bits) => (bits & flag) == flag,
        None => false,
    }
}

/// A number written with at least four digits.
pub open spec fn spec_padded(n: u16) -> Seq<char> {
    if n < 10 {
        "000"@ + spec_decimal(n as nat)
    } else if n < 100 {
        "00"@ + spec_decimal(n as nat)
    } else if n < 1000 {
        "0"@ + spec_decimal(n as nat)
    } else {
        spec_decimal(n as nat)
    }
}

/// The name under which an author is shown: the name alone where there is no
/// discriminator, else the name and the discriminator in four digits.
pub open spec fn spec_author_name(a: AuthorFacts) -> Seq<char> {
    if a.discriminator == 0 {
        a.name@
    } else {
        a.name@ + "#"@ + spec_padded(a.discriminator)
    }
}

/// The name under which an author is shown.
pub fn author_name(a: &AuthorFacts) -> (s: String)
    ensures
        s@ == spec_author_name(*a),
{
    if a.discriminator == 0 {
        a.name.clone()
    } else {
        let mut s = a.name.clone();
        s.append("#");
        if a.discriminator < 10 {
            s.append("000");
        } else if a.discriminator < 100 {
            s.append("00");
        } else if a.discriminator < 1000 {
            s.append("0");
        }
        push_decimal(&mut s, a.discriminator as u64);
        s
    }
}

/// The address of a message: in its guild, or among the direct messages.
pub open spec fn spec_link_of(guild: Option<u64>, channel: u64, message: u64) -> Seq<char> {
    match guild {
        Some(g) => spec_message_link(g, channel, message),
        None => "https://discord.com/channels/@me/"@ + spec_decimal(channel as nat) + "/"@
            + spec_decimal(message as nat),
    }
}

/// The address of a message: in its guild, or among the direct messages.
pub fn link_of(guild: Option<u64>, channel: u64, message: u64) -> (s: String)
    ensures
        s@ == spec_link_of(guild, channel, message),
{
    match guild {
        Some(g) => {
            let mut s = String::from_str("https://discord.com/channels/");
            push_decimal(&mut s, g);
            s.append("/");
            push_decimal(&mut s, channel);
            s.append("/");
            push_decimal(&mut s, message);
            s
        },
        None => {
            let mut s = String::from_str("https://discord.com/channels/@me/");
            push_decimal(&mut s, channel);
            s.append("/");
            push_decimal(&mut s, message);
            s
        },
    }
}

impl MessageFacts {
    /// Whether the message is cut short: it is of a kind that is reported
    /// and not shown.
    pub open spec fn cut_short(&self) -> bool {
        self.kind.is_group() || self.kind.is_unsupported()
    }

    /// Whether the message that this one points to is read.
    pub open spec fn reads_reference(&self) -> bool {
        ||| self.kind.has_author() && flagged(self.flags, IS_CROSSPOST)
        ||| self.kind is PinsAdd
        ||| self.kind is ChannelFollowAdd
        ||| self.kind is ThreadCreated
        ||| flagged(self.flags, IS_CROSSPOST) && !flagged(self.flags, SOURCE_MESSAGE_DELETED)
    }

    /// Whether the guild of the message that this one points to is read.
    pub open spec fn reads_reference_guild(&self) -> bool {
        ||| self.kind.has_author() && flagged(self.flags, IS_CROSSPOST)
        ||| self.kind is ChannelFollowAdd
        ||| flagged(self.flags, IS_CROSSPOST) && !flagged(self.flags, SOURCE_MESSAGE_DELETED)
    }

    /// What must hold of a message for it to be shown: what is read of the
    /// message that it points to is there.
    pub open spec fn wf(&self) -> bool {
        self.cut_short() || {
            &&& self.reads_reference() ==> self.reference is Some
            &&& self.reads_reference_guild() ==> self.reference->0.guild_id is Some
            &&& self.kind is PinsAdd ==> self.reference->0.message_id is Some
        }
    }

    /// The link to the guild of the message with a blank in front; nothing
    /// where the message is shown in its own guild.
    pub open spec fn spec_foreign(&self) -> Seq<char> {
        match self.foreign_link {
            Some(link) => " "@ + link@,
            None => Seq::<char>::empty(),
        }
    }

    /// The text sent to [`REPORT_TO`] about a message that is cut short.
    pub open spec fn spec_report(&self) -> Seq<char> {
        "type "@ + self.kind.spec_name() + " spotted: "@ + spec_link_of(
            self.guild_id,
            self.channel_id,
            self.id,
        )
    }

    /// The text of a message that somebody wrote: its content, and under it
    /// the link to the message that it answers.
    pub open spec fn spec_standard_text(&self) -> Seq<char> {
        match self.reply_link {
            Some(link) => self.content@ + "\n[Reply to]("@ + link@ + ")"@,
            None => self.content@,
        }
    }

    /// The text about a boost of the guild.
    pub open spec fn spec_nitro_text(&self) -> Seq<char> {
        spec_mention_user(self.author.id) + " boosted the server"@ + (match self.kind {
            MessageKind::NitroTier1 => ", achieving tier 1"@,
            MessageKind::NitroTier2 => ", achieving tier 2"@,
            MessageKind::NitroTier3 => ", achieving tier 3"@,
            _ => ""@,
        }) + "!"@
    }

    /// The text about the guild losing or regaining its place in discovery.
    pub open spec fn spec_discovery_text(&self) -> Seq<char> {
        (if self.foreign_link is Some {
            self.spec_foreign()
        } else {
            "This server "@
        }) + "has been "@ + (if self.kind is GuildDiscoveryDisqualified {
            "dis"@
        } else {
            "re"@
        }) + "qualified "@ + (if self.kind is GuildDiscoveryDisqualified {
            "from"@
        } else {
            "for"@
        }) + " discovery."@
    }

    /// The text about a pinned message.
    pub open spec fn spec_pin_text(&self) -> Seq<char> {
        spec_mention_user(self.author.id) + " pinned [a message]("@ + spec_link_of(
            self.guild_id,
            self.reference->0.channel_id,
            self.reference->0.message_id->0,
        ) + ") in "@ + self.spec_foreign() + spec_mention_channel(self.channel_id)
    }

    /// The text about a member who joined.
    pub open spec fn spec_join_text(&self) -> Seq<char> {
        spec_mention_user(self.author.id) + " joined "@ + self.spec_foreign() + "on <t:"@
            + spec_decimal(self.timestamp as u64 as nat) + ":f>, <t:"@ + spec_decimal(
            self.timestamp as u64 as nat,
        ) + ":R>"@
    }

    /// The text about a channel that is followed from now on.
    pub open spec fn spec_follow_text(&self) -> Seq<char> {
        spec_mention_user(self.author.id) + " started following "@ + (match self.referenced_guild_name {
            Some(name) => "["@ + name@ + "]"@ + self.reference->0.spec_link() + " "@,
            None => ""@,
        }) + spec_mention_channel(self.reference->0.channel_id) + " in "@ + self.spec_foreign()
            + spec_mention_channel(self.channel_id)
    }

    /// The text about a new thread.
    pub open spec fn spec_thread_text(&self) -> Seq<char> {
        spec_mention_user(self.author.id) + " created the thread "@ + (if self.thread_known {
            spec_mention_channel(self.reference->0.channel_id)
        } else {
            "#"@ + self.content@
        }) + " in "@ + self.spec_foreign() + spec_mention_channel(self.channel_id)
    }

    /// The text of the embed.
    pub open spec fn spec_description(&self) -> Seq<char> {
        if self.kind.is_group() {
            "This is awkward... I shouldn't be able to see this message, yet I do. How will I resolve this paradox?"@
        } else if self.kind.is_unsupported() {
            "Unsupported message type. This has incident has been reported."@
        } else if flagged(self.flags, LOADING) {
            spec_mention_user(self.author.id) + " is thinking..."@
        } else if self.kind is PinsAdd {
            self.spec_pin_text()
        } else if self.kind is MemberJoin {
            self.spec_join_text()
        } else if self.kind is ChannelFollowAdd {
            self.spec_follow_text()
        } else if self.kind is ThreadCreated {
            self.spec_thread_text()
        } else if self.kind is GuildDiscoveryDisqualified || self.kind is GuildDiscoveryRequalified {
            self.spec_discovery_text()
        } else if self.kind.is_nitro() {
            self.spec_nitro_text()
        } else if self.kind.is_standard() {
            self.spec_standard_text()
        } else {
            BLANK@
        }
    }

    /// The address behind the author line: that of the message itself, or of
    /// the message that it was published from.
    pub open spec fn spec_author_url(&self) -> Seq<char> {
        if flagged(self.flags, IS_CROSSPOST) {
            self.reference->0.spec_link()
        } else {
            spec_link_of(self.guild_id, self.channel_id, self.id)
        }
    }

    /// The fields of the embed by name and text, in order.
    pub open spec fn spec_fields(&self) -> Seq<(Seq<char>, Seq<char>)> {
        if self.cut_short() {
            Seq::empty()
        } else {
            (if self.kind.is_standard() {
                seq![
                    ("Channel"@, spec_mention_channel(self.channel_id)),
                    ("Author"@, spec_mention_user(self.author.id)),
                ] + (if self.foreign_link is Some {
                    seq![("Guild"@, self.spec_foreign())]
                } else {
                    Seq::empty()
                })
            } else {
                Seq::empty()
            }) + (if flagged(self.flags, CROSSPOSTED) {
                seq![("Crossposted"@, BLANK@)]
            } else {
                Seq::empty()
            }) + (if flagged(self.flags, SOURCE_MESSAGE_DELETED) {
                seq![("Crosspost"@, "Source deleted"@)]
            } else if flagged(self.flags, IS_CROSSPOST) {
                seq![
                    (
                        "Crosspost"@,
                        match self.referenced_guild_name {
                            Some(name) => "From ["@ + name@ + "]("@ + self.reference->0.spec_link()
                                + ")"@,
                            None => "From "@ + spec_mention_channel(self.reference->0.channel_id),
                        },
                    ),
                ]
            } else {
                Seq::empty()
            }) + (if flagged(self.flags, HAS_THREAD) && !(self.kind is ThreadCreated) {
                seq![("Thread"@, spec_mention_channel(self.id))]
            } else {
                Seq::empty()
            })
        }
    }
}

/// The fields of a plan by name and text.
pub open spec fn plan_fields(fields: Seq<FieldPlan>) -> Seq<(Seq<char>, Seq<char>)> {
    Seq::new(fields.len(), |i: int| (fields[i].name@, fields[i].value@))
}

impl MessageFacts {
    fn foreign(&self) -> (s: String)
        ensures
            s@ == self.spec_foreign(),
    {
        match &self.foreign_link {
            Some(link) => {
                let mut s = String::from_str(" ");
                s.append(link.as_str());
                s
            },
            None => String::new(),
        }
    }

    fn pin_text(&self) -> (s: String)
        requires
            self.reference is Some,
            self.reference->0.message_id is Some,
        ensures
            s@ == self.spec_pin_text(),
    {
        let reference = self.reference.unwrap();
        let mut s = mention_user(self.author.id);
        s.append(" pinned [a message](");
        s.append(
            link_of(self.guild_id, reference.channel_id, reference.message_id.unwrap()).as_str(),
        );
        s.append(") in ");
        s.append(self.foreign().as_str());
        s.append(mention_channel(self.channel_id).as_str());
        assert(s@ =~= self.spec_pin_text());
        s
    }

    fn join_text(&self) -> (s: String)
        ensures
            s@ == self.spec_join_text(),
    {
        let time = self.timestamp as u64;
        let mut s = mention_user(self.author.id);
        s.append(" joined ");
        s.append(self.foreign().as_str());
        s.append("on <t:");
        push_decimal(&mut s, time);
        s.append(":f>, <t:");
        push_decimal(&mut s, time);
        s.append(":R>");
        assert(s@ =~= self.spec_join_text());
        s
    }

    fn follow_text(&self) -> (s: String)
        requires
            self.reference is Some,
            self.reference->0.guild_id is Some,
        ensures
            s@ == self.spec_follow_text(),
    {
        let reference = self.reference.unwrap();
        let mut s = mention_user(self.author.id);
        s.append(" started following ");
        if let Some(name) = &self.referenced_guild_name {
            s.append("[");
            s.append(name.as_str());
            s.append("]");
            s.append(reference.link().as_str());
            s.append(" ");
        }
        s.append(mention_channel(reference.channel_id).as_str());
        s.append(" in ");
        s.append(self.foreign().as_str());
        s.append(mention_channel(self.channel_id).as_str());
        proof {
            reveal_strlit("");
            assert(s@ =~= self.spec_follow_text());
        }
        s
    }

    fn thread_text(&self) -> (s: String)
        requires
            self.reference is Some,
        ensures
            s@ == self.spec_thread_text(),
    {
        let reference = self.reference.unwrap();
        let mut s = mention_user(self.author.id);
        s.append(" created the thread ");
        if self.thread_known {
            s.append(mention_channel(reference.channel_id).as_str());
        } else {
            s.append("#");
            s.append(self.content.as_str());
        }
        s.append(" in ");
        s.append(self.foreign().as_str());
        s.append(mention_channel(self.channel_id).as_str());
        assert(s@ =~= self.spec_thread_text());
        s
    }

    fn discovery_text(&self) -> (s: String)
        ensures
            s@ == self.spec_discovery_text(),
    {
        let lost = matches!(self.kind, MessageKind::GuildDiscoveryDisqualified);
        let mut s = if self.foreign_link.is_some() {
            self.foreign()
        } else {
            String::from_str("This server ")
        };
        s.append("has been ");
        if lost {
            s.append("dis");
        } else {
            s.append("re");
        }
        s.append("qualified ");
        if lost {
            s.append("from");
        } else {
            s.append("for");
        }
        s.append(" discovery.");
        assert(s@ =~= self.spec_discovery_text());
        s
    }

    fn nitro_text(&self) -> (s: String)
        ensures
            s@ == self.spec_nitro_text(),
    {
        let mut s = mention_user(self.author.id);
        s.append(" boosted the server");
        match self.kind {
            MessageKind::NitroTier1 => {
                s.append(", achieving tier 1");
            },
            MessageKind::NitroTier2 => {
                s.append(", achieving tier 2");
            },
            MessageKind::NitroTier3 => {
                s.append(", achieving tier 3");
            },
            _ => {
                proof {
                    reveal_strlit("");
                }
                assert(s@ =~= s@ + ""@);
            },
        }
        s.append("!");
        s
    }

    fn standard_text(&self) -> (s: String)
        ensures
            s@ == self.spec_standard_text(),
    {
        let mut s = self.content.clone();
        if let Some(link) = &self.reply_link {
            s.append("\n[Reply to](");
            s.append(link.as_str());
            s.append(")");
        }
        s
    }

    fn description(&self) -> (s: String)
        requires
            self.wf(),
        ensures
            s@ == self.spec_description(),
    {
        if self.kind.group() {
            String::from_str(
                "This is awkward... I shouldn't be able to see this message, yet I do. How will I resolve this paradox?",
            )
        } else if self.kind.unsupported() {
            String::from_str("Unsupported message type. This has incident has been reported.")
        } else if has_flag(self.flags, LOADING) {
            let mut s = mention_user(self.author.id);
            s.append(" is thinking...");
            s
        } else if matches!(self.kind, MessageKind::PinsAdd) {
            self.pin_text()
        } else if matches!(self.kind, MessageKind::MemberJoin) {
            self.join_text()
        } else if matches!(self.kind, MessageKind::ChannelFollowAdd) {
            self.follow_text()
        } else if matches!(self.kind, MessageKind::ThreadCreated) {
            self.thread_text()
        } else if matches!(
            self.kind,
            MessageKind::GuildDiscoveryDisqualified | MessageKind::GuildDiscoveryRequalified
        ) {
            self.discovery_text()
        } else if self.kind.nitro() {
            self.nitro_text()
        } else if self.kind.standard() {
            self.standard_text()
        } else {
            String::from_str(BLANK)
        }
    }

    fn author_plan(&self) -> (a: Option<AuthorPlan>)
        requires
            self.wf(),
        ensures
            match a {
                Some(plan) => {
                    &&& !self.cut_short() && self.kind.has_author()
                    &&& plan.name@ == spec_author_name(self.author)
                    &&& plan.url@ == self.spec_author_url()
                    &&& plan.icon_url@ == self.author.icon_url@
                },
                None => self.cut_short() || !self.kind.has_author(),
            },
    {
        if self.kind.group() || self.kind.unsupported() || !self.kind.author_shown() {
            return None;
        }
        let url = if has_flag(self.flags, IS_CROSSPOST) {
            self.reference.unwrap().link()
        } else {
            link_of(self.guild_id, self.channel_id, self.id)
        };
        Some(AuthorPlan { name: author_name(&self.author), url, icon_url: self.author.icon_url.clone() })
    }

    fn fields(&self) -> (fields: Vec<FieldPlan>)
        requires
            self.wf(),
        ensures
            plan_fields(fields@) == self.spec_fields(),
            forall|i: int| 0 <= i < fields@.len() ==> (#[trigger] fields@[i]).inline,
    {
        let mut fields: Vec<FieldPlan> = Vec::new();
        if self.kind.group() || self.kind.unsupported() {
            assert(plan_fields(fields@) =~= self.spec_fields());
            return fields;
        }
        if self.kind.standard() {
            fields.push(
                FieldPlan { name: "Channel", value: mention_channel(self.channel_id), inline: true },
            );
            fields.push(
                FieldPlan { name: "Author", value: mention_user(self.author.id), inline: true },
            );
            if self.foreign_link.is_some() {
                fields.push(FieldPlan { name: "Guild", value: self.foreign(), inline: true });
            }
        }
        if has_flag(self.flags, CROSSPOSTED) {
            fields.push(
                FieldPlan { name: "Crossposted", value: String::from_str(BLANK), inline: true },
            );
        }
        if has_flag(self.flags, SOURCE_MESSAGE_DELETED) {
            fields.push(
                FieldPlan {
                    name: "Crosspost",
                    value: String::from_str("Source deleted"),
                    inline: true,
                },
            );
        } else if has_flag(self.flags, IS_CROSSPOST) {
            let reference = self.reference.unwrap();
            let mut value = String::from_str("From ");
            match &self.referenced_guild_name {
                Some(name) => {
                    value.append("[");
                    value.append(name.as_str());
                    value.append("](");
                    value.append(reference.link().as_str());
                    value.append(")");
                    proof {
                        reveal_strlit("From ");
                        reveal_strlit("From [");
                        reveal_strlit("[");
                        assert("From "@ + "["@ =~= "From ["@);
                        assert(value@ =~= "From ["@ + name@ + "]("@ + reference.spec_link() + ")"@);
                    }
                },
                None => {
                    value.append(mention_channel(reference.channel_id).as_str());
                },
            }
            fields.push(FieldPlan { name: "Crosspost", value, inline: true });
        }
        if has_flag(self.flags, HAS_THREAD) && !matches!(self.kind, MessageKind::ThreadCreated) {
            fields.push(FieldPlan { name: "Thread", value: mention_channel(self.id), inline: true });
        }
        assert(plan_fields(fields@) =~= self.spec_fields());
        fields
    }

    /// Whether the message can be shown: what is read of the message that it
    /// points to is there.
    pub fn can_show(&self) -> (r: bool)
        ensures
            r == self.wf(),
    {
        if self.kind.group() || self.kind.unsupported() {
            return true;
        }
        let crosspost = has_flag(self.flags, IS_CROSSPOST);
        let reads_guild = (self.kind.author_shown() && crosspost) || matches!(
            self.kind,
            MessageKind::ChannelFollowAdd
        ) || (crosspost && !has_flag(self.flags, SOURCE_MESSAGE_DELETED));
        let reads = reads_guild || matches!(
            self.kind,
            MessageKind::PinsAdd | MessageKind::ThreadCreated
        );
        match &self.reference {
            None => !reads,
            Some(reference) => {
                (!reads_guild || reference.guild_id.is_some()) && (!matches!(
                    self.kind,
                    MessageKind::PinsAdd
                ) || reference.message_id.is_some())
            },
        }
    }

    /// The plan of the embed that shows this message. A message of a kind
    /// that should never be seen, or that cannot be shown, gets a fixed text
    /// and is reported; any other gets the text that fits its kind, its
    /// author where the kind has one, and fields for where it was written and
    /// what happened to it since.
    pub fn derive_embed(&self) -> (plan: EmbedPlan)
        requires
            self.wf(),
        ensures
            plan.description@ == self.spec_description(),
            match plan.author {
                Some(a) => {
                    &&& !self.cut_short() && self.kind.has_author()
                    &&& a.name@ == spec_author_name(self.author)
                    &&& a.url@ == self.spec_author_url()
                    &&& a.icon_url@ == self.author.icon_url@
                },
                None => self.cut_short() || !self.kind.has_author(),
            },
            plan_fields(plan.fields@) == self.spec_fields(),
            forall|i: int| 0 <= i < plan.fields@.len() ==> (#[trigger] plan.fields@[i]).inline,
            plan.timestamp == (!self.cut_short() && self.kind.has_timestamp()),
            match plan.report {
                Some(text) => self.cut_short() && text@ == self.spec_report(),
                None => !self.cut_short(),
            },
    {
        let cut = self.kind.group() || self.kind.unsupported();
        let report = if cut {
            let mut text = String::from_str("type ");
            text.append(self.kind.name());
            text.append(" spotted: ");
            text.append(link_of(self.guild_id, self.channel_id, self.id).as_str());
            Some(text)
        } else {
            None
        };
        EmbedPlan {
            description: self.description(),
            author: self.author_plan(),
            fields: self.fields(),
            timestamp: !cut && self.kind.timestamp_shown(),
            report,
        }
    }
}

} // verus!

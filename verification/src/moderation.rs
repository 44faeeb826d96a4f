//! Timing members out: what is asked, whether it may be done, and what is
//! said about it. Putting the timeout into effect is left to the caller.

use std::collections::HashMap;
use vstd::prelude::*;
use crate::decode::{spec_get_boolean, spec_get_string, spec_get_user, SlashMap, SlashValue};
use crate::error::{BotError, BotErrorView, CommandError, CommandErrorView};
use crate::permission_commands::agrees;
use crate::permissions::Role;
use crate::text::{push_decimal, spec_decimal};
use crate::utils::{
    highest_role, mention_user, parse_duration, spec_highest_role, spec_mention_user,
    spec_parse_duration, FollowupBuilder,
};

verus! {

/// The commands that moderate members.
#[derive(Debug, Clone, Copy, PartialEq, Eq)]
pub struct UtilsModule {}

/// The longest timeout that the platform accepts, in seconds: 28 days.
pub const LONGEST_TIMEOUT: u64 = 2419200;

/// Up to this many seconds a timeout is announced with its time of day only.
pub const SHORT_TIMEOUT: u64 = 3600;

/// The options of a timeout, read before anything is done.
#[derive(Debug)]
pub struct TimeoutOptions {
    pub reason: String,
    /// Whether the timeout is announced in the channel.
    pub shame: bool,
    /// Whether the member is told in a direct message.
    pub dm: bool,
    /// Whether the moderator stays unnamed.
    pub anon: bool,
    /// The length of the timeout in seconds; nothing where it is malformed.
    pub duration: Option<u64>,
}

/// The options of a timeout as plain values.
pub struct TimeoutOptionsView {
    pub reason: Seq<char>,
    pub shame: bool,
    pub dm: bool,
    pub anon: bool,
    pub duration: Option<u64>,
}

impl View for TimeoutOptions {
    type V = TimeoutOptionsView;

    open spec fn view(&self) -> TimeoutOptionsView {
        TimeoutOptionsView {
            reason: self.reason@,
            shame: self.shame,
            dm: self.dm,
            anon: self.anon,
            duration: self.duration,
        }
    }
}

/// A switch that is on or off as given, or as its default where it is not given.
pub open spec fn spec_switch(args: Map<Seq<char>, SlashValue>, name: Seq<char>, default: bool) -> bool {
    match spec_get_boolean(args, name) {
        Ok(b) => b,
        Err(_) => default,
    }
}

/// The seconds that a duration text stands for, where it is well formed and
/// they fit in 64 bits.
pub open spec fn spec_duration(text: Seq<char>) -> Option<u64> {
    match spec_parse_duration(text) {
        Some(total) => if total <= u64::MAX {
            Some(total as u64)
        } else {
            None
        },
        None => None,
    }
}

/// What the options of a timeout are: a reason and a duration must be
/// given; the announcement and the direct message are on unless switched off,
/// anonymity is off unless switched on.
pub open spec fn spec_timeout_options(args: Map<Seq<char>, SlashValue>) -> Result<
    TimeoutOptionsView,
    CommandErrorView,
> {
    match spec_get_string(args, "reason"@) {
        Err(e) => Err(CommandErrorView::Decode(e)),
        Ok(reason) => match spec_get_string(args, "duration"@) {
            Err(e) => Err(CommandErrorView::Decode(e)),
            Ok(text) => Ok(
                TimeoutOptionsView {
                    reason,
                    shame: spec_switch(args, "shame"@, true),
                    dm: spec_switch(args, "dm"@, true),
                    anon: spec_switch(args, "anon"@, false),
                    duration: spec_duration(text),
                },
            ),
        },
    }
}

fn switch(args: &SlashMap, name: &str, default: bool) -> (b: bool)
    requires
        args.wf(),
    ensures
        b == spec_switch(args@, name@, default),
{
    match args.get_boolean(name) {
        Ok(b) => b,
        Err(_) => default,
    }
}

/// What is to be done about a request for a timeout.
#[derive(Debug, Clone, Copy, PartialEq, Eq, Structural)]
pub enum TimeoutVerdict {
    /// The timeout is longer than the platform accepts.
    TooLong,
    /// The member owns the guild.
    Owner,
    /// The member has a role at least as high as the highest of the bot.
    RoleAbove,
    /// The timeout may be put into effect.
    Apply,
}

/// Whether a timeout may be put into effect. The length is looked at first,
/// then the owner, then the ranks; what the snapshot lacks is an error.
pub open spec fn spec_timeout_verdict(
    duration: u64,
    target: u64,
    owner: Option<u64>,
    roles: Option<Map<u64, Role>>,
    own_roles: Option<Seq<u64>>,
    target_roles: Seq<u64>,
) -> Result<TimeoutVerdict, BotError> {
    if duration > LONGEST_TIMEOUT {
        Ok(TimeoutVerdict::TooLong)
    } else if owner is None {
        Err(BotError::CacheMissing)
    } else if owner == Some(target) {
        Ok(TimeoutVerdict::Owner)
    } else if roles is None || own_roles is None {
        Err(BotError::CacheMissing)
    } else if spec_highest_role(roles->0, own_roles->0) <= spec_highest_role(roles->0, target_roles) {
        Ok(TimeoutVerdict::RoleAbove)
    } else {
        Ok(TimeoutVerdict::Apply)
    }
}

/// The text that gives a moment: as a time of day for a short timeout, as a
/// full date otherwise, and how far away it is.
pub open spec fn spec_until_text(until: u64, duration: u64) -> Seq<char> {
    "<t:"@ + spec_decimal(until as nat) + ":"@ + (if duration <= SHORT_TIMEOUT {
        "t"@
    } else {
        "f"@
    }) + "> <t:"@ + spec_decimal(until as nat) + ":R>"@
}

/// What is announced about a timeout.
#[derive(Debug)]
pub struct Announcement {
    pub description: String,
    /// The fields by name and text, in order.
    pub fields: Vec<(&'static str, String)>,
    /// Whether it is sent to the channel as a message of its own, rather
    /// than as an answer to the command.
    pub in_channel: bool,
}

impl UtilsModule {
    /// The module.
    pub fn new() -> (m: Self) {
        UtilsModule {  }
    }

    /// Reads the options of a timeout.
    pub fn timeout_options(&self, args: &SlashMap) -> (r: Result<TimeoutOptions, CommandError>)
        requires
            args.wf(),
        ensures
            match r {
                Ok(options) => spec_timeout_options(args@) == Ok::<
                    TimeoutOptionsView,
                    CommandErrorView,
                >(options@),
                Err(e) => spec_timeout_options(args@) == Err::<
                    TimeoutOptionsView,
                    CommandErrorView,
                >(e@),
            },
    {
        let reason = match args.get_string("reason") {
            Ok(r) => r,
            Err(e) => {
                return Err(CommandError::Decode(e));
            },
        };
        let shame = switch(args, "shame", true);
        let dm = switch(args, "dm", true);
        let anon = switch(args, "anon", false);
        let text = match args.get_string("duration") {
            Ok(t) => t,
            Err(e) => {
                return Err(CommandError::Decode(e));
            },
        };
        let duration = parse_duration(text.as_str());
        Ok(TimeoutOptions { reason, shame, dm, anon, duration })
    }

    /// The answer to a duration that cannot be read.
    pub fn malformed_duration(&self, anon: bool) -> (b: FollowupBuilder)
        ensures
            b.spec_description() == Some("Duration is malformed"@),
            b.spec_title() is None,
            b.spec_ephemeral() == anon,
    {
        FollowupBuilder::new().description("Duration is malformed").set_ephemeral(anon)
    }

    /// The moment at which a timeout of `duration` seconds that starts at
    /// `now` ends, where that moment can be written as a signed 64-bit number
    /// of seconds.
    pub fn timeout_end(&self, now: u64, duration: u64) -> (until: Option<u64>)
        ensures
            until == (if now + duration <= i64::MAX {
                Some((now + duration) as u64)
            } else {
                None
            }),
    {
        match now.checked_add(duration) {
            Some(end) => if end <= 0x7fff_ffff_ffff_ffff {
                Some(end)
            } else {
                None
            },
            None => None,
        }
    }

    /// Whether the answers to a timeout come as follow-ups: where the timeout
    /// is announced under the name of the moderator, the command is
    /// acknowledged first.
    pub fn acknowledges_first(&self, shame: bool, anon: bool) -> (first: bool)
        ensures
            first == (shame && !anon),
    {
        shame && !anon
    }

    /// Decides whether a timeout may be put into effect.
    pub fn timeout_command(
        &self,
        duration: u64,
        target: u64,
        owner: Option<u64>,
        roles: Option<&HashMap<u64, Role>>,
        own_roles: Option<&Vec<u64>>,
        target_roles: &Vec<u64>,
    ) -> (r: Result<TimeoutVerdict, BotError>)
        ensures
            r == spec_timeout_verdict(duration, target, owner, match roles {
                Some(m) => Some(m@),
                None => None,
            }, match own_roles {
                Some(v) => Some(v@),
                None => None,
            }, target_roles@),
    {
        if duration > LONGEST_TIMEOUT {
            return Ok(TimeoutVerdict::TooLong);
        }
        let owner = match owner {
            Some(o) => o,
            None => {
                return Err(BotError::CacheMissing);
            },
        };
        if target == owner {
            return Ok(TimeoutVerdict::Owner);
        }
        let roles = match roles {
            Some(r) => r,
            None => {
                return Err(BotError::CacheMissing);
            },
        };
        let own_roles = match own_roles {
            Some(r) => r,
            None => {
                return Err(BotError::CacheMissing);
            },
        };
        let own = highest_role(roles, own_roles.as_slice());
        let theirs = highest_role(roles, target_roles.as_slice());
        if own <= theirs {
            Ok(TimeoutVerdict::RoleAbove)
        } else {
            Ok(TimeoutVerdict::Apply)
        }
    }

    /// The answer to a timeout that is not put into effect.
    pub fn refusal(&self, verdict: TimeoutVerdict, target: u64, anon: bool) -> (b: Option<
        FollowupBuilder,
    >)
        ensures
            match b {
                Some(answer) => {
                    &&& verdict != TimeoutVerdict::Apply
                    &&& answer.spec_title() is None
                    &&& answer.spec_ephemeral() == anon
                    &&& answer.spec_description() == Some(
                        match verdict {
                            TimeoutVerdict::TooLong => "Duration is too long"@,
                            TimeoutVerdict::Owner => "Can't time out owner"@,
                            _ => spec_mention_user(target) + " has a role above me"@,
                        },
                    )
                },
                None => verdict == TimeoutVerdict::Apply,
            },
    {
        match verdict {
            TimeoutVerdict::Apply => None,
            TimeoutVerdict::TooLong => Some(
                FollowupBuilder::new().description("Duration is too long").set_ephemeral(anon),
            ),
            TimeoutVerdict::Owner => Some(
                FollowupBuilder::new().description("Can't time out owner").set_ephemeral(anon),
            ),
            TimeoutVerdict::RoleAbove => {
                let mut text = mention_user(target);
                text.append(" has a role above me");
                Some(FollowupBuilder::new().description(text.as_str()).set_ephemeral(anon))
            },
        }
    }

    /// The text that says until when a member is timed out.
    pub fn until_text(&self, until: u64, duration: u64) -> (s: String)
        ensures
            s@ == spec_until_text(until, duration),
    {
        let mut s = String::from_str("<t:");
        push_decimal(&mut s, until);
        s.append(":");
        if duration <= SHORT_TIMEOUT {
            s.append("t");
        } else {
            s.append("f");
        }
        s.append("> <t:");
        push_decimal(&mut s, until);
        s.append(":R>");
        s
    }

    /// What is announced about a timeout, where it is announced at all. An
    /// anonymous announcement goes to the channel; any other names the
    /// moderator and answers the command.
    pub fn announcement(
        &self,
        options: &TimeoutOptions,
        target: u64,
        until: &str,
        moderator: u64,
    ) -> (a: Option<Announcement>)
        ensures
            match a {
                None => !options.shame,
                Some(said) => {
                    &&& options.shame
                    &&& said.description@ == spec_mention_user(target) + " was muted"@
                    &&& said.in_channel == options.anon
                    &&& said.fields@.len() == (if options.anon {
                        2int
                    } else {
                        3int
                    })
                    &&& said.fields@[0].0@ == "Reason"@
                    &&& said.fields@[0].1@ == options.reason@
                    &&& said.fields@[1].0@ == "Until"@
                    &&& said.fields@[1].1@ == until@
                    &&& !options.anon ==> said.fields@[2].0@ == "By"@ && said.fields@[2].1@
                        == spec_mention_user(moderator)
                },
            },
    {
        if !options.shame {
            return None;
        }
        let mut description = mention_user(target);
        description.append(" was muted");
        let mut fields: Vec<(&'static str, String)> = Vec::new();
        fields.push(("Reason", options.reason.clone()));
        fields.push(("Until", String::from_str(until)));
        if !options.anon {
            fields.push(("By", mention_user(moderator)));
        }
        Some(Announcement { description, fields, in_channel: options.anon })
    }

    /// The direct message to the member, where one is sent: never to a bot.
    pub fn direct_message(
        &self,
        options: &TimeoutOptions,
        target_is_bot: bool,
        guild_link: &str,
        until: &str,
    ) -> (text: Option<String>)
        ensures
            match text {
                None => !options.dm || target_is_bot,
                Some(t) => options.dm && !target_is_bot && t@ == "You were muted in "@ + guild_link@
                    + " until "@ + until@ + " for "@ + options.reason@,
            },
    {
        if options.dm && !target_is_bot {
            let mut t = String::from_str("You were muted in ");
            t.append(guild_link);
            t.append(" until ");
            t.append(until);
            t.append(" for ");
            t.append(options.reason.as_str());
            Some(t)
        } else {
            None
        }
    }

    /// The closing answer to a timeout that was not announced.
    pub fn closing_answer(&self, options: &TimeoutOptions) -> (b: Option<FollowupBuilder>)
        ensures
            match b {
                None => options.shame,
                Some(answer) => !options.shame && answer.spec_description() == Some("Success"@)
                    && answer.spec_title() is None && answer.spec_ephemeral() == options.anon,
            },
    {
        if options.shame {
            None
        } else {
            Some(FollowupBuilder::new().description("Success").set_ephemeral(options.anon))
        }
    }

    /// The answer to lifting a timeout.
    pub fn untimeout_command(&self) -> (b: FollowupBuilder)
        ensures
            b.spec_description() == Some("Success"@),
            b.spec_title() is None,
            !b.spec_ephemeral(),
    {
        FollowupBuilder::new().description("Success")
    }
}

} // verus!

//! The errors that command handlers report to the person who ran a command.

use vstd::prelude::*;
use crate::decode::{Error, ErrorView};
use crate::text::{push_decimal, spec_decimal};

verus! {

/// A failure that is explained to the user as it is.
#[derive(Debug, Clone, PartialEq, Eq)]
pub enum BotError {
    /// A message with no further structure.
    Generic(String),
    /// A numbered marker for a condition that should never arise.
    Internal(u64),
    /// The command needs a server and was run outside one.
    GuildOnly,
    /// The gateway snapshot lacked what was needed; a later event may succeed.
    CacheMissing,
    /// Malformed input.
    InvalidRequest(String),
    /// The request named something that belongs to another server.
    WrongGuild,
    /// The named thing does not exist.
    NotFound(String),
}

impl BotError {
    /// Whether this is a plain message with the given text.
    pub open spec fn is_generic(&self, text: Seq<char>) -> bool {
        self matches BotError::Generic(m) && m@ == text
    }

    /// Whether this reports malformed input with the given text.
    pub open spec fn is_invalid_request(&self, text: Seq<char>) -> bool {
        self matches BotError::InvalidRequest(m) && m@ == text
    }

    /// Whether this reports the named thing as missing.
    pub open spec fn is_not_found(&self, what: Seq<char>) -> bool {
        self matches BotError::NotFound(m) && m@ == what
    }

    /// The text shown to the user for this error.
    pub open spec fn spec_message(&self) -> Seq<char> {
        match self {
            BotError::Generic(s) => s@,
            BotError::Internal(code) => "Internal error code `"@ + spec_decimal(*code as nat)
                + "`"@,
            BotError::GuildOnly => "Command must be run in a server"@,
            BotError::CacheMissing => "Cache failure, please try again later"@,
            BotError::InvalidRequest(msg) => "Invalid request: `"@ + msg@ + "`"@,
            BotError::WrongGuild => "Can't refer to data from another server"@,
            BotError::NotFound(what) => what@ + " not found"@,
        }
    }

    /// The text shown to the user for this error.
    pub fn message(&self) -> (s: String)
        ensures
            s@ == self.spec_message(),
    {
        match self {
            BotError::Generic(text) => text.clone(),
            BotError::Internal(code) => {
                let mut out = String::from_str("Internal error code `");
                push_decimal(&mut out, *code);
                out.append("`");
                out
            },
            BotError::GuildOnly => String::from_str("Command must be run in a server"),
            BotError::CacheMissing => String::from_str("Cache failure, please try again later"),
            BotError::InvalidRequest(msg) => {
                let mut out = String::from_str("Invalid request: `");
                out.append(msg.as_str());
                out.append("`");
                out
            },
            BotError::WrongGuild => String::from_str("Can't refer to data from another server"),
            BotError::NotFound(what) => {
                let mut out = what.clone();
                out.append(" not found");
                out
            },
        }
    }
}

/// A [`BotError`] as plain values.
pub enum BotErrorView {
    Generic(Seq<char>),
    Internal(u64),
    GuildOnly,
    CacheMissing,
    InvalidRequest(Seq<char>),
    WrongGuild,
    NotFound(Seq<char>),
}

impl View for BotError {
    type V = BotErrorView;

    open spec fn view(&self) -> BotErrorView {
        match self {
            BotError::Generic(s) => BotErrorView::Generic(s@),
            BotError::Internal(code) => BotErrorView::Internal(*code),
            BotError::GuildOnly => BotErrorView::GuildOnly,
            BotError::CacheMissing => BotErrorView::CacheMissing,
            BotError::InvalidRequest(s) => BotErrorView::InvalidRequest(s@),
            BotError::WrongGuild => BotErrorView::WrongGuild,
            BotError::NotFound(s) => BotErrorView::NotFound(s@),
        }
    }
}

/// A failure of a handler: one of ours, or anything else.
#[derive(Debug)]
pub enum CommandError {
    /// A failure that is explained to the person as it is.
    Bot(BotError),
    /// An argument could not be read.
    Decode(Error),
    /// A failure of a collaborator, with its text.
    Other(String),
}

/// A [`CommandError`] as plain values.
pub enum CommandErrorView {
    Bot(BotErrorView),
    Decode(ErrorView),
    Other(Seq<char>),
}

impl View for CommandError {
    type V = CommandErrorView;

    open spec fn view(&self) -> CommandErrorView {
        match self {
            CommandError::Bot(e) => CommandErrorView::Bot(e@),
            CommandError::Decode(e) => CommandErrorView::Decode(e@),
            CommandError::Other(text) => CommandErrorView::Other(text@),
        }
    }
}

impl CommandError {
    /// The text of the failure itself.
    pub open spec fn spec_text(&self) -> Seq<char> {
        match self {
            CommandError::Bot(e) => e.spec_message(),
            CommandError::Decode(e) => e@.message(),
            CommandError::Other(text) => text@,
        }
    }

    /// The text shown to the person: the text of a failure of ours as it is,
    /// and that of any other failure marked as internal.
    pub open spec fn spec_render(&self) -> Seq<char> {
        if self is Bot {
            self.spec_text()
        } else {
            "Internal error: "@ + self.spec_text()
        }
    }

    /// Whether this is a failure of ours. Such a failure is dropped where
    /// previews are made in passing; any other failure ends the handler.
    pub fn is_bot_error(&self) -> (r: bool)
        ensures
            r == (self is Bot),
    {
        match self {
            CommandError::Bot(_) => true,
            _ => false,
        }
    }

    /// The text shown to the person.
    pub fn render(&self) -> (s: String)
        ensures
            s@ == self.spec_render(),
    {
        match self {
            CommandError::Bot(e) => e.message(),
            CommandError::Decode(e) => {
                let mut s = String::from_str("Internal error: ");
                s.append(e.message().as_str());
                s
            },
            CommandError::Other(text) => {
                let mut s = String::from_str("Internal error: ");
                s.append(text.as_str());
                s
            },
        }
    }
}

} // verus!

//! What the command line asks for.

use vstd::prelude::*;
use crate::text::{push_decimal, spec_decimal};

verus! {

/// The options of `invite`.
#[derive(Debug, Clone, Copy, PartialEq, Eq)]
pub struct InviteOpts {
    id: Option<u64>,
}

/// What the program is asked to do.
#[derive(Debug, Clone, Copy, PartialEq, Eq)]
pub enum Subcommand {
    /// Start the bot.
    Run,
    /// Ask for the settings and write the configuration file.
    Init,
    /// Print a link that invites the bot to a guild.
    Invite(InviteOpts),
}

/// The parsed command line.
#[derive(Debug, Clone, Copy, PartialEq, Eq)]
pub struct Opts {
    pub subcommand: Subcommand,
}

/// Where the client id for an invitation comes from.
#[derive(Debug, Clone, Copy, PartialEq, Eq, Structural)]
pub enum InviteSource {
    /// The id was given on the command line.
    Given(u64),
    /// The id is that of the account behind the configured token.
    CurrentUser,
}

/// The link that invites the application `id` as a bot with slash commands.
pub open spec fn spec_invite_url(id: u64) -> Seq<char> {
    "https://discord.com/oauth2/authorize?client_id="@ + spec_decimal(id as nat)
        + "&permissions=8&scope=applications.commands+bot"@
}

/// The link that invites the application `id` as a bot with slash commands.
pub fn invite_url(id: u64) -> (s: String)
    ensures
        s@ == spec_invite_url(id),
{
    let mut s = String::from_str("https://discord.com/oauth2/authorize?client_id=");
    push_decimal(&mut s, id);
    s.append("&permissions=8&scope=applications.commands+bot");
    s
}

/// The line that `invite` prints for the application `id`.
pub fn invite_inner(id: u64) -> (s: String)
    ensures
        s@ == "Invite link: "@ + spec_invite_url(id),
{
    let mut s = String::from_str("Invite link: ");
    s.append(invite_url(id).as_str());
    s
}

impl InviteOpts {
    /// The client id given on the command line, if any.
    pub closed spec fn spec_id(&self) -> Option<u64> {
        self.id
    }

    /// Options with or without a client id.
    pub fn new(id: Option<u64>) -> (o: Self)
        ensures
            o.spec_id() == id,
    {
        InviteOpts { id }
    }

    /// Where the client id comes from: the command line where it names one,
    /// else the account behind the configured token.
    pub fn source(&self) -> (s: InviteSource)
        ensures
            s == match self.spec_id() {
                Some(id) => InviteSource::Given(id),
                None => InviteSource::CurrentUser,
            },
    {
        match self.id {
            Some(id) => InviteSource::Given(id),
            None => InviteSource::CurrentUser,
        }
    }
}

} // verus!

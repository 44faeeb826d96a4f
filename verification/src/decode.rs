//! Reading the options of a slash command.
//!
//! A command arrives as a name and a tree of options. Sub-command groups and
//! sub-commands are walked down to the leaf; the names on the way form the
//! command path, and the options of the leaf are the arguments.

use vstd::prelude::*;
use crate::permissions::Role;
use crate::strmap::StringMap;
use crate::text::{join, spec_join, texts};
use crate::utils::{mention_role, mention_user, spec_mention_role, spec_mention_user};

verus! {

/// What went wrong when an argument was read.
#[derive(Debug, Clone, PartialEq, Eq)]
pub enum Error {
    WrongType { expected: String, found: String, name: String },
    MissingValue { name: String },
}

/// An [`Error`] as plain text values.
pub enum ErrorView {
    WrongType { expected: Seq<char>, found: Seq<char>, name: Seq<char> },
    MissingValue { name: Seq<char> },
}

impl View for Error {
    type V = ErrorView;

    open spec fn view(&self) -> ErrorView {
        match self {
            Error::WrongType { expected, found, name } => ErrorView::WrongType {
                expected: expected@,
                found: found@,
                name: name@,
            },
            Error::MissingValue { name } => ErrorView::MissingValue { name: name@ },
        }
    }
}

impl ErrorView {
    /// The text that explains the error.
    pub open spec fn message(self) -> Seq<char> {
        match self {
            ErrorView::WrongType { expected, found, name } => "Wrong type in field `"@ + name
                + "` (expected `"@ + expected + "`, got `"@ + found + "`)"@,
            ErrorView::MissingValue { name } => "Missing value in field `"@ + name + "`"@,
        }
    }
}

impl Error {
    /// The text that explains the error.
    pub fn message(&self) -> (s: String)
        ensures
            s@ == self@.message(),
    {
        match self {
            Error::WrongType { expected, found, name } => {
                let mut s = String::from_str("Wrong type in field `");
                s.append(name.as_str());
                s.append("` (expected `");
                s.append(expected.as_str());
                s.append("`, got `");
                s.append(found.as_str());
                s.append("`)");
                s
            },
            Error::MissingValue { name } => {
                let mut s = String::from_str("Missing value in field `");
                s.append(name.as_str());
                s.append("`");
                s
            },
        }
    }
}

/// What the handlers read of a user.
#[derive(Debug, Clone, Copy, PartialEq, Eq, Structural)]
pub struct User {
    pub id: u64,
    /// Whether the account is a bot.
    pub bot: bool,
}

/// What the handlers read of the guild membership that came with a user.
#[derive(Debug, Clone, Copy, PartialEq, Eq, Structural)]
pub struct PartialMember {
    /// Whether the member has yet to pass the guild's membership screening.
    pub pending: bool,
}

/// What the handlers read of a channel given as an argument.
#[derive(Debug, Clone, Copy, PartialEq, Eq, Structural)]
pub struct PartialChannel {
    pub id: u64,
}

/// The value of one option, resolved by the platform.
#[derive(Debug, Clone, PartialEq, Eq)]
pub enum CommandDataOptionValue {
    String(String),
    Integer(i64),
    Boolean(bool),
    User(User, Option<PartialMember>),
    Channel(PartialChannel),
    Role(Role),
    /// Any other kind of value; no handler reads one.
    Other,
}

/// What an option is: a step towards a sub-command, or an argument.
#[derive(Debug, Clone, Copy, PartialEq, Eq, Structural)]
pub enum CommandOptionType {
    SubCommand,
    SubCommandGroup,
    /// An option that carries a value.
    Argument,
}

/// One option of a command, with the options below it.
#[derive(Debug)]
pub struct CommandDataOption {
    pub name: String,
    pub kind: CommandOptionType,
    pub options: Vec<CommandDataOption>,
    pub resolved: Option<CommandDataOptionValue>,
}

/// A command as it was invoked.
#[derive(Debug)]
pub struct CommandData {
    pub name: String,
    pub options: Vec<CommandDataOption>,
}

/// Whether the walk goes down at this level: there is a first option, and it
/// is a sub-command or a group of them.
pub open spec fn descends(options: Vec<CommandDataOption>) -> bool {
    options@.len() > 0 && options@[0].kind != CommandOptionType::Argument
}

/// The names met on the way down from `options` to the leaf.
pub open spec fn spec_path_below(options: Vec<CommandDataOption>) -> Seq<Seq<char>>
    decreases options,
{
    if descends(options) {
        seq![options@[0].name@] + spec_path_below(options@[0].options)
    } else {
        Seq::empty()
    }
}

/// The options of the leaf that the walk down from `options` reaches.
pub open spec fn spec_leaf(options: Vec<CommandDataOption>) -> Vec<CommandDataOption>
    decreases options,
{
    if descends(options) {
        spec_leaf(options@[0].options)
    } else {
        options
    }
}

/// The command path: the name of the command and the names of the
/// sub-commands on the way to the leaf, with single spaces between them.
pub open spec fn spec_command_path(data: CommandData) -> Seq<char> {
    spec_join(seq![data.name@] + spec_path_below(data.options), " "@)
}

/// A user, together with the guild membership where it came along.
#[derive(Debug, Clone, Copy, PartialEq, Eq, Structural)]
pub enum UserOrMember {
    User(User),
    Member(User, PartialMember),
}

/// The user alone, or the user as a member where a membership came along.
pub open spec fn spec_from_pair(user: User, member: Option<PartialMember>) -> UserOrMember {
    match member {
        Some(m) => UserOrMember::Member(user, m),
        None => UserOrMember::User(user),
    }
}

impl UserOrMember {
    fn from_pair(user: User, member: Option<PartialMember>) -> (r: Self)
        ensures
            r == spec_from_pair(user, member),
    {
        match member {
            Some(m) => UserOrMember::Member(user, m),
            None => UserOrMember::User(user),
        }
    }

    /// The user, with or without membership.
    pub open spec fn spec_user(&self) -> User {
        match self {
            UserOrMember::User(u) => *u,
            UserOrMember::Member(u, _) => *u,
        }
    }

    /// The user, with or without membership.
    pub fn get_user(&self) -> (u: &User)
        ensures
            *u == self.spec_user(),
    {
        match self {
            UserOrMember::User(s) => s,
            UserOrMember::Member(u, _) => u,
        }
    }

    /// The membership, where one came along.
    pub fn get_member(&self) -> (m: Option<&PartialMember>)
        ensures
            match self {
                UserOrMember::User(_) => m is None,
                UserOrMember::Member(_, member) => m == Some(member),
            },
    {
        match self {
            UserOrMember::User(_) => None,
            UserOrMember::Member(_, m) => Some(m),
        }
    }

    /// The id of the user.
    pub fn id(&self) -> (id: &u64)
        ensures
            *id == self.spec_user().id,
    {
        match self {
            UserOrMember::User(u) => &u.id,
            UserOrMember::Member(u, _) => &u.id,
        }
    }
}

/// Something that can be mentioned: a user or a role.
#[derive(Debug, Clone, Copy, PartialEq, Eq, Structural)]
pub enum Mentionable {
    UserOrMember(UserOrMember),
    Role(Role),
}

impl Mentionable {
    /// The text that mentions the user or the role.
    pub open spec fn spec_mention(&self) -> Seq<char> {
        match self {
            Mentionable::UserOrMember(u) => spec_mention_user(u.spec_user().id),
            Mentionable::Role(r) => spec_mention_role(r.id),
        }
    }

    /// The text that mentions the user or the role.
    pub fn mention(&self) -> (s: String)
        ensures
            s@ == self.spec_mention(),
    {
        match self {
            Mentionable::UserOrMember(u) => mention_user(u.get_user().id),
            Mentionable::Role(r) => mention_role(r.id),
        }
    }
}

impl CommandDataOptionValue {
    /// The name of the kind of value.
    pub open spec fn spec_type_name(&self) -> Seq<char> {
        match self {
            CommandDataOptionValue::String(_) => "String"@,
            CommandDataOptionValue::Integer(_) => "Integer"@,
            CommandDataOptionValue::Boolean(_) => "Boolean"@,
            CommandDataOptionValue::User(_, _) => "User"@,
            CommandDataOptionValue::Channel(_) => "Channel"@,
            CommandDataOptionValue::Role(_) => "Role"@,
            CommandDataOptionValue::Other => "Unknown"@,
        }
    }

    /// The name of the kind of value.
    pub fn get_type_name(&self) -> (s: &'static str)
        ensures
            s@ == self.spec_type_name(),
    {
        match self {
            CommandDataOptionValue::String(_) => "String",
            CommandDataOptionValue::Integer(_) => "Integer",
            CommandDataOptionValue::Boolean(_) => "Boolean",
            CommandDataOptionValue::User(_, _) => "User",
            CommandDataOptionValue::Channel(_) => "Channel",
            CommandDataOptionValue::Role(_) => "Role",
            CommandDataOptionValue::Other => "Unknown",
        }
    }

    /// A copy of the value.
    pub fn duplicate(&self) -> (r: Self)
        ensures
            r == *self,
    {
        match self {
            CommandDataOptionValue::String(s) => CommandDataOptionValue::String(s.clone()),
            CommandDataOptionValue::Integer(i) => CommandDataOptionValue::Integer(*i),
            CommandDataOptionValue::Boolean(b) => CommandDataOptionValue::Boolean(*b),
            CommandDataOptionValue::User(u, m) => CommandDataOptionValue::User(*u, *m),
            CommandDataOptionValue::Channel(c) => CommandDataOptionValue::Channel(*c),
            CommandDataOptionValue::Role(r) => CommandDataOptionValue::Role(*r),
            CommandDataOptionValue::Other => CommandDataOptionValue::Other,
        }
    }
}

/// The value of one argument, with the name of the argument for messages.
#[derive(Debug)]
pub struct SlashValue {
    inner: Option<CommandDataOptionValue>,
    name: String,
}

impl SlashValue {
    /// The value, if the platform resolved one.
    pub closed spec fn spec_inner(&self) -> Option<CommandDataOptionValue> {
        self.inner
    }

    /// The name of the argument.
    pub closed spec fn spec_name(&self) -> String {
        self.name
    }

    /// The error for a value that is missing or not of the `expected` kind.
    pub open spec fn spec_mismatch(&self, expected: Seq<char>) -> ErrorView {
        match self.spec_inner() {
            Some(v) => ErrorView::WrongType {
                expected: expected,
                found: v.spec_type_name(),
                name: self.spec_name()@,
            },
            None => ErrorView::MissingValue { name: self.spec_name()@ },
        }
    }

    /// The value of the argument `name`.
    pub fn new(inner: Option<CommandDataOptionValue>, name: String) -> (v: Self)
        ensures
            v.spec_inner() == inner,
            v.spec_name() == name,
    {
        SlashValue { inner, name }
    }

    fn mismatch(&self, expected: &str) -> (e: Error)
        ensures
            e@ == self.spec_mismatch(expected@),
    {
        match &self.inner {
            Some(v) => Error::WrongType {
                expected: String::from_str(expected),
                found: String::from_str(v.get_type_name()),
                name: self.name.clone(),
            },
            None => Error::MissingValue { name: self.name.clone() },
        }
    }

    /// The value, where there is one.
    pub fn expect_some(&self) -> (r: Result<CommandDataOptionValue, Error>)
        ensures
            match r {
                Ok(v) => self.spec_inner() == Some(v),
                Err(e) => self.spec_inner() is None && e@ == (ErrorView::MissingValue {
                    name: self.spec_name()@,
                }),
            },
    {
        match &self.inner {
            Some(s) => Ok(s.duplicate()),
            None => Err(Error::MissingValue { name: self.name.clone() }),
        }
    }

    /// The value where it is a string.
    pub fn get_string(&self) -> (r: Result<String, Error>)
        ensures
            match r {
                Ok(v) => self.spec_inner() == Some(CommandDataOptionValue::String(v)),
                Err(e) => e@ == self.spec_mismatch("String"@) && !(self.spec_inner() matches Some(CommandDataOptionValue::String(_))),
            },
    {
        match &self.inner {
            Some(CommandDataOptionValue::String(s)) => Ok(s.clone()),
            _ => Err(self.mismatch("String")),
        }
    }

    /// The value where it is an integer.
    pub fn get_integer(&self) -> (r: Result<i64, Error>)
        ensures
            match r {
                Ok(v) => self.spec_inner() == Some(CommandDataOptionValue::Integer(v)),
                Err(e) => e@ == self.spec_mismatch("Integer"@) && !(self.spec_inner() matches Some(CommandDataOptionValue::Integer(_))),
            },
    {
        match &self.inner {
            Some(CommandDataOptionValue::Integer(s)) => Ok(*s),
            _ => Err(self.mismatch("Integer")),
        }
    }

    /// The value where it is a boolean.
    pub fn get_boolean(&self) -> (r: Result<bool, Error>)
        ensures
            match r {
                Ok(v) => self.spec_inner() == Some(CommandDataOptionValue::Boolean(v)),
                Err(e) => e@ == self.spec_mismatch("Boolean"@) && !(self.spec_inner() matches Some(CommandDataOptionValue::Boolean(_))),
            },
    {
        match &self.inner {
            Some(CommandDataOptionValue::Boolean(s)) => Ok(*s),
            _ => Err(self.mismatch("Boolean")),
        }
    }

    /// The value where it is a user, with the membership that came with it.
    pub fn get_user(&self) -> (r: Result<UserOrMember, Error>)
        ensures
            match r {
                Ok(v) => self.spec_inner() matches Some(CommandDataOptionValue::User(u, m)) && v == spec_from_pair(u, m),
                Err(e) => e@ == self.spec_mismatch("User"@) && !(self.spec_inner() matches Some(CommandDataOptionValue::User(_, _))),
            },
    {
        match &self.inner {
            Some(CommandDataOptionValue::User(u, m)) => Ok(UserOrMember::from_pair(*u, *m)),
            _ => Err(self.mismatch("User")),
        }
    }

    /// The value where it is a channel.
    pub fn get_channel(&self) -> (r: Result<PartialChannel, Error>)
        ensures
            match r {
                Ok(v) => self.spec_inner() == Some(CommandDataOptionValue::Channel(v)),
                Err(e) => e@ == self.spec_mismatch("Channel"@) && !(self.spec_inner() matches Some(CommandDataOptionValue::Channel(_))),
            },
    {
        match &self.inner {
            Some(CommandDataOptionValue::Channel(s)) => Ok(*s),
            _ => Err(self.mismatch("Channel")),
        }
    }

    /// The value where it is a role.
    pub fn get_role(&self) -> (r: Result<Role, Error>)
        ensures
            match r {
                Ok(v) => self.spec_inner() == Some(CommandDataOptionValue::Role(v)),
                Err(e) => e@ == self.spec_mismatch("Role"@) && !(self.spec_inner() matches Some(CommandDataOptionValue::Role(_))),
            },
    {
        match &self.inner {
            Some(CommandDataOptionValue::Role(s)) => Ok(*s),
            _ => Err(self.mismatch("Role")),
        }
    }

    /// The value where it is a user or a role.
    pub fn get_mentionable(&self) -> (r: Result<Mentionable, Error>)
        ensures
            match r {
                Ok(v) => match self.spec_inner() {
                    Some(CommandDataOptionValue::User(u, m)) => v == Mentionable::UserOrMember(
                        spec_from_pair(u, m),
                    ),
                    Some(CommandDataOptionValue::Role(role)) => v == Mentionable::Role(role),
                    _ => false,
                },
                Err(e) => e@ == self.spec_mismatch("Mentionable"@) && !(self.spec_inner() matches Some(
                    CommandDataOptionValue::User(_, _),
                )) && !(self.spec_inner() matches Some(CommandDataOptionValue::Role(_))),
            },
    {
        match &self.inner {
            Some(CommandDataOptionValue::User(u, m)) => Ok(
                Mentionable::UserOrMember(UserOrMember::from_pair(*u, *m)),
            ),
            Some(CommandDataOptionValue::Role(r)) => Ok(Mentionable::Role(*r)),
            _ => Err(self.mismatch("Mentionable")),
        }
    }
}

/// What reading the argument `name` as string gives.
pub open spec fn spec_get_string(args: Map<Seq<char>, SlashValue>, name: Seq<char>) -> Result<
    Seq<char>,
    ErrorView,
> {
    if !args.contains_key(name) {
        Err(ErrorView::MissingValue { name: name })
    } else {
        match args[name].spec_inner() {
            Some(CommandDataOptionValue::String(s)) => Ok(s@),
            _ => Err(args[name].spec_mismatch("String"@)),
        }
    }
}

/// What reading the argument `name` as integer gives.
pub open spec fn spec_get_integer(args: Map<Seq<char>, SlashValue>, name: Seq<char>) -> Result<
    i64,
    ErrorView,
> {
    if !args.contains_key(name) {
        Err(ErrorView::MissingValue { name: name })
    } else {
        match args[name].spec_inner() {
            Some(CommandDataOptionValue::Integer(i)) => Ok(i),
            _ => Err(args[name].spec_mismatch("Integer"@)),
        }
    }
}

/// What reading the argument `name` as boolean gives.
pub open spec fn spec_get_boolean(args: Map<Seq<char>, SlashValue>, name: Seq<char>) -> Result<
    bool,
    ErrorView,
> {
    if !args.contains_key(name) {
        Err(ErrorView::MissingValue { name: name })
    } else {
        match args[name].spec_inner() {
            Some(CommandDataOptionValue::Boolean(b)) => Ok(b),
            _ => Err(args[name].spec_mismatch("Boolean"@)),
        }
    }
}

/// What reading the argument `name` as user gives.
pub open spec fn spec_get_user(args: Map<Seq<char>, SlashValue>, name: Seq<char>) -> Result<
    UserOrMember,
    ErrorView,
> {
    if !args.contains_key(name) {
        Err(ErrorView::MissingValue { name: name })
    } else {
        match args[name].spec_inner() {
            Some(CommandDataOptionValue::User(u, m)) => Ok(spec_from_pair(u, m)),
            _ => Err(args[name].spec_mismatch("User"@)),
        }
    }
}

/// What reading the argument `name` as channel gives.
pub open spec fn spec_get_channel(args: Map<Seq<char>, SlashValue>, name: Seq<char>) -> Result<
    PartialChannel,
    ErrorView,
> {
    if !args.contains_key(name) {
        Err(ErrorView::MissingValue { name: name })
    } else {
        match args[name].spec_inner() {
            Some(CommandDataOptionValue::Channel(c)) => Ok(c),
            _ => Err(args[name].spec_mismatch("Channel"@)),
        }
    }
}

/// What reading the argument `name` as role gives.
pub open spec fn spec_get_role(args: Map<Seq<char>, SlashValue>, name: Seq<char>) -> Result<
    Role,
    ErrorView,
> {
    if !args.contains_key(name) {
        Err(ErrorView::MissingValue { name: name })
    } else {
        match args[name].spec_inner() {
            Some(CommandDataOptionValue::Role(r)) => Ok(r),
            _ => Err(args[name].spec_mismatch("Role"@)),
        }
    }
}

/// What reading the argument `name` as something to mention gives.
pub open spec fn spec_get_mentionable(args: Map<Seq<char>, SlashValue>, name: Seq<char>) -> Result<
    Mentionable,
    ErrorView,
> {
    if !args.contains_key(name) {
        Err(ErrorView::MissingValue { name: name })
    } else {
        match args[name].spec_inner() {
            Some(CommandDataOptionValue::User(u, m)) => Ok(
                Mentionable::UserOrMember(spec_from_pair(u, m)),
            ),
            Some(CommandDataOptionValue::Role(r)) => Ok(Mentionable::Role(r)),
            _ => Err(args[name].spec_mismatch("Mentionable"@)),
        }
    }
}

/// The arguments of a command by name.
#[derive(Debug)]
pub struct SlashMap(StringMap<SlashValue>);

impl SlashMap {
    /// The arguments by name.
    pub closed spec fn view(&self) -> Map<Seq<char>, SlashValue> {
        self.0@
    }

    /// The invariant of the type.
    pub closed spec fn wf(&self) -> bool {
        self.0.wf()
    }

    /// No arguments.
    pub fn new() -> (m: Self)
        ensures
            m.wf(),
            m@ == Map::<Seq<char>, SlashValue>::empty(),
    {
        SlashMap(StringMap::new())
    }

    /// Stores the value of the argument `name`; an earlier value is replaced.
    pub fn insert(&mut self, name: String, value: SlashValue)
        requires
            old(self).wf(),
        ensures
            final(self).wf(),
            final(self)@ == old(self)@.insert(name@, value),
    {
        self.0.insert(name, value);
    }

    /// The string stored under `name`.
    pub fn get_string(&self, name: &str) -> (r: Result<String, Error>)
        requires
            self.wf(),
        ensures
            match r {
                Ok(v) => spec_get_string(self@, name@) is Ok && v@ == spec_get_string(self@, name@)->Ok_0,
                Err(e) => spec_get_string(self@, name@) is Err && e@ == spec_get_string(self@, name@)->Err_0,
            },
    {
        match self.0.get(name) {
            Some(s) => s.get_string(),
            None => Err(Error::MissingValue { name: String::from_str(name) }),
        }
    }

    /// The integer stored under `name`.
    pub fn get_integer(&self, name: &str) -> (r: Result<i64, Error>)
        requires
            self.wf(),
        ensures
            match r {
                Ok(v) => spec_get_integer(self@, name@) is Ok && v == spec_get_integer(self@, name@)->Ok_0,
                Err(e) => spec_get_integer(self@, name@) is Err && e@ == spec_get_integer(self@, name@)->Err_0,
            },
    {
        match self.0.get(name) {
            Some(s) => s.get_integer(),
            None => Err(Error::MissingValue { name: String::from_str(name) }),
        }
    }

    /// The boolean stored under `name`.
    pub fn get_boolean(&self, name: &str) -> (r: Result<bool, Error>)
        requires
            self.wf(),
        ensures
            match r {
                Ok(v) => spec_get_boolean(self@, name@) is Ok && v == spec_get_boolean(self@, name@)->Ok_0,
                Err(e) => spec_get_boolean(self@, name@) is Err && e@ == spec_get_boolean(self@, name@)->Err_0,
            },
    {
        match self.0.get(name) {
            Some(s) => s.get_boolean(),
            None => Err(Error::MissingValue { name: String::from_str(name) }),
        }
    }

    /// The user stored under `name`.
    pub fn get_user(&self, name: &str) -> (r: Result<UserOrMember, Error>)
        requires
            self.wf(),
        ensures
            match r {
                Ok(v) => spec_get_user(self@, name@) is Ok && v == spec_get_user(self@, name@)->Ok_0,
                Err(e) => spec_get_user(self@, name@) is Err && e@ == spec_get_user(self@, name@)->Err_0,
            },
    {
        match self.0.get(name) {
            Some(s) => s.get_user(),
            None => Err(Error::MissingValue { name: String::from_str(name) }),
        }
    }

    /// The channel stored under `name`.
    pub fn get_channel(&self, name: &str) -> (r: Result<PartialChannel, Error>)
        requires
            self.wf(),
        ensures
            match r {
                Ok(v) => spec_get_channel(self@, name@) is Ok && v == spec_get_channel(self@, name@)->Ok_0,
                Err(e) => spec_get_channel(self@, name@) is Err && e@ == spec_get_channel(self@, name@)->Err_0,
            },
    {
        match self.0.get(name) {
            Some(s) => s.get_channel(),
            None => Err(Error::MissingValue { name: String::from_str(name) }),
        }
    }

    /// The role stored under `name`.
    pub fn get_role(&self, name: &str) -> (r: Result<Role, Error>)
        requires
            self.wf(),
        ensures
            match r {
                Ok(v) => spec_get_role(self@, name@) is Ok && v == spec_get_role(self@, name@)->Ok_0,
                Err(e) => spec_get_role(self@, name@) is Err && e@ == spec_get_role(self@, name@)->Err_0,
            },
    {
        match self.0.get(name) {
            Some(s) => s.get_role(),
            None => Err(Error::MissingValue { name: String::from_str(name) }),
        }
    }

    /// The user or role stored under `name`.
    pub fn get_mentionable(&self, name: &str) -> (r: Result<Mentionable, Error>)
        requires
            self.wf(),
        ensures
            match r {
                Ok(v) => spec_get_mentionable(self@, name@) is Ok && v == spec_get_mentionable(self@, name@)->Ok_0,
                Err(e) => spec_get_mentionable(self@, name@) is Err && e@ == spec_get_mentionable(self@, name@)->Err_0,
            },
    {
        match self.0.get(name) {
            Some(s) => s.get_mentionable(),
            None => Err(Error::MissingValue { name: String::from_str(name) }),
        }
    }
}

/// Types that can be read from the arguments of a command.
pub trait FromSlashMap {
    /// Reads a value from the arguments.
    fn from_slash_map(args: SlashMap) -> Result<Self, Error> where Self: Sized;
}

/// The arguments that the options of a leaf give: each option under its name,
/// a later option replacing an earlier one of the same name.
pub open spec fn spec_arguments(leaf: Seq<CommandDataOption>) -> Map<Seq<char>, SlashValue>
    decreases leaf.len(),
{
    if leaf.len() == 0 {
        Map::empty()
    } else {
        spec_arguments(leaf.drop_last()).insert(
            leaf.last().name@,
            spec_slash_value(leaf.last().resolved, leaf.last().name),
        )
    }
}

/// The value of an argument with its name.
pub closed spec fn spec_slash_value(inner: Option<CommandDataOptionValue>, name: String) -> SlashValue {
    SlashValue { inner, name }
}

/// A value made of a resolved value and a name holds just these.
pub proof fn lemma_slash_value(inner: Option<CommandDataOptionValue>, name: String)
    ensures
        spec_slash_value(inner, name).spec_inner() == inner,
        spec_slash_value(inner, name).spec_name() == name,
{
}

fn walk<'a>(options: &'a Vec<CommandDataOption>, path: &mut Vec<String>) -> (leaf: &'a Vec<
    CommandDataOption,
>)
    ensures
        *leaf == spec_leaf(*options),
        texts(final(path)@) == texts(old(path)@) + spec_path_below(*options),
    decreases options,
{
    if options.len() > 0 {
        let first = &options[0];
        match first.kind {
            CommandOptionType::Argument => {
                assert(texts(path@) =~= texts(old(path)@) + spec_path_below(*options));
                options
            },
            _ => {
                path.push(first.name.clone());
                let ghost mid = path@;
                let leaf = walk(&first.options, path);
                proof {
                    assert(texts(mid) =~= texts(old(path)@) + seq![first.name@]);
                    assert(texts(path@) =~= texts(old(path)@) + spec_path_below(*options));
                }
                leaf
            },
        }
    } else {
        assert(texts(path@) =~= texts(old(path)@) + spec_path_below(*options));
        options
    }
}

/// Resolves an invoked command into its path and the arguments of its leaf.
pub fn process(interaction: &CommandData) -> (out: (String, SlashMap))
    ensures
        out.0@ == spec_command_path(*interaction),
        out.1.wf(),
        out.1@ == spec_arguments(spec_leaf(interaction.options)@),
{
    let mut path: Vec<String> = Vec::new();
    path.push(interaction.name.clone());
    assert(texts(path@) =~= seq![interaction.name@]);
    let options = walk(&interaction.options, &mut path);
    let mut map = SlashMap::new();
    let mut i: usize = 0;
    assert(options@.take(0) =~= Seq::<CommandDataOption>::empty());
    while i < options.len()
        invariant
            i <= options.len(),
            map.wf(),
            map@ == spec_arguments(options@.take(i as int)),
        decreases options.len() - i,
    {
        let option = &options[i];
        proof {
            let next = options@.take(i + 1);
            assert(next.drop_last() =~= options@.take(i as int));
            assert(next.last() == *option);
        }
        let inner = match &option.resolved {
            Some(v) => Some(v.duplicate()),
            None => None,
        };
        map.insert(option.name.clone(), SlashValue { inner, name: option.name.clone() });
        i += 1;
    }
    assert(options@.take(options.len() as int) =~= options@);
    (join(&path, " "), map)
}

} // verus!

//! From an incoming interaction to the handler that is to run.
//!
//! Every command that needs a permission is guarded: outside a guild it fails,
//! and where the check denies it the handler is not run at all.

use std::collections::HashMap;
use vstd::prelude::*;
use crate::custom_ids::{parse_custom_id, spec_parse_custom_id, CustomIdType};
use crate::decode::{process, spec_arguments, spec_command_path, spec_leaf, CommandData, SlashMap};
use crate::error::BotError;
use crate::permissions::{PermissionType, PermissionsModule, Role};
use crate::text::{same_text, spec_starts_with, starts_with};

verus! {

broadcast use vstd::std_specs::hash::group_hash_axioms;

/// The slash commands.
#[derive(Debug, Clone, Copy, PartialEq, Eq, Structural)]
pub enum Command {
    Info,
    PermissionsList,
    PermissionsSet,
    PermissionsAdd,
    PermissionsRemove,
    PreviewsAdd,
    PreviewsRemove,
    PreviewsList,
    PreviewsArchive,
    PreviewsView,
    Timeout,
    Untimeout,
}

/// The command that a path names, if it names one.
pub open spec fn spec_resolve(path: Seq<char>) -> Option<Command> {
    if path == "info"@ {
        Some(Command::Info)
    } else if path == "permissions list"@ {
        Some(Command::PermissionsList)
    } else if path == "permissions set"@ {
        Some(Command::PermissionsSet)
    } else if path == "permissions add"@ {
        Some(Command::PermissionsAdd)
    } else if path == "permissions remove"@ {
        Some(Command::PermissionsRemove)
    } else if path == "previews add"@ {
        Some(Command::PreviewsAdd)
    } else if path == "previews remove"@ {
        Some(Command::PreviewsRemove)
    } else if path == "previews list"@ {
        Some(Command::PreviewsList)
    } else if path == "previews archive"@ {
        Some(Command::PreviewsArchive)
    } else if path == "previews view"@ {
        Some(Command::PreviewsView)
    } else if path == "timeout"@ {
        Some(Command::Timeout)
    } else if path == "untimeout"@ {
        Some(Command::Untimeout)
    } else {
        None
    }
}

/// The command that a path names, if it names one.
pub fn resolve(path: &str) -> (r: Option<Command>)
    ensures
        r == spec_resolve(path@),
{
    if same_text(path, "info") {
        Some(Command::Info)
    } else if same_text(path, "permissions list") {
        Some(Command::PermissionsList)
    } else if same_text(path, "permissions set") {
        Some(Command::PermissionsSet)
    } else if same_text(path, "permissions add") {
        Some(Command::PermissionsAdd)
    } else if same_text(path, "permissions remove") {
        Some(Command::PermissionsRemove)
    } else if same_text(path, "previews add") {
        Some(Command::PreviewsAdd)
    } else if same_text(path, "previews remove") {
        Some(Command::PreviewsRemove)
    } else if same_text(path, "previews list") {
        Some(Command::PreviewsList)
    } else if same_text(path, "previews archive") {
        Some(Command::PreviewsArchive)
    } else if same_text(path, "previews view") {
        Some(Command::PreviewsView)
    } else if same_text(path, "timeout") {
        Some(Command::Timeout)
    } else if same_text(path, "untimeout") {
        Some(Command::Untimeout)
    } else {
        None
    }
}

impl Command {
    /// The permission that the command asks for, if it asks for one.
    pub open spec fn spec_required(&self) -> Option<PermissionType> {
        match self {
            Command::Info => None,
            Command::PreviewsView => None,
            Command::PermissionsList => Some(PermissionType::ManagePermissions),
            Command::PermissionsSet => Some(PermissionType::ManagePermissions),
            Command::PermissionsAdd => Some(PermissionType::ManagePermissions),
            Command::PermissionsRemove => Some(PermissionType::ManagePermissions),
            Command::PreviewsAdd => Some(PermissionType::ManagePreviews),
            Command::PreviewsRemove => Some(PermissionType::ManagePreviews),
            Command::PreviewsList => Some(PermissionType::ManagePreviews),
            Command::PreviewsArchive => Some(PermissionType::ManagePreviews),
            Command::Timeout => Some(PermissionType::Timeout),
            Command::Untimeout => Some(PermissionType::Timeout),
        }
    }

    /// The permission that the command asks for, if it asks for one.
    pub fn required(&self) -> (p: Option<PermissionType>)
        ensures
            p == self.spec_required(),
    {
        match self {
            Command::Info => None,
            Command::PreviewsView => None,
            Command::PermissionsList => Some(PermissionType::ManagePermissions),
            Command::PermissionsSet => Some(PermissionType::ManagePermissions),
            Command::PermissionsAdd => Some(PermissionType::ManagePermissions),
            Command::PermissionsRemove => Some(PermissionType::ManagePermissions),
            Command::PreviewsAdd => Some(PermissionType::ManagePreviews),
            Command::PreviewsRemove => Some(PermissionType::ManagePreviews),
            Command::PreviewsList => Some(PermissionType::ManagePreviews),
            Command::PreviewsArchive => Some(PermissionType::ManagePreviews),
            Command::Timeout => Some(PermissionType::Timeout),
            Command::Untimeout => Some(PermissionType::Timeout),
        }
    }
}

/// What is known of the person who caused an interaction.
#[derive(Debug)]
pub struct Caller {
    /// The guild in which the interaction happened, if it happened in one.
    pub guild_id: Option<u64>,
    pub user_id: u64,
    /// The roles of the person as a member of the guild, where the
    /// interaction carried them.
    pub member_roles: Option<Vec<u64>>,
}

/// What the gateway's snapshot knows of a guild.
#[derive(Debug)]
pub struct GuildSnapshot {
    pub owner_id: u64,
    pub roles: HashMap<u64, Role>,
}

/// The roles among `ids` that the guild knows, in the order of `ids`.
pub open spec fn spec_upgrade(ids: Seq<u64>, known: Map<u64, Role>) -> Seq<Role>
    decreases ids.len(),
{
    if ids.len() == 0 {
        Seq::empty()
    } else if known.contains_key(ids.last()) {
        spec_upgrade(ids.drop_last(), known).push(known[ids.last()])
    } else {
        spec_upgrade(ids.drop_last(), known)
    }
}

/// Looks the roles of a member up in the guild; unknown roles are left out.
pub fn upgrade_roles(ids: &Vec<u64>, known: &HashMap<u64, Role>) -> (roles: Vec<Role>)
    ensures
        roles@ == spec_upgrade(ids@, known@),
{
    let mut roles: Vec<Role> = Vec::new();
    let mut i: usize = 0;
    assert(ids@.take(0) =~= Seq::<u64>::empty());
    while i < ids.len()
        invariant
            i <= ids.len(),
            roles@ == spec_upgrade(ids@.take(i as int), known@),
        decreases ids.len() - i,
    {
        assert(ids@.take(i + 1).drop_last() =~= ids@.take(i as int));
        match known.get(&ids[i]) {
            Some(role) => {
                roles.push(*role);
            },
            None => {},
        }
        i += 1;
    }
    assert(ids@.take(ids.len() as int) =~= ids@);
    roles
}

/// The outcome of asking for a permission.
#[derive(Debug, Clone, Copy, PartialEq, Eq, Structural)]
pub enum Verdict {
    /// The handler runs.
    Run,
    /// The handler does not run; the person is told which permission is missing.
    Denied(PermissionType),
}

/// The outcome as plain values: outside a guild the command
/// fails; so it does where the member or the guild is not in the snapshot;
/// else the check decides.
pub open spec fn spec_verdict(
    permissions: PermissionsModule,
    permission: PermissionType,
    caller: Caller,
    snapshot: Option<GuildSnapshot>,
) -> Result<Verdict, BotError> {
    if caller.guild_id is None {
        Err(BotError::GuildOnly)
    } else if caller.member_roles is None || snapshot is None {
        Err(BotError::CacheMissing)
    } else {
        match permissions.spec_check(
            permission,
            caller.guild_id->0,
            snapshot->0.owner_id,
            caller.user_id,
            spec_upgrade(caller.member_roles->0@, snapshot->0.roles@),
        ) {
            Some(missing) => Ok(Verdict::Denied(missing)),
            None => Ok(Verdict::Run),
        }
    }
}

/// What asking for a permission leaves of the cache: nothing is touched
/// where the question fails before the check, or where the check passes the
/// owner or a user of the sudo set; else the guild is populated.
pub open spec fn cache_after_verdict(
    before: PermissionsModule,
    after: PermissionsModule,
    caller: Caller,
    snapshot: Option<GuildSnapshot>,
) -> bool {
    if caller.guild_id is None || caller.member_roles is None || snapshot is None {
        after.cache()@ == before.cache()@
    } else {
        after.after_check(&before, caller.guild_id->0, snapshot->0.owner_id, caller.user_id)
    }
}

/// What routing leaves of the cache: where a permission is asked for, what
/// asking leaves of it; else it is not touched.
pub open spec fn cache_after_routing(
    asked: bool,
    before: PermissionsModule,
    after: PermissionsModule,
    caller: Caller,
    snapshot: Option<GuildSnapshot>,
) -> bool {
    if asked {
        cache_after_verdict(before, after, caller, snapshot)
    } else {
        after.cache()@ == before.cache()@
    }
}

/// Decides whether a command that asks for `permission` may run for this
/// caller. Nothing of the command has run when this returns.
pub fn ensure_permission(
    permissions: &mut PermissionsModule,
    permission: PermissionType,
    caller: &Caller,
    snapshot: Option<&GuildSnapshot>,
) -> (r: Result<Verdict, BotError>)
    requires
        old(permissions).wf(),
    ensures
        final(permissions).wf(),
        final(permissions).sudo() == old(permissions).sudo(),
        forall|g: u64, k: PermissionType|
            final(permissions).record_at(g, k) == old(permissions).record_at(g, k),
        cache_after_verdict(
            *old(permissions),
            *final(permissions),
            *caller,
            match snapshot {
                Some(s) => Some(*s),
                None => None,
            },
        ),
        r == spec_verdict(*old(permissions), permission, *caller, match snapshot {
            Some(s) => Some(*s),
            None => None,
        }),
{
    let guild_id = match caller.guild_id {
        Some(g) => g,
        None => {
            return Err(BotError::GuildOnly);
        },
    };
    let member_roles = match &caller.member_roles {
        Some(r) => r,
        None => {
            return Err(BotError::CacheMissing);
        },
    };
    let guild = match snapshot {
        Some(s) => s,
        None => {
            return Err(BotError::CacheMissing);
        },
    };
    let upgraded = upgrade_roles(member_roles, &guild.roles);
    match permissions.check(&permission, guild_id, guild.owner_id, caller.user_id, &upgraded) {
        Some(missing) => Ok(Verdict::Denied(missing)),
        None => Ok(Verdict::Run),
    }
}

/// The text that tells a person which permission is missing.
pub fn missing_permission_text(missing: &PermissionType) -> (s: String)
    ensures
        s@ == "Missing permission `"@ + missing.spec_display() + "`"@,
{
    let mut s = String::from_str("Missing permission `");
    s.append(missing.as_display());
    s.append("`");
    s
}

/// What is to be done about an interaction.
#[derive(Debug, Clone, Copy, PartialEq, Eq)]
pub enum Dispatch<T> {
    /// Nothing: the interaction is not ours, or names nothing that we know.
    Ignore,
    /// Tell the person which permission is missing. No handler runs.
    Denied(PermissionType),
    /// Run the handler.
    Run(T),
}

/// The commands of the context menu of a message.
#[derive(Debug, Clone, Copy, PartialEq, Eq, Structural)]
pub enum ContextCommand {
    Archive,
}

/// Where a guarded target ends up: it runs, is denied, or asking fails.
pub open spec fn spec_guarded<T>(
    permissions: PermissionsModule,
    permission: PermissionType,
    caller: Caller,
    snapshot: Option<GuildSnapshot>,
    target: T,
) -> Result<Dispatch<T>, BotError> {
    match spec_verdict(permissions, permission, caller, snapshot) {
        Err(e) => Err(e),
        Ok(Verdict::Run) => Ok(Dispatch::Run(target)),
        Ok(Verdict::Denied(missing)) => Ok(Dispatch::Denied(missing)),
    }
}

fn guarded<T>(
    permissions: &mut PermissionsModule,
    permission: PermissionType,
    caller: &Caller,
    snapshot: Option<&GuildSnapshot>,
    target: T,
) -> (r: Result<Dispatch<T>, BotError>)
    requires
        old(permissions).wf(),
    ensures
        final(permissions).wf(),
        final(permissions).sudo() == old(permissions).sudo(),
        forall|g: u64, k: PermissionType|
            final(permissions).record_at(g, k) == old(permissions).record_at(g, k),
        cache_after_verdict(
            *old(permissions),
            *final(permissions),
            *caller,
            match snapshot {
                Some(s) => Some(*s),
                None => None,
            },
        ),
        r == spec_guarded(*old(permissions), permission, *caller, match snapshot {
            Some(s) => Some(*s),
            None => None,
        }, target),
{
    match ensure_permission(permissions, permission, caller, snapshot) {
        Err(e) => Err(e),
        Ok(Verdict::Run) => Ok(Dispatch::Run(target)),
        Ok(Verdict::Denied(missing)) => Ok(Dispatch::Denied(missing)),
    }
}

/// What the router of slash commands decides for a command path.
pub open spec fn spec_chat_input(
    permissions: PermissionsModule,
    path: Seq<char>,
    caller: Caller,
    snapshot: Option<GuildSnapshot>,
) -> Result<Dispatch<Command>, BotError> {
    match spec_resolve(path) {
        None => Ok(Dispatch::Ignore),
        Some(command) => match command.spec_required() {
            None => Ok(Dispatch::Run(command)),
            Some(permission) => spec_guarded(permissions, permission, caller, snapshot, command),
        },
    }
}

/// Routes a slash command: resolves its path and arguments, and guards it
/// where it asks for a permission. A path that names no command is ignored.
pub fn chat_input_router(
    permissions: &mut PermissionsModule,
    data: &CommandData,
    caller: &Caller,
    snapshot: Option<&GuildSnapshot>,
) -> (r: Result<(Dispatch<Command>, SlashMap), BotError>)
    requires
        old(permissions).wf(),
    ensures
        final(permissions).wf(),
        final(permissions).sudo() == old(permissions).sudo(),
        forall|g: u64, k: PermissionType|
            final(permissions).record_at(g, k) == old(permissions).record_at(g, k),
        cache_after_routing(
            spec_resolve(spec_command_path(*data)) matches Some(c) && c.spec_required() is Some,
            *old(permissions),
            *final(permissions),
            *caller,
            match snapshot {
                Some(s) => Some(*s),
                None => None,
            },
        ),
        match r {
            Ok((dispatch, args)) => {
                &&& spec_chat_input(
                    *old(permissions),
                    spec_command_path(*data),
                    *caller,
                    match snapshot {
                        Some(s) => Some(*s),
                        None => None,
                    },
                ) == Ok::<Dispatch<Command>, BotError>(dispatch)
                &&& args.wf()
                &&& args@ == spec_arguments(spec_leaf(data.options)@)
            },
            Err(e) => spec_chat_input(
                *old(permissions),
                spec_command_path(*data),
                *caller,
                match snapshot {
                    Some(s) => Some(*s),
                    None => None,
                },
            ) == Err::<Dispatch<Command>, BotError>(e),
        },
{
    let (path, args) = process(data);
    let command = match resolve(path.as_str()) {
        Some(c) => c,
        None => {
            return Ok((Dispatch::Ignore, args));
        },
    };
    match command.required() {
        None => Ok((Dispatch::Run(command), args)),
        Some(permission) => match guarded(permissions, permission, caller, snapshot, command) {
            Ok(dispatch) => Ok((dispatch, args)),
            Err(e) => Err(e),
        },
    }
}

/// Routes a component by its identifier. Every kind of component asks for
/// the permission to manage permissions.
pub fn component_router(
    permissions: &mut PermissionsModule,
    custom_id: &str,
    caller: &Caller,
    snapshot: Option<&GuildSnapshot>,
) -> (r: Result<Dispatch<CustomIdType>, BotError>)
    requires
        old(permissions).wf(),
        custom_id@.contains(';'),
    ensures
        final(permissions).wf(),
        final(permissions).sudo() == old(permissions).sudo(),
        forall|g: u64, k: PermissionType|
            final(permissions).record_at(g, k) == old(permissions).record_at(g, k),
        cache_after_routing(
            spec_parse_custom_id(custom_id@) is Ok,
            *old(permissions),
            *final(permissions),
            *caller,
            match snapshot {
                Some(s) => Some(*s),
                None => None,
            },
        ),
        match spec_parse_custom_id(custom_id@) {
            Err(msg) => r matches Err(e) && e.is_invalid_request(msg),
            Ok((ty, _)) => r == spec_guarded(
                *old(permissions),
                PermissionType::ManagePermissions,
                *caller,
                match snapshot {
                    Some(s) => Some(*s),
                    None => None,
                },
                ty,
            ),
        },
{
    let (ty, _args) = match parse_custom_id(custom_id) {
        Ok(parsed) => parsed,
        Err(e) => {
            return Err(e);
        },
    };
    match ty {
        CustomIdType::ListPermissions => guarded(
            permissions,
            PermissionType::ManagePermissions,
            caller,
            snapshot,
            ty,
        ),
    }
}

/// Routes a command of the context menu of a message. The interaction must
/// carry the message; the only command is `Archive`.
pub fn message_router(
    permissions: &mut PermissionsModule,
    name: &str,
    has_message: bool,
    caller: &Caller,
    snapshot: Option<&GuildSnapshot>,
) -> (r: Result<Dispatch<ContextCommand>, BotError>)
    requires
        old(permissions).wf(),
    ensures
        final(permissions).wf(),
        final(permissions).sudo() == old(permissions).sudo(),
        forall|g: u64, k: PermissionType|
            final(permissions).record_at(g, k) == old(permissions).record_at(g, k),
        cache_after_routing(
            has_message && name@ == "Archive"@,
            *old(permissions),
            *final(permissions),
            *caller,
            match snapshot {
                Some(s) => Some(*s),
                None => None,
            },
        ),
        r == (if !has_message {
            Err(BotError::Internal(13))
        } else if name@ == "Archive"@ {
            spec_guarded(*old(permissions), PermissionType::CreateArchive, *caller, match snapshot {
                Some(s) => Some(*s),
                None => None,
            }, ContextCommand::Archive)
        } else {
            Ok(Dispatch::Ignore)
        }),
{
    if !has_message {
        return Err(BotError::Internal(13));
    }
    if same_text(name, "Archive") {
        guarded(permissions, PermissionType::CreateArchive, caller, snapshot, ContextCommand::Archive)
    } else {
        Ok(Dispatch::Ignore)
    }
}

/// Routes a command of the context menu of a user: there is none.
pub fn user_router() -> (r: Result<Dispatch<ContextCommand>, BotError>)
    ensures
        r == Ok::<Dispatch<ContextCommand>, BotError>(Dispatch::Ignore),
{
    Ok(Dispatch::Ignore)
}

/// The tag that every identifier of ours begins with.
pub const CUSTOM_ID_TAG: &'static str = "MAK;";

/// An identifier that begins with the tag holds the separator.
pub proof fn lemma_tagged_has_separator(custom_id: Seq<char>)
    requires
        spec_starts_with(custom_id, CUSTOM_ID_TAG@),
    ensures
        custom_id.contains(';'),
{
    reveal_strlit("MAK;");
    assert(custom_id.take(4)[3] == ';');
    assert(custom_id[3] == ';');
}

/// Handles a component interaction. An identifier that does not begin with
/// the tag belongs to someone else and is set aside before it is parsed.
pub fn component_interaction(
    permissions: &mut PermissionsModule,
    custom_id: &str,
    caller: &Caller,
    snapshot: Option<&GuildSnapshot>,
) -> (r: Result<Dispatch<CustomIdType>, BotError>)
    requires
        old(permissions).wf(),
    ensures
        final(permissions).wf(),
        final(permissions).sudo() == old(permissions).sudo(),
        forall|g: u64, k: PermissionType|
            final(permissions).record_at(g, k) == old(permissions).record_at(g, k),
        cache_after_routing(
            spec_starts_with(custom_id@, CUSTOM_ID_TAG@) && spec_parse_custom_id(custom_id@) is Ok,
            *old(permissions),
            *final(permissions),
            *caller,
            match snapshot {
                Some(s) => Some(*s),
                None => None,
            },
        ),
        if !spec_starts_with(custom_id@, CUSTOM_ID_TAG@) {
            r == Ok::<Dispatch<CustomIdType>, BotError>(Dispatch::Ignore)
        } else {
            match spec_parse_custom_id(custom_id@) {
                Err(msg) => r matches Err(e) && e.is_invalid_request(msg),
                Ok((ty, _)) => r == spec_guarded(
                    *old(permissions),
                    PermissionType::ManagePermissions,
                    *caller,
                    match snapshot {
                        Some(s) => Some(*s),
                        None => None,
                    },
                    ty,
                ),
            }
        },
{
    if !starts_with(custom_id, CUSTOM_ID_TAG) {
        return Ok(Dispatch::Ignore);
    }
    proof {
        lemma_tagged_has_separator(custom_id@);
    }
    component_router(permissions, custom_id, caller, snapshot)
}

/// An interaction as it comes in.
#[derive(Debug)]
pub enum Interaction<'a> {
    /// A slash command.
    ChatInput(&'a CommandData),
    /// A command of the context menu of a user.
    User,
    /// A command of the context menu of a message, by its name, and whether
    /// the interaction carries the message.
    Message { name: &'a str, has_message: bool },
    /// Any other kind of command.
    OtherCommand,
    /// A component, by its identifier.
    Component(&'a str),
    /// Anything else.
    Other,
}

/// What an interaction leads to.
#[derive(Debug)]
pub enum Routed {
    /// Nothing is to be done.
    Nothing,
    /// The person is told which permission is missing.
    Denied(PermissionType),
    /// The handler of a slash command runs with these arguments.
    Slash(Command, SlashMap),
    /// The handler of a command of the context menu runs.
    Context(ContextCommand),
    /// The handler of a component runs.
    Component(CustomIdType),
}

/// Whether an interaction leads to a question for a permission.
pub open spec fn spec_asks(interaction: Interaction) -> bool {
    match interaction {
        Interaction::ChatInput(data) => spec_resolve(spec_command_path(*data)) matches Some(c)
            && c.spec_required() is Some,
        Interaction::Message { name, has_message } => has_message && name@ == "Archive"@,
        Interaction::Component(custom_id) => spec_starts_with(custom_id@, CUSTOM_ID_TAG@)
            && spec_parse_custom_id(custom_id@) is Ok,
        _ => false,
    }
}

/// Whether a routed interaction is what a dispatch to `T` asks for, where
/// `run` says how a target is run.
pub open spec fn routed_as<T>(routed: Routed, dispatch: Dispatch<T>, run: spec_fn(T, Routed) -> bool) -> bool {
    match dispatch {
        Dispatch::Ignore => routed is Nothing,
        Dispatch::Denied(missing) => routed matches Routed::Denied(m) && m == missing,
        Dispatch::Run(target) => run(target, routed),
    }
}

/// Takes an interaction to its router. Failures come back to the caller,
/// who shows them to the person.
pub fn interaction_create(
    permissions: &mut PermissionsModule,
    interaction: &Interaction,
    caller: &Caller,
    snapshot: Option<&GuildSnapshot>,
) -> (r: Result<Routed, BotError>)
    requires
        old(permissions).wf(),
    ensures
        final(permissions).wf(),
        final(permissions).sudo() == old(permissions).sudo(),
        forall|g: u64, k: PermissionType|
            final(permissions).record_at(g, k) == old(permissions).record_at(g, k),
        cache_after_routing(
            spec_asks(*interaction),
            *old(permissions),
            *final(permissions),
            *caller,
            match snapshot {
                Some(s) => Some(*s),
                None => None,
            },
        ),
        match *interaction {
            Interaction::ChatInput(data) => match spec_chat_input(
                *old(permissions),
                spec_command_path(*data),
                *caller,
                match snapshot {
                    Some(s) => Some(*s),
                    None => None,
                },
            ) {
                Err(e) => r == Err::<Routed, BotError>(e),
                Ok(dispatch) => r matches Ok(routed) && routed_as(
                    routed,
                    dispatch,
                    |c: Command, routed: Routed|
                        routed matches Routed::Slash(command, args) && command == c && args.wf()
                            && args@ == spec_arguments(spec_leaf(data.options)@),
                ),
            },
            Interaction::Message { name, has_message } => if !has_message {
                r == Err::<Routed, BotError>(BotError::Internal(13))
            } else if name@ == "Archive"@ {
                match spec_guarded(
                    *old(permissions),
                    PermissionType::CreateArchive,
                    *caller,
                    match snapshot {
                        Some(s) => Some(*s),
                        None => None,
                    },
                    ContextCommand::Archive,
                ) {
                    Err(e) => r == Err::<Routed, BotError>(e),
                    Ok(dispatch) => r matches Ok(routed) && routed_as(
                        routed,
                        dispatch,
                        |c: ContextCommand, routed: Routed|
                            routed matches Routed::Context(command) && command == c,
                    ),
                }
            } else {
                r matches Ok(routed) && routed is Nothing
            },
            Interaction::Component(custom_id) => if !spec_starts_with(custom_id@, CUSTOM_ID_TAG@) {
                r matches Ok(routed) && routed is Nothing
            } else {
                match spec_parse_custom_id(custom_id@) {
                    Err(msg) => r matches Err(e) && e.is_invalid_request(msg),
                    Ok((ty, _)) => match spec_guarded(
                        *old(permissions),
                        PermissionType::ManagePermissions,
                        *caller,
                        match snapshot {
                            Some(s) => Some(*s),
                            None => None,
                        },
                        ty,
                    ) {
                        Err(e) => r == Err::<Routed, BotError>(e),
                        Ok(dispatch) => r matches Ok(routed) && routed_as(
                            routed,
                            dispatch,
                            |t: CustomIdType, routed: Routed|
                                routed matches Routed::Component(kind) && kind == t,
                        ),
                    },
                }
            },
            _ => r matches Ok(routed) && routed is Nothing,
        },
{
    match interaction {
        Interaction::ChatInput(data) => {
            match chat_input_router(permissions, data, caller, snapshot) {
                Err(e) => Err(e),
                Ok((Dispatch::Ignore, _)) => Ok(Routed::Nothing),
                Ok((Dispatch::Denied(missing), _)) => Ok(Routed::Denied(missing)),
                Ok((Dispatch::Run(command), args)) => Ok(Routed::Slash(command, args)),
            }
        },
        Interaction::User => {
            match user_router() {
                Err(e) => Err(e),
                Ok(_) => Ok(Routed::Nothing),
            }
        },
        Interaction::Message { name, has_message } => {
            match message_router(permissions, name, *has_message, caller, snapshot) {
                Err(e) => Err(e),
                Ok(Dispatch::Ignore) => Ok(Routed::Nothing),
                Ok(Dispatch::Denied(missing)) => Ok(Routed::Denied(missing)),
                Ok(Dispatch::Run(command)) => Ok(Routed::Context(command)),
            }
        },
        Interaction::Component(custom_id) => {
            match component_interaction(permissions, custom_id, caller, snapshot) {
                Err(e) => Err(e),
                Ok(Dispatch::Ignore) => Ok(Routed::Nothing),
                Ok(Dispatch::Denied(missing)) => Ok(Routed::Denied(missing)),
                Ok(Dispatch::Run(kind)) => Ok(Routed::Component(kind)),
            }
        },
        _ => Ok(Routed::Nothing),
    }
}

} // verus!

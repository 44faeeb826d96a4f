use makita::custom_ids::CustomIdType;
use makita::decode::{CommandData, CommandDataOption, CommandDataOptionValue, CommandOptionType, Error};
use makita::error::{BotError, CommandError};
use makita::permissions::{PermissionType, PermissionsModule, Role, ADMINISTRATOR};
use makita::router::{
    chat_input_router, component_interaction, component_router, ensure_permission,
    interaction_create, message_router, missing_permission_text, resolve, upgrade_roles,
    user_router, Caller, Command, ContextCommand, Dispatch, GuildSnapshot, Interaction, Routed,
    Verdict,
};
use std::collections::HashMap;

const GUILD: u64 = 10;
const OWNER: u64 = 1;
const USER: u64 = 2;

fn snapshot(roles: Vec<Role>) -> GuildSnapshot {
    let mut map = HashMap::new();
    for r in roles {
        map.insert(r.id, r);
    }
    GuildSnapshot { owner_id: OWNER, roles: map }
}

fn caller(user: u64, roles: Vec<u64>) -> Caller {
    Caller { guild_id: Some(GUILD), user_id: user, member_roles: Some(roles) }
}

fn slash(name: &str, sub: Option<&str>) -> CommandData {
    let options = match sub {
        Some(s) => vec![CommandDataOption {
            name: s.to_string(),
            kind: CommandOptionType::SubCommand,
            options: vec![CommandDataOption {
                name: "permission".to_string(),
                kind: CommandOptionType::Argument,
                options: Vec::new(),
                resolved: Some(CommandDataOptionValue::String("Timeout".to_string())),
            }],
            resolved: None,
        }],
        None => Vec::new(),
    };
    CommandData { name: name.to_string(), options }
}

#[test]
fn paths_resolve_to_commands() {
    assert_eq!(resolve("info"), Some(Command::Info));
    assert_eq!(resolve("permissions list"), Some(Command::PermissionsList));
    assert_eq!(resolve("permissions set"), Some(Command::PermissionsSet));
    assert_eq!(resolve("permissions add"), Some(Command::PermissionsAdd));
    assert_eq!(resolve("permissions remove"), Some(Command::PermissionsRemove));
    assert_eq!(resolve("previews add"), Some(Command::PreviewsAdd));
    assert_eq!(resolve("previews remove"), Some(Command::PreviewsRemove));
    assert_eq!(resolve("previews list"), Some(Command::PreviewsList));
    assert_eq!(resolve("previews archive"), Some(Command::PreviewsArchive));
    assert_eq!(resolve("previews view"), Some(Command::PreviewsView));
    assert_eq!(resolve("timeout"), Some(Command::Timeout));
    assert_eq!(resolve("untimeout"), Some(Command::Untimeout));
    assert_eq!(resolve("permissions"), None);
    assert_eq!(resolve("Info"), None);
    assert_eq!(resolve(""), None);
}

#[test]
fn required_permissions() {
    assert_eq!(Command::Info.required(), None);
    assert_eq!(Command::PreviewsView.required(), None);
    assert_eq!(Command::PermissionsAdd.required(), Some(PermissionType::ManagePermissions));
    assert_eq!(Command::PreviewsArchive.required(), Some(PermissionType::ManagePreviews));
    assert_eq!(Command::Untimeout.required(), Some(PermissionType::Timeout));
}

#[test]
fn unknown_roles_are_left_out() {
    let snap = snapshot(vec![
        Role { id: 5, guild_id: GUILD, permissions: 1, position: 0 },
        Role { id: 6, guild_id: GUILD, permissions: 2, position: 0 },
    ]);
    let upgraded = upgrade_roles(&vec![6, 7, 5], &snap.roles);
    assert_eq!(upgraded.iter().map(|r| r.id).collect::<Vec<u64>>(), vec![6, 5]);
}

#[test]
fn guild_only_comes_before_everything() {
    let mut permissions = PermissionsModule::new();
    let outside = Caller { guild_id: None, user_id: OWNER, member_roles: None };
    let r = ensure_permission(&mut permissions, PermissionType::Timeout, &outside, None);
    assert_eq!(r, Err(BotError::GuildOnly));
}

#[test]
fn missing_member_or_guild_is_cache_missing() {
    let mut permissions = PermissionsModule::new();
    let snap = snapshot(vec![]);
    let no_member = Caller { guild_id: Some(GUILD), user_id: USER, member_roles: None };
    assert_eq!(
        ensure_permission(&mut permissions, PermissionType::Timeout, &no_member, Some(&snap)),
        Err(BotError::CacheMissing)
    );
    assert_eq!(
        ensure_permission(&mut permissions, PermissionType::Timeout, &caller(USER, vec![]), None),
        Err(BotError::CacheMissing)
    );
}

#[test]
fn denied_names_the_missing_permission() {
    let mut permissions = PermissionsModule::new();
    let snap = snapshot(vec![]);
    let r = ensure_permission(&mut permissions, PermissionType::Timeout, &caller(USER, vec![]), Some(&snap));
    assert_eq!(r, Ok(Verdict::Denied(PermissionType::Timeout)));
    assert_eq!(missing_permission_text(&PermissionType::ManagePreviews), "Missing permission `Manage Previews`");
}

#[test]
fn owner_and_administrator_run() {
    let mut permissions = PermissionsModule::new();
    let snap = snapshot(vec![Role { id: 5, guild_id: GUILD, permissions: ADMINISTRATOR, position: 0 }]);
    assert_eq!(
        ensure_permission(&mut permissions, PermissionType::Timeout, &caller(OWNER, vec![]), Some(&snap)),
        Ok(Verdict::Run)
    );
    assert_eq!(
        ensure_permission(&mut permissions, PermissionType::Timeout, &caller(USER, vec![5]), Some(&snap)),
        Ok(Verdict::Run)
    );
    assert_eq!(
        ensure_permission(&mut permissions, PermissionType::Timeout, &caller(USER, vec![6]), Some(&snap)),
        Ok(Verdict::Denied(PermissionType::Timeout))
    );
}

#[test]
fn chat_input_runs_ungated_commands_anywhere() {
    let mut permissions = PermissionsModule::new();
    let outside = Caller { guild_id: None, user_id: USER, member_roles: None };
    let (dispatch, _) = chat_input_router(&mut permissions, &slash("info", None), &outside, None).unwrap();
    assert_eq!(dispatch, Dispatch::Run(Command::Info));
    let (dispatch, args) =
        chat_input_router(&mut permissions, &slash("previews", Some("view")), &outside, None).unwrap();
    assert_eq!(dispatch, Dispatch::Run(Command::PreviewsView));
    assert_eq!(args.get_string("permission").unwrap(), "Timeout");
}

#[test]
fn chat_input_ignores_unknown_paths() {
    let mut permissions = PermissionsModule::new();
    let (dispatch, _) =
        chat_input_router(&mut permissions, &slash("nothing", None), &caller(USER, vec![]), None).unwrap();
    assert_eq!(dispatch, Dispatch::Ignore);
}

#[test]
fn chat_input_gates_by_permission() {
    let mut permissions = PermissionsModule::new();
    let snap = snapshot(vec![]);
    let data = slash("permissions", Some("set"));
    let (dispatch, _) =
        chat_input_router(&mut permissions, &data, &caller(USER, vec![]), Some(&snap)).unwrap();
    assert_eq!(dispatch, Dispatch::Denied(PermissionType::ManagePermissions));
    let (dispatch, args) =
        chat_input_router(&mut permissions, &data, &caller(OWNER, vec![]), Some(&snap)).unwrap();
    assert_eq!(dispatch, Dispatch::Run(Command::PermissionsSet));
    assert_eq!(args.get_string("permission").unwrap(), "Timeout");
    let outside = Caller { guild_id: None, user_id: OWNER, member_roles: None };
    assert_eq!(
        chat_input_router(&mut permissions, &data, &outside, Some(&snap)).unwrap_err(),
        BotError::GuildOnly
    );
}

#[test]
fn component_of_someone_else_is_set_aside() {
    let mut permissions = PermissionsModule::new();
    let snap = snapshot(vec![]);
    for id in ["", "MAK", "mak;ListPermissions", "OTHER;ListPermissions", "no separator at all"] {
        let r = component_interaction(&mut permissions, id, &caller(OWNER, vec![]), Some(&snap));
        assert_eq!(r, Ok(Dispatch::Ignore));
    }
}

#[test]
fn component_is_parsed_and_gated() {
    let mut permissions = PermissionsModule::new();
    let snap = snapshot(vec![]);
    let run = component_interaction(&mut permissions, "MAK;ListPermissions", &caller(OWNER, vec![]), Some(&snap));
    assert_eq!(run, Ok(Dispatch::Run(CustomIdType::ListPermissions)));
    let denied = component_router(&mut permissions, "MAK;ListPermissions;a=1", &caller(USER, vec![]), Some(&snap));
    assert_eq!(denied, Ok(Dispatch::Denied(PermissionType::ManagePermissions)));
    let bad = component_interaction(&mut permissions, "MAK;Unknown", &caller(OWNER, vec![]), Some(&snap));
    assert_eq!(bad, Err(BotError::InvalidRequest("Invalid CustomID type Unknown".to_string())));
    let bare = component_interaction(&mut permissions, "MAK;", &caller(OWNER, vec![]), Some(&snap));
    assert_eq!(bare, Err(BotError::InvalidRequest("Invalid CustomID type ".to_string())));
}

#[test]
fn message_commands() {
    let mut permissions = PermissionsModule::new();
    let snap = snapshot(vec![]);
    let owner = caller(OWNER, vec![]);
    assert_eq!(
        message_router(&mut permissions, "Archive", false, &owner, Some(&snap)),
        Err(BotError::Internal(13))
    );
    assert_eq!(
        message_router(&mut permissions, "Archive", true, &owner, Some(&snap)),
        Ok(Dispatch::Run(ContextCommand::Archive))
    );
    assert_eq!(
        message_router(&mut permissions, "Archive", true, &caller(USER, vec![]), Some(&snap)),
        Ok(Dispatch::Denied(PermissionType::CreateArchive))
    );
    assert_eq!(message_router(&mut permissions, "Other", true, &owner, Some(&snap)), Ok(Dispatch::Ignore));
    assert_eq!(user_router(), Ok(Dispatch::Ignore));
}

#[test]
fn interactions_reach_their_router() {
    let mut permissions = PermissionsModule::new();
    let snap = snapshot(vec![]);
    let owner = caller(OWNER, vec![]);
    let data = slash("permissions", Some("add"));
    let routed = interaction_create(&mut permissions, &Interaction::ChatInput(&data), &owner, Some(&snap)).unwrap();
    assert!(matches!(routed, Routed::Slash(Command::PermissionsAdd, _)));
    let routed = interaction_create(&mut permissions, &Interaction::User, &owner, Some(&snap)).unwrap();
    assert!(matches!(routed, Routed::Nothing));
    let routed = interaction_create(&mut permissions, &Interaction::OtherCommand, &owner, Some(&snap)).unwrap();
    assert!(matches!(routed, Routed::Nothing));
    let routed = interaction_create(&mut permissions, &Interaction::Other, &owner, Some(&snap)).unwrap();
    assert!(matches!(routed, Routed::Nothing));
    let routed = interaction_create(
        &mut permissions,
        &Interaction::Message { name: "Archive", has_message: true },
        &owner,
        Some(&snap),
    )
    .unwrap();
    assert!(matches!(routed, Routed::Context(ContextCommand::Archive)));
    let routed =
        interaction_create(&mut permissions, &Interaction::Component("MAK;ListPermissions"), &owner, Some(&snap))
            .unwrap();
    assert!(matches!(routed, Routed::Component(CustomIdType::ListPermissions)));
    let routed =
        interaction_create(&mut permissions, &Interaction::Component("else"), &owner, Some(&snap)).unwrap();
    assert!(matches!(routed, Routed::Nothing));
    let routed = interaction_create(
        &mut permissions,
        &Interaction::Component("MAK;ListPermissions"),
        &caller(USER, vec![]),
        Some(&snap),
    )
    .unwrap();
    assert!(matches!(routed, Routed::Denied(PermissionType::ManagePermissions)));
}

#[test]
fn errors_as_shown_to_the_person() {
    let ours = CommandError::Bot(BotError::GuildOnly);
    assert!(ours.is_bot_error());
    assert_eq!(ours.render(), "Command must be run in a server");
    let decode = CommandError::Decode(Error::MissingValue { name: "reason".to_string() });
    assert!(!decode.is_bot_error());
    assert_eq!(decode.render(), "Internal error: Missing value in field `reason`");
    let other = CommandError::Other("connection reset".to_string());
    assert!(!other.is_bot_error());
    assert_eq!(other.render(), "Internal error: connection reset");
}

#[test]
fn every_bot_error_has_its_text() {
    assert_eq!(BotError::Generic("as it is".to_string()).message(), "as it is");
    assert_eq!(BotError::Internal(13).message(), "Internal error code `13`");
    assert_eq!(BotError::Internal(0).message(), "Internal error code `0`");
    assert_eq!(BotError::GuildOnly.message(), "Command must be run in a server");
    assert_eq!(BotError::CacheMissing.message(), "Cache failure, please try again later");
    assert_eq!(BotError::InvalidRequest("x".to_string()).message(), "Invalid request: `x`");
    assert_eq!(BotError::WrongGuild.message(), "Can't refer to data from another server");
    assert_eq!(BotError::NotFound("Server".to_string()).message(), "Server not found");
}

use makita::decode::{CommandDataOptionValue, Error, PartialMember, SlashMap, SlashValue, User};
use makita::error::{BotError, CommandError};
use makita::permission_commands::{read_add_args, read_remove_args, read_set_args, GrantArgs, SetArgs};
use makita::permissions::{PermissionRow, PermissionType, PermissionsModule, Role};

const GUILD: u64 = 10;

fn args(pairs: Vec<(&str, CommandDataOptionValue)>) -> SlashMap {
    let mut map = SlashMap::new();
    for (name, value) in pairs {
        map.insert(name.to_string(), SlashValue::new(Some(value), name.to_string()));
    }
    map
}

fn kind(name: &str) -> (&'static str, CommandDataOptionValue) {
    ("permission", CommandDataOptionValue::String(name.to_string()))
}

fn user(id: u64) -> (&'static str, CommandDataOptionValue) {
    ("user", CommandDataOptionValue::User(User { id, bot: false }, Some(PartialMember { pending: false })))
}

fn role(id: u64, guild: u64) -> (&'static str, CommandDataOptionValue) {
    ("role", CommandDataOptionValue::Role(Role { id, guild_id: guild, permissions: 0, position: 0 }))
}

fn bits(n: i64) -> (&'static str, CommandDataOptionValue) {
    ("bits", CommandDataOptionValue::Integer(n))
}

fn bot_error<T: std::fmt::Debug>(r: Result<T, CommandError>) -> BotError {
    match r {
        Err(CommandError::Bot(e)) => e,
        other => panic!("expected a bot error, got {:?}", other),
    }
}

fn decode_error<T: std::fmt::Debug>(r: Result<T, CommandError>) -> Error {
    match r {
        Err(CommandError::Decode(e)) => e,
        other => panic!("expected a decode error, got {:?}", other),
    }
}

#[test]
fn set_reads_kind_bits_and_guild() {
    let read = read_set_args(Some(GUILD), &args(vec![kind("Timeout"), bits(40)])).unwrap();
    assert_eq!(read, SetArgs { guild: GUILD, ty: PermissionType::Timeout, bits: 40 });
}

#[test]
fn set_errors_in_order() {
    assert_eq!(
        decode_error(read_set_args(None, &args(vec![bits(-1)]))),
        Error::MissingValue { name: "permission".to_string() }
    );
    assert_eq!(
        bot_error(read_set_args(None, &args(vec![kind("Nope"), bits(-1)]))),
        BotError::InvalidRequest("Invalid permission name Nope".to_string())
    );
    assert_eq!(
        decode_error(read_set_args(None, &args(vec![kind("Timeout")]))),
        Error::MissingValue { name: "bits".to_string() }
    );
    assert_eq!(
        bot_error(read_set_args(None, &args(vec![kind("Timeout"), bits(-1)]))),
        BotError::InvalidRequest("Invalid permissions bits".to_string())
    );
    assert_eq!(bot_error(read_set_args(None, &args(vec![kind("Timeout"), bits(8)]))), BotError::GuildOnly);
}

#[test]
fn only_known_native_permissions_are_accepted() {
    let all = (1i64 << 41) - 1;
    assert_eq!(read_set_args(Some(GUILD), &args(vec![kind("Timeout"), bits(all)])).unwrap().bits, all as u64);
    assert_eq!(read_set_args(Some(GUILD), &args(vec![kind("Timeout"), bits(0)])).unwrap().bits, 0);
    for bad in [1i64 << 41, all + 1, i64::MAX, i64::MIN, -1] {
        assert_eq!(
            bot_error(read_set_args(Some(GUILD), &args(vec![kind("Timeout"), bits(bad)]))),
            BotError::InvalidRequest("Invalid permissions bits".to_string())
        );
    }
}

#[test]
fn set_command_changes_only_the_floor() {
    let mut module = PermissionsModule::new();
    module.grant(GUILD, &PermissionType::Timeout, Some(5), None);
    let row = module.permissions_set(Some(GUILD), &args(vec![kind("Timeout"), bits(6)])).unwrap();
    assert_eq!(
        row,
        PermissionRow { guild_id: 10, kind: PermissionType::Timeout, overwrites: 6, roles: vec![], users: vec![5] }
    );
    assert_eq!(module.list_record(GUILD, &PermissionType::Timeout), (6, vec![], vec![5]));
    assert!(module.permissions_set(Some(GUILD), &args(vec![kind("Timeout"), bits(-6)])).is_err());
    assert_eq!(module.list_record(GUILD, &PermissionType::Timeout).0, 6);
}

#[test]
fn add_reads_user_and_role() {
    let read = read_add_args(Some(GUILD), &args(vec![kind("Timeout"), user(5), role(6, GUILD)])).unwrap();
    assert_eq!(read, GrantArgs { guild: GUILD, ty: PermissionType::Timeout, user: Some(5), role: Some(6) });
    let read = read_add_args(Some(GUILD), &args(vec![kind("Timeout"), user(5)])).unwrap();
    assert_eq!(read.role, None);
    let read = read_add_args(Some(GUILD), &args(vec![kind("Timeout"), role(6, GUILD)])).unwrap();
    assert_eq!(read.user, None);
}

#[test]
fn add_errors_in_order() {
    assert!(matches!(read_add_args(None, &args(vec![user(5)])), Err(CommandError::Decode(_))));
    assert_eq!(bot_error(read_add_args(None, &args(vec![kind("Timeout")]))), BotError::GuildOnly);
    assert_eq!(
        bot_error(read_add_args(Some(GUILD), &args(vec![kind("Timeout"), user(5), role(6, GUILD + 1)]))),
        BotError::WrongGuild
    );
    assert_eq!(
        bot_error(read_add_args(Some(GUILD), &args(vec![kind("Timeout")]))),
        BotError::Generic("Must specify either `user` or `role`".to_string())
    );
}

#[test]
fn add_command_grants() {
    let mut module = PermissionsModule::new();
    let row = module.permissions_add(Some(GUILD), &args(vec![kind("CreateArchive"), user(5)])).unwrap();
    assert_eq!(row.users, vec![5]);
    assert_eq!(row.kind, PermissionType::CreateArchive);
    assert_eq!(module.check(&PermissionType::CreateArchive, GUILD, 1, 5, &Vec::new()), None);
    assert!(module.permissions_add(Some(GUILD), &args(vec![kind("CreateArchive")])).is_err());
}

#[test]
fn remove_errors_in_order() {
    assert_eq!(
        bot_error(read_remove_args(None, &args(vec![kind("Timeout")]))),
        BotError::Generic("Must specify either `user` or `role`".to_string())
    );
    assert_eq!(bot_error(read_remove_args(None, &args(vec![kind("Timeout"), user(5)]))), BotError::GuildOnly);
    let read = read_remove_args(Some(GUILD), &args(vec![kind("Timeout"), role(6, GUILD + 1)])).unwrap();
    assert_eq!(read.role, Some(6));
}

fn generic(text: &str) -> BotError {
    BotError::Generic(text.to_string())
}

#[test]
fn remove_command_reports_each_absent_id() {
    let mut module = PermissionsModule::new();
    let both = args(vec![kind("Timeout"), user(5), role(6, GUILD)]);
    let done = module.permissions_remove(Some(GUILD), &both).unwrap();
    assert_eq!(done.complaints, vec![generic("User <@5> not added"), generic("Role <@&6> not added")]);
    assert_eq!(done.answer(), Some(generic("User <@5> not added\nRole <@&6> not added")));
    assert_eq!(module.list_record(GUILD, &PermissionType::Timeout).1, Vec::<u64>::new());
    assert_eq!(module.list_record(GUILD, &PermissionType::Timeout).2, Vec::<u64>::new());

    module.grant(GUILD, &PermissionType::Timeout, Some(5), None);
    let done = module.permissions_remove(Some(GUILD), &both).unwrap();
    assert_eq!(done.complaints, vec![generic("Role <@&6> not added")]);
    assert_eq!(done.answer(), Some(generic("Role <@&6> not added")));
    assert!(done.row.users.is_empty());
}

#[test]
fn remove_command_reports_only_what_was_named() {
    let mut module = PermissionsModule::new();
    let done = module.permissions_remove(Some(GUILD), &args(vec![kind("Timeout"), user(5)])).unwrap();
    assert_eq!(done.complaints, vec![generic("User <@5> not added")]);
    let done =
        module.permissions_remove(Some(GUILD), &args(vec![kind("Timeout"), role(6, GUILD)])).unwrap();
    assert_eq!(done.complaints, vec![generic("Role <@&6> not added")]);
}

#[test]
fn remove_command_partial_success() {
    let mut module = PermissionsModule::new();
    module.grant(GUILD, &PermissionType::Timeout, None, Some(6));
    let both = args(vec![kind("Timeout"), user(5), role(6, GUILD)]);
    let done = module.permissions_remove(Some(GUILD), &both).unwrap();
    assert_eq!(done.complaints, vec![generic("User <@5> not added")]);
    assert!(done.row.roles.is_empty());
    assert_eq!(module.list_record(GUILD, &PermissionType::Timeout).1, Vec::<u64>::new());
    module.grant(GUILD, &PermissionType::Timeout, Some(5), Some(6));
    let done = module.permissions_remove(Some(GUILD), &both).unwrap();
    assert!(done.complaints.is_empty());
    assert_eq!(done.answer(), None);
}

#[test]
fn menu_of_kinds() {
    let menu = PermissionsModule::permissions_list();
    assert_eq!(menu.custom_id, "MAK;ListPermissions");
    assert!(menu.custom_id.chars().count() <= makita::custom_ids::CUSTOM_ID_LIMIT);
    assert_eq!(menu.placeholder, None);
    let values: Vec<&str> = menu.options.iter().map(|o| o.value).collect();
    assert_eq!(values, vec!["Administrator", "ManagePermissions", "ManagePreviews", "CreateArchive", "Timeout"]);
    assert_eq!(menu.options[1].label, "Manage Permissions");
    assert_eq!(menu.options[3].description, "Create entries in the archive channel");
    assert_eq!(PermissionType::build_select_menu_options(), menu.options);
}

#[test]
fn listing_of_a_default_record() {
    let mut module = PermissionsModule::new();
    let listing = module.permissions_list_component(Some(GUILD), &vec!["CreateArchive".to_string()]).unwrap();
    assert_eq!(listing.title, "Create Archive");
    assert_eq!(listing.fields, vec![("Default", "Manage Messages".to_string())]);
    assert_eq!(listing.menu.placeholder, Some("Create Archive"));
    assert_eq!(listing.menu.custom_id, "MAK;ListPermissions");
    assert_eq!(listing.menu.options.len(), 5);
}

#[test]
fn listing_names_native_permissions() {
    let mut module = PermissionsModule::new();
    module.set_floor(GUILD, &PermissionType::Timeout, (1 << 3) | (1 << 5) | (1 << 13));
    let listing = module.permissions_list_component(Some(GUILD), &vec!["Timeout".to_string()]).unwrap();
    assert_eq!(
        listing.fields,
        vec![("Default", "Administrator, Manage Guilds and Manage Messages".to_string())]
    );
    module.set_floor(GUILD, &PermissionType::Timeout, 0);
    let listing = module.permissions_list_component(Some(GUILD), &vec!["Timeout".to_string()]).unwrap();
    assert_eq!(listing.fields, vec![("Default", String::new())]);
}

#[test]
fn listing_with_grants() {
    let mut module = PermissionsModule::new();
    module.grant(GUILD, &PermissionType::Timeout, Some(7), Some(8));
    module.grant(GUILD, &PermissionType::Timeout, Some(5), None);
    let listing =
        module.permissions_list_component(Some(GUILD), &vec!["Timeout".to_string(), "more".to_string()]).unwrap();
    assert_eq!(
        listing.fields,
        vec![
            ("Roles", "<@&8>".to_string()),
            ("Users", "<@5>\n<@7>".to_string()),
            ("Default", "Moderate Members".to_string()),
        ]
    );
}

#[test]
fn listing_errors() {
    let mut module = PermissionsModule::new();
    assert_eq!(
        module.permissions_list_component(Some(GUILD), &vec![]).unwrap_err(),
        BotError::InvalidRequest("Missing component values".to_string())
    );
    assert_eq!(
        module.permissions_list_component(None, &vec!["Bad".to_string()]).unwrap_err(),
        BotError::InvalidRequest("Invalid permission name Bad".to_string())
    );
    assert_eq!(
        module.permissions_list_component(None, &vec!["Timeout".to_string()]).unwrap_err(),
        BotError::GuildOnly
    );
}

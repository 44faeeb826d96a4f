use makita::decode::{
    process, CommandData, CommandDataOption, CommandDataOptionValue, CommandOptionType, Error,
    FromSlashMap, Mentionable, PartialChannel, PartialMember, SlashMap, SlashValue, User,
    UserOrMember,
};
use makita::permissions::Role;

fn argument(name: &str, value: Option<CommandDataOptionValue>) -> CommandDataOption {
    CommandDataOption {
        name: name.to_string(),
        kind: CommandOptionType::Argument,
        options: Vec::new(),
        resolved: value,
    }
}

fn sub(name: &str, kind: CommandOptionType, options: Vec<CommandDataOption>) -> CommandDataOption {
    CommandDataOption { name: name.to_string(), kind, options, resolved: None }
}

fn text(s: &str) -> Option<CommandDataOptionValue> {
    Some(CommandDataOptionValue::String(s.to_string()))
}

#[test]
fn command_without_options() {
    let data = CommandData { name: "info".to_string(), options: Vec::new() };
    let (path, args) = process(&data);
    assert_eq!(path, "info");
    assert!(matches!(args.get_string("x"), Err(Error::MissingValue { .. })));
}

#[test]
fn command_with_arguments_only() {
    let data = CommandData {
        name: "timeout".to_string(),
        options: vec![argument("reason", text("spam")), argument("duration", text("5m"))],
    };
    let (path, args) = process(&data);
    assert_eq!(path, "timeout");
    assert_eq!(args.get_string("reason").unwrap(), "spam");
    assert_eq!(args.get_string("duration").unwrap(), "5m");
}

#[test]
fn sub_command_path_is_joined_with_spaces() {
    let leaf = vec![
        argument("permission", text("Timeout")),
        argument("bits", Some(CommandDataOptionValue::Integer(8))),
    ];
    let data = CommandData {
        name: "permissions".to_string(),
        options: vec![sub("set", CommandOptionType::SubCommand, leaf)],
    };
    let (path, args) = process(&data);
    assert_eq!(path, "permissions set");
    assert_eq!(args.get_string("permission").unwrap(), "Timeout");
    assert_eq!(args.get_integer("bits").unwrap(), 8);
}

#[test]
fn groups_are_walked_down_to_the_leaf() {
    let leaf = vec![argument("x", Some(CommandDataOptionValue::Boolean(true)))];
    let data = CommandData {
        name: "a".to_string(),
        options: vec![sub(
            "b",
            CommandOptionType::SubCommandGroup,
            vec![sub("c", CommandOptionType::SubCommand, leaf)],
        )],
    };
    let (path, args) = process(&data);
    assert_eq!(path, "a b c");
    assert_eq!(args.get_boolean("x").unwrap(), true);
}

#[test]
fn only_the_first_option_decides_the_walk() {
    let data = CommandData {
        name: "a".to_string(),
        options: vec![
            argument("first", text("1")),
            sub("ignored", CommandOptionType::SubCommand, vec![argument("deep", text("2"))]),
        ],
    };
    let (path, args) = process(&data);
    assert_eq!(path, "a");
    assert_eq!(args.get_string("first").unwrap(), "1");
    assert!(args.get_string("deep").is_err());
    assert!(matches!(args.get_string("ignored"), Err(Error::MissingValue { .. })));
}

#[test]
fn later_option_of_the_same_name_wins() {
    let data = CommandData {
        name: "a".to_string(),
        options: vec![argument("x", text("1")), argument("x", text("2"))],
    };
    let (_, args) = process(&data);
    assert_eq!(args.get_string("x").unwrap(), "2");
}

#[test]
fn missing_and_wrong_type_messages() {
    let mut args = SlashMap::new();
    args.insert(
        "n".to_string(),
        SlashValue::new(Some(CommandDataOptionValue::Integer(5)), "n".to_string()),
    );
    args.insert("empty".to_string(), SlashValue::new(None, "empty".to_string()));

    let wrong = args.get_string("n").unwrap_err();
    assert_eq!(
        wrong,
        Error::WrongType {
            expected: "String".to_string(),
            found: "Integer".to_string(),
            name: "n".to_string()
        }
    );
    assert_eq!(wrong.message(), "Wrong type in field `n` (expected `String`, got `Integer`)");

    let missing = args.get_string("absent").unwrap_err();
    assert_eq!(missing, Error::MissingValue { name: "absent".to_string() });
    assert_eq!(missing.message(), "Missing value in field `absent`");

    let unresolved = args.get_integer("empty").unwrap_err();
    assert_eq!(unresolved, Error::MissingValue { name: "empty".to_string() });
}

#[test]
fn every_getter_names_its_expected_type() {
    let mut args = SlashMap::new();
    args.insert("v".to_string(), SlashValue::new(Some(CommandDataOptionValue::Other), "v".to_string()));
    let expect = |e: Error, kind: &str| {
        assert_eq!(
            e,
            Error::WrongType {
                expected: kind.to_string(),
                found: "Unknown".to_string(),
                name: "v".to_string()
            }
        );
    };
    expect(args.get_string("v").unwrap_err(), "String");
    expect(args.get_integer("v").unwrap_err(), "Integer");
    expect(args.get_boolean("v").unwrap_err(), "Boolean");
    expect(args.get_user("v").unwrap_err(), "User");
    expect(args.get_channel("v").unwrap_err(), "Channel");
    expect(args.get_role("v").unwrap_err(), "Role");
    expect(args.get_mentionable("v").unwrap_err(), "Mentionable");
}

#[test]
fn type_names() {
    let user = User { id: 1, bot: false };
    let role = Role { id: 2, guild_id: 3, permissions: 0, position: 0 };
    assert_eq!(CommandDataOptionValue::String(String::new()).get_type_name(), "String");
    assert_eq!(CommandDataOptionValue::Integer(0).get_type_name(), "Integer");
    assert_eq!(CommandDataOptionValue::Boolean(false).get_type_name(), "Boolean");
    assert_eq!(CommandDataOptionValue::User(user, None).get_type_name(), "User");
    assert_eq!(CommandDataOptionValue::Channel(PartialChannel { id: 1 }).get_type_name(), "Channel");
    assert_eq!(CommandDataOptionValue::Role(role).get_type_name(), "Role");
    assert_eq!(CommandDataOptionValue::Other.get_type_name(), "Unknown");
}

#[test]
fn users_roles_and_channels() {
    let user = User { id: 11, bot: true };
    let member = PartialMember { pending: false };
    let role = Role { id: 22, guild_id: 3, permissions: 8, position: 4 };
    let mut args = SlashMap::new();
    args.insert(
        "u".to_string(),
        SlashValue::new(Some(CommandDataOptionValue::User(user, Some(member))), "u".to_string()),
    );
    args.insert(
        "lone".to_string(),
        SlashValue::new(Some(CommandDataOptionValue::User(user, None)), "lone".to_string()),
    );
    args.insert("r".to_string(), SlashValue::new(Some(CommandDataOptionValue::Role(role)), "r".to_string()));
    args.insert(
        "c".to_string(),
        SlashValue::new(Some(CommandDataOptionValue::Channel(PartialChannel { id: 33 })), "c".to_string()),
    );

    let found = args.get_user("u").unwrap();
    assert_eq!(found, UserOrMember::Member(user, member));
    assert_eq!(*found.id(), 11);
    assert_eq!(*found.get_user(), user);
    assert_eq!(found.get_member(), Some(&member));
    let lone = args.get_user("lone").unwrap();
    assert_eq!(lone, UserOrMember::User(user));
    assert_eq!(lone.get_member(), None);
    assert_eq!(args.get_role("r").unwrap(), role);
    assert_eq!(args.get_channel("c").unwrap().id, 33);
    assert_eq!(args.get_mentionable("r").unwrap(), Mentionable::Role(role));
    assert_eq!(Mentionable::Role(role).mention(), "<@&22>");
    assert_eq!(Mentionable::UserOrMember(lone).mention(), "<@11>");
    assert_eq!(args.get_mentionable("lone").unwrap(), Mentionable::UserOrMember(lone));
}

#[test]
fn slash_value_getters_directly() {
    let value = SlashValue::new(Some(CommandDataOptionValue::Boolean(true)), "flag".to_string());
    assert_eq!(value.get_boolean().unwrap(), true);
    assert_eq!(value.expect_some().unwrap(), CommandDataOptionValue::Boolean(true));
    assert!(value.get_integer().is_err());
    let empty = SlashValue::new(None, "flag".to_string());
    assert_eq!(empty.expect_some().unwrap_err(), Error::MissingValue { name: "flag".to_string() });
    assert_eq!(empty.get_boolean().unwrap_err(), Error::MissingValue { name: "flag".to_string() });
}

struct Greeting {
    name: String,
    times: i64,
}

impl FromSlashMap for Greeting {
    fn from_slash_map(args: SlashMap) -> Result<Self, Error> {
        Ok(Greeting { name: args.get_string("name")?, times: args.get_integer("times")? })
    }
}

#[test]
fn a_type_can_be_read_from_the_arguments() {
    let data = CommandData {
        name: "greet".to_string(),
        options: vec![
            argument("name", text("mia")),
            argument("times", Some(CommandDataOptionValue::Integer(3))),
        ],
    };
    let (_, args) = process(&data);
    let greeting = Greeting::from_slash_map(args).unwrap();
    assert_eq!(greeting.name, "mia");
    assert_eq!(greeting.times, 3);
    let missing = Greeting::from_slash_map(SlashMap::new());
    assert!(matches!(missing, Err(Error::MissingValue { .. })));
}

use makita::permissions::Role;
use makita::utils::{
    channel_link, default_arg, highest_role, link_guild, mention_channel, mention_role,
    mention_user, parse_duration, remove_indexes, ChannelFacts, Delivery, FollowupBuilder, Link,
    MessageReference, OptionalOption, TryLink,
};
use std::collections::HashMap;

#[test]
fn remove_indexes_takes_positions_of_the_original() {
    let mut v = vec!['a', 'b', 'c', 'd', 'e'];
    let taken = remove_indexes(&mut v, &[1, 3, 4]);
    assert_eq!(taken, vec!['b', 'd', 'e']);
    assert_eq!(v, vec!['a', 'c']);
}

#[test]
fn remove_indexes_with_nothing_to_remove() {
    let mut v = vec![1, 2, 3];
    let taken = remove_indexes(&mut v, &[]);
    assert!(taken.is_empty());
    assert_eq!(v, vec![1, 2, 3]);
}

#[test]
fn remove_indexes_can_take_everything() {
    let mut v = vec![String::from("x"), String::from("y")];
    let taken = remove_indexes(&mut v, &[0, 1]);
    assert_eq!(taken, vec!["x", "y"]);
    assert!(v.is_empty());
}

#[test]
fn default_arg_ignores_its_argument() {
    let n: u64 = default_arg("ignored");
    assert_eq!(n, 0);
    let v: Vec<u8> = default_arg(5);
    assert!(v.is_empty());
}

#[test]
fn durations_by_unit() {
    assert_eq!(parse_duration("90s"), Some(90));
    assert_eq!(parse_duration("15m"), Some(900));
    assert_eq!(parse_duration("2h"), Some(7200));
    assert_eq!(parse_duration("2d"), Some(172800));
    assert_eq!(parse_duration("0s"), Some(0));
}

#[test]
fn duration_without_unit_counts_for_nothing() {
    assert_eq!(parse_duration(""), Some(0));
    assert_eq!(parse_duration("10"), Some(0));
}

#[test]
fn malformed_durations() {
    assert_eq!(parse_duration("m"), None);
    assert_eq!(parse_duration("5x"), None);
    assert_eq!(parse_duration("5 m"), None);
    assert_eq!(parse_duration("-5m"), None);
    assert_eq!(parse_duration("5M"), None);
}

#[test]
fn digits_are_not_forgotten_after_a_unit() {
    assert_eq!(parse_duration("1h30m"), Some(3600 + 130 * 60));
    assert_eq!(parse_duration("1d1d"), Some(86400 + 11 * 86400));
    assert_eq!(parse_duration("2mm"), Some(240));
}

#[test]
fn durations_that_do_not_fit() {
    assert_eq!(parse_duration("18446744073709551615s"), Some(u64::MAX));
    assert_eq!(parse_duration("18446744073709551616s"), None);
    assert_eq!(parse_duration("18446744073709551615m"), None);
    assert_eq!(parse_duration("213503982334601d"), Some(213503982334601 * 86400));
    assert_eq!(parse_duration("213503982334602d"), None);
}

fn ranked(id: u64, position: i64) -> Role {
    Role { id, guild_id: 1, permissions: 0, position }
}

#[test]
fn highest_role_is_the_largest_rank() {
    let mut cached = HashMap::new();
    cached.insert(1, ranked(1, 5));
    cached.insert(2, ranked(2, 9));
    cached.insert(3, ranked(3, -4));
    assert_eq!(highest_role(&cached, &[1, 2, 3]), 9);
    assert_eq!(highest_role(&cached, &[1]), 5);
    assert_eq!(highest_role(&cached, &[]), 0);
    assert_eq!(highest_role(&cached, &[3]), -4);
    assert_eq!(highest_role(&cached, &[3, 99]), 0);
    assert_eq!(highest_role(&cached, &[99]), 0);
}

#[test]
fn followup_builder_collects_settings() {
    let b = FollowupBuilder::new();
    assert!(b.get_title().is_none());
    assert!(b.get_description().is_none());
    assert!(!b.is_ephemeral());
    let b = b.title("T").description("D").ephemeral();
    assert_eq!(b.get_title().map(|s| s.as_str()), Some("T"));
    assert_eq!(b.get_description().map(|s| s.as_str()), Some("D"));
    assert!(b.is_ephemeral());
    let b = b.set_ephemeral(false);
    assert!(!b.is_ephemeral());
    assert_eq!(b.get_title().map(|s| s.as_str()), Some("T"));
}

#[test]
fn followup_delivery() {
    let b = FollowupBuilder::new();
    assert_eq!(b.build_command_somehow(true), Delivery::Followup);
    assert_eq!(b.build_command_somehow(false), Delivery::Response);
}

#[test]
fn mentions() {
    assert_eq!(mention_user(5), "<@5>");
    assert_eq!(mention_role(6), "<@&6>");
    assert_eq!(mention_channel(719046554744520754), "<#719046554744520754>");
}

#[test]
fn links() {
    assert_eq!(channel_link(1, 2), "https://discord.com/channels/1/2");
    assert_eq!((1u64, 2u64).link(), "https://discord.com/channels/1/2");
    let full = MessageReference { guild_id: Some(1), channel_id: 2, message_id: Some(3) };
    assert_eq!(full.try_link().unwrap(), "https://discord.com/channels/1/2/3");
    assert_eq!(full.link(), "https://discord.com/channels/1/2/3");
    let channel = MessageReference { guild_id: Some(1), channel_id: 2, message_id: None };
    assert_eq!(channel.try_link().unwrap(), "https://discord.com/channels/1/2");
    let nowhere = MessageReference { guild_id: None, channel_id: 2, message_id: Some(3) };
    assert_eq!(nowhere.try_link(), None);
}

fn channel(id: u64, guild_channel: bool, denies: Vec<u64>) -> ChannelFacts {
    ChannelFacts { id, guild_channel, denies }
}

#[test]
fn link_guild_prefers_rules_channel() {
    let channels = vec![channel(5, true, vec![])];
    assert_eq!(
        link_guild("Home", 1, Some(9), &channels, 7),
        "[Home](https://discord.com/channels/1/9)"
    );
}

#[test]
fn link_guild_takes_first_channel_open_to_all() {
    let channels = vec![
        channel(5, false, vec![]),
        channel(6, true, vec![0, 0x400]),
        channel(7, true, vec![0x800, 0x1]),
        channel(8, true, vec![]),
    ];
    assert_eq!(link_guild("G", 1, None, &channels, 99), "[G](https://discord.com/channels/1/7)");
}

#[test]
fn link_guild_falls_back_to_hint() {
    let channels = vec![channel(5, false, vec![]), channel(6, true, vec![0x400 | 0x1])];
    assert_eq!(link_guild("G", 1, None, &channels, 99), "[G](https://discord.com/channels/1/99)");
    assert_eq!(link_guild("G", 1, None, &vec![], 99), "[G](https://discord.com/channels/1/99)");
}

#[test]
fn optional_option_defaults_to_missing() {
    let v: OptionalOption<u8> = Default::default();
    assert!(matches!(v, OptionalOption::Missing));
    let ok: Result<Option<u8>, ()> = Ok(Some(3));
    assert!(matches!(OptionalOption::from_lookup(ok), OptionalOption::Present(Some(3))));
    let empty: Result<Option<u8>, ()> = Ok(None);
    assert!(matches!(OptionalOption::from_lookup(empty), OptionalOption::Present(None)));
    let failed: Result<Option<u8>, ()> = Err(());
    assert!(matches!(OptionalOption::from_lookup(failed), OptionalOption::Missing));
}

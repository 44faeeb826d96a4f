use makita::decode::{CommandDataOptionValue, PartialChannel, SlashMap, SlashValue};
use makita::error::{BotError, CommandError};
use makita::permissions::Role;
use makita::preview_commands::{
    message_not_found, preview_access, read_target_args, requested_by, shown_elsewhere,
    ChannelLookup, PreviewRequest,
};
use makita::previews::{
    channel_row, links_of, parse_capture, sendable, ArchiveWrite, ChannelRow, MessageLink,
    PreviewsConfig, PreviewsModule, ATTACHMENT_LIMIT,
};
use std::collections::HashSet;

const GUILD: u64 = 10;

fn module() -> PreviewsModule {
    PreviewsModule::new().unwrap()
}

fn target(id: u64) -> SlashMap {
    let mut args = SlashMap::new();
    args.insert(
        "target".to_string(),
        SlashValue::new(Some(CommandDataOptionValue::Channel(PartialChannel { id })), "target".to_string()),
    );
    args
}

fn link_text(text: &str) -> SlashMap {
    let mut args = SlashMap::new();
    args.insert(
        "target".to_string(),
        SlashValue::new(Some(CommandDataOptionValue::String(text.to_string())), "target".to_string()),
    );
    args
}

fn bot_error(r: Result<impl std::fmt::Debug, CommandError>) -> BotError {
    match r {
        Err(CommandError::Bot(e)) => e,
        other => panic!("expected a bot error, got {:?}", other),
    }
}

#[test]
fn config_keeps_channels_sorted_and_unique() {
    let mut config = PreviewsConfig::default();
    assert!(config.add_channel(5));
    assert!(config.add_channel(2));
    assert!(config.add_channel(9));
    assert!(!config.add_channel(5));
    assert_eq!(config.auto_channels, vec![2, 5, 9]);
    assert!(config.scans(5));
    assert!(!config.scans(6));
    assert!(config.remove_channel(5));
    assert!(!config.remove_channel(5));
    assert_eq!(config.auto_channels, vec![2, 9]);
}

#[test]
fn config_retains_live_channels() {
    let mut config = PreviewsConfig { auto_channels: vec![1, 2, 3, 4, 5], archive_channel: Some(7) };
    let live: HashSet<u64> = [2, 4, 6].into_iter().collect();
    let gone = config.retain_live(&live);
    assert_eq!(gone, vec![1, 3, 5]);
    assert_eq!(config.auto_channels, vec![2, 4]);
    assert_eq!(config.archive_channel, Some(7));
}

#[test]
fn add_then_add_again() {
    let mut previews = module();
    let row = previews.previews_add(Some(GUILD), &target(5)).unwrap();
    assert_eq!(row, ChannelRow { guild_id: 10, channel_id: 5 });
    assert_eq!(row, channel_row(GUILD, 5));
    let again = bot_error(previews.previews_add(Some(GUILD), &target(5)));
    assert_eq!(again, BotError::Generic("Channel already added".to_string()));
    assert!(previews.previews_add(Some(GUILD + 1), &target(5)).is_ok());
}

#[test]
fn add_needs_target_and_guild() {
    let mut previews = module();
    assert!(matches!(previews.previews_add(Some(GUILD), &SlashMap::new()), Err(CommandError::Decode(_))));
    assert!(matches!(previews.previews_add(None, &SlashMap::new()), Err(CommandError::Decode(_))));
    assert_eq!(bot_error(previews.previews_add(None, &target(5))), BotError::GuildOnly);
    assert_eq!(read_target_args(Some(GUILD), &target(5)).unwrap(), (GUILD, 5));
}

#[test]
fn remove_present_and_absent() {
    let mut previews = module();
    previews.previews_add(Some(GUILD), &target(5)).unwrap();
    previews.previews_add(Some(GUILD), &target(3)).unwrap();
    let absent = bot_error(previews.previews_remove(Some(GUILD), &target(4)));
    assert_eq!(absent, BotError::Generic("Channel not in previews".to_string()));
    let row = previews.previews_remove(Some(GUILD), &target(5)).unwrap();
    assert_eq!(row, ChannelRow { guild_id: 10, channel_id: 5 });
    assert_eq!(previews.previews_list(Some(GUILD)).unwrap(), "**Channels**\n<#3>");
    assert_eq!(bot_error(previews.previews_remove(None, &target(3))), BotError::GuildOnly);
}

#[test]
fn list_of_channels() {
    let mut previews = module();
    assert_eq!(previews.previews_list(Some(GUILD)).unwrap(), "No channels");
    previews.add_channel(GUILD, 30).unwrap();
    previews.add_channel(GUILD, 10).unwrap();
    previews.add_channel(GUILD, 20).unwrap();
    assert_eq!(previews.previews_list(Some(GUILD)).unwrap(), "**Channels**\n<#10>\n<#20>\n<#30>");
    assert_eq!(previews.channel_list(GUILD + 1), "No channels");
    assert_eq!(previews.previews_list(None).unwrap_err(), BotError::GuildOnly);
}

#[test]
fn deleted_channel_is_no_longer_scanned() {
    let mut previews = module();
    previews.add_channel(GUILD, 5).unwrap();
    assert_eq!(previews.channel_delete(GUILD, 6), None);
    assert_eq!(previews.channel_delete(GUILD + 1, 5), None);
    assert_eq!(previews.channel_delete(GUILD, 5), Some(ChannelRow { guild_id: 10, channel_id: 5 }));
    assert_eq!(previews.channel_delete(GUILD, 5), None);
    assert!(!previews.should_scan(Some(GUILD), 5));
}

#[test]
fn resync_drops_channels_that_are_gone() {
    let mut previews = module();
    for channel in [1, 2, 3, 4] {
        previews.add_channel(GUILD, channel).unwrap();
    }
    let live: HashSet<u64> = [2, 3, 99].into_iter().collect();
    assert_eq!(previews.guild_data(GUILD, &live), vec![1, 4]);
    assert_eq!(previews.channel_list(GUILD), "**Channels**\n<#2>\n<#3>");
    assert_eq!(previews.guild_data(GUILD, &live), Vec::<u64>::new());
    assert_eq!(previews.guild_data(GUILD + 1, &live), Vec::<u64>::new());
}

#[test]
fn archive_channel_set_and_cleared() {
    let mut previews = module();
    assert_eq!(
        previews.previews_archive_context(GUILD).unwrap_err(),
        BotError::Generic("Archive channel not set".to_string())
    );
    let write = previews.previews_archive(GUILD, &target(8));
    assert_eq!(write, ArchiveWrite::Upsert(ChannelRow { guild_id: 10, channel_id: 8 }));
    assert_eq!(previews.previews_archive_context(GUILD), Ok(8));
    assert_eq!(previews.archive_channel(GUILD), Ok(8));
    let write = previews.previews_archive(GUILD, &SlashMap::new());
    assert_eq!(write, ArchiveWrite::Delete { guild_id: 10 });
    assert!(previews.previews_archive_context(GUILD).is_err());
    assert_eq!(previews.update_archive(Some(3), u64::MAX), ArchiveWrite::Upsert(ChannelRow { guild_id: -1, channel_id: 3 }));
}

#[test]
fn initialize_loads_rows() {
    let mut previews = module();
    let channels = vec![
        ChannelRow { guild_id: 1, channel_id: 30 },
        ChannelRow { guild_id: 2, channel_id: 5 },
        ChannelRow { guild_id: 1, channel_id: 10 },
        ChannelRow { guild_id: 1, channel_id: 30 },
    ];
    let archives = vec![
        ChannelRow { guild_id: 1, channel_id: 7 },
        ChannelRow { guild_id: 3, channel_id: 8 },
        ChannelRow { guild_id: 1, channel_id: 9 },
    ];
    previews.initialize(&channels, &archives);
    assert_eq!(previews.channel_list(1), "**Channels**\n<#10>\n<#30>");
    assert_eq!(previews.channel_list(2), "**Channels**\n<#5>");
    assert_eq!(previews.channel_list(3), "No channels");
    assert_eq!(previews.archive_channel(1), Ok(9));
    assert_eq!(previews.archive_channel(3), Ok(8));
    assert!(previews.archive_channel(2).is_err());
}

#[test]
fn only_scanned_channels_of_guilds_are_scanned() {
    let mut previews = module();
    previews.add_channel(GUILD, 5).unwrap();
    assert!(previews.should_scan(Some(GUILD), 5));
    assert!(!previews.should_scan(Some(GUILD), 6));
    assert!(!previews.should_scan(Some(GUILD + 1), 5));
    assert!(!previews.should_scan(None, 5));
}

#[test]
fn links_are_found_in_a_message() {
    let content = "see https://discord.com/channels/1/2/3 and \
                   https://canary.discordapp.com/channels/44/55/66, \
                   not https://example.com/channels/7/8/9";
    let (links, error) = PreviewsModule::message_links(content);
    assert_eq!(error, None);
    assert_eq!(
        links,
        vec![
            MessageLink { guild: 1, channel: 2, message: 3 },
            MessageLink { guild: 44, channel: 55, message: 66 },
        ]
    );
}

#[test]
fn text_without_links_has_none() {
    for content in ["", "hello", "https://discord.com/channels/1/2", "http://discord.com/channels/1/2/3"] {
        let (links, error) = PreviewsModule::message_links(content);
        assert!(links.is_empty());
        assert_eq!(error, None);
    }
}

#[test]
fn reading_links_stops_at_an_id_that_does_not_fit() {
    let content = "https://discord.com/channels/1/2/3 \
                   https://discord.com/channels/1/99999999999999999999999/3 \
                   https://discord.com/channels/4/5/6";
    let (links, error) = PreviewsModule::message_links(content);
    assert_eq!(links, vec![MessageLink { guild: 1, channel: 2, message: 3 }]);
    assert_eq!(error, Some(BotError::Internal(3)));
    let (_, error) = PreviewsModule::message_links("https://discord.com/channels/99999999999999999999999/2/3");
    assert_eq!(error, Some(BotError::Internal(1)));
    let (_, error) = PreviewsModule::message_links("https://discord.com/channels/1/2/99999999999999999999999");
    assert_eq!(error, Some(BotError::Internal(5)));
}

#[test]
fn message_asks_for_previews_only_where_scanned() {
    let mut previews = module();
    previews.add_channel(GUILD, 5).unwrap();
    let content = "https://discord.com/channels/1/2/3";
    assert_eq!(
        previews.message(Some(GUILD), 5, content).0,
        vec![MessageLink { guild: 1, channel: 2, message: 3 }]
    );
    assert!(previews.message(Some(GUILD), 6, content).0.is_empty());
    assert!(previews.message(None, 5, content).0.is_empty());
}

#[test]
fn view_takes_the_first_link() {
    let link = PreviewsModule::view_link("a https://discord.com/channels/1/2/3 b https://discord.com/channels/4/5/6");
    assert_eq!(link, Ok(MessageLink { guild: 1, channel: 2, message: 3 }));
    assert_eq!(PreviewsModule::view_link("nothing"), Err(BotError::Generic("Malformed link".to_string())));
    assert_eq!(
        PreviewsModule::view_link("https://discord.com/channels/1/2/99999999999999999999999"),
        Err(BotError::Internal(11))
    );
    assert_eq!(
        PreviewsModule::view_link("https://discord.com/channels/99999999999999999999999/2/3"),
        Err(BotError::Internal(7))
    );
}

#[test]
fn view_command_reads_its_target() {
    assert_eq!(
        PreviewsModule::previews_view(&link_text("https://ptb.discord.com/channels/1/2/3")).unwrap(),
        MessageLink { guild: 1, channel: 2, message: 3 }
    );
    assert!(matches!(PreviewsModule::previews_view(&SlashMap::new()), Err(CommandError::Decode(_))));
    assert_eq!(
        bot_error(PreviewsModule::previews_view(&link_text("no link"))),
        BotError::Generic("Malformed link".to_string())
    );
}

#[test]
fn groups_of_a_match_give_ids_or_numbered_errors() {
    let group = |s: &str| Some(s.to_string());
    let whole = group("whole");
    assert_eq!(
        parse_capture(&vec![whole.clone(), group("1"), group("2"), group("3")], 0),
        Ok(MessageLink { guild: 1, channel: 2, message: 3 })
    );
    assert_eq!(parse_capture(&vec![whole.clone()], 0), Err(BotError::Internal(0)));
    assert_eq!(parse_capture(&vec![whole.clone(), None, group("2"), group("3")], 0), Err(BotError::Internal(0)));
    assert_eq!(parse_capture(&vec![whole.clone(), group("x"), group("2"), group("3")], 0), Err(BotError::Internal(1)));
    assert_eq!(parse_capture(&vec![whole.clone(), group("1"), None, group("3")], 0), Err(BotError::Internal(2)));
    assert_eq!(parse_capture(&vec![whole.clone(), group("1"), group(""), group("3")], 0), Err(BotError::Internal(3)));
    assert_eq!(parse_capture(&vec![whole.clone(), group("1"), group("2")], 0), Err(BotError::Internal(4)));
    assert_eq!(parse_capture(&vec![whole.clone(), group("1"), group("2"), group("٣")], 6), Err(BotError::Internal(11)));
    let (links, error) = links_of(&vec![vec![whole.clone(), group("1"), group("2"), group("3")], vec![whole]], 6);
    assert_eq!(links.len(), 1);
    assert_eq!(error, Some(BotError::Internal(6)));
}

#[test]
fn attachments_below_the_limit_are_passed_on() {
    assert_eq!(ATTACHMENT_LIMIT, 8388246);
    assert_eq!(sendable(&vec![0, 8388245, 8388246, 8388247, 5]), vec![0, 1, 4]);
    assert_eq!(sendable(&vec![]), Vec::<usize>::new());
}

fn request(roles: Option<Vec<Role>>, channel: ChannelLookup, permissions: Option<u64>) -> PreviewRequest {
    PreviewRequest { guild_known: true, member_found: true, roles, channel, channel_permissions: permissions }
}

fn plain_role(permissions: u64) -> Role {
    Role { id: 1, guild_id: GUILD, permissions, position: 0 }
}

#[test]
fn preview_needs_guild_and_membership() {
    let mut req = request(Some(vec![]), ChannelLookup::GuildChannel, Some(1 << 16));
    req.guild_known = false;
    assert_eq!(bot_error(preview_access(&req, "")), BotError::NotFound("Server".to_string()));
    req.guild_known = true;
    req.member_found = false;
    assert_eq!(
        bot_error(preview_access(&req, "")),
        BotError::Generic("You must be in a server to preview messages from it".to_string())
    );
    let req = request(None, ChannelLookup::GuildChannel, Some(1 << 16));
    assert_eq!(bot_error(preview_access(&req, "")), BotError::CacheMissing);
}

#[test]
fn administrator_sees_every_message() {
    let req = request(Some(vec![plain_role(0), plain_role(8)]), ChannelLookup::Unknown, None);
    assert!(preview_access(&req, "").is_ok());
}

#[test]
fn others_need_to_read_the_history_of_a_known_channel() {
    let roles = Some(vec![plain_role(1 << 16)]);
    let req = request(roles.clone(), ChannelLookup::OtherChannel, Some(u64::MAX));
    assert_eq!(bot_error(preview_access(&req, "")), BotError::NotFound("Channel".to_string()));
    let req = request(roles.clone(), ChannelLookup::Unknown, Some(u64::MAX));
    assert_eq!(bot_error(preview_access(&req, "")), BotError::CacheMissing);
    let req = request(roles.clone(), ChannelLookup::Thread, None);
    assert!(matches!(preview_access(&req, "boom"), Err(CommandError::Other(text)) if text == "boom"));
    let req = request(roles.clone(), ChannelLookup::GuildChannel, Some(1 << 10));
    assert_eq!(
        bot_error(preview_access(&req, "")),
        BotError::Generic("You do not have permission to view this message".to_string())
    );
    let req = request(roles.clone(), ChannelLookup::GuildChannel, Some((1 << 10) | (1 << 16)));
    assert!(preview_access(&req, "").is_ok());
    let req = request(roles, ChannelLookup::Thread, Some(1 << 16));
    assert!(preview_access(&req, "").is_ok());
}

#[test]
fn small_texts_of_previews() {
    assert_eq!(message_not_found(), BotError::NotFound("Message".to_string()));
    assert_eq!(requested_by("mia", 7), "Requested by mia#7");
    assert_eq!(requested_by("mia", 1234), "Requested by mia#1234");
    assert!(shown_elsewhere(Some(1), 2));
    assert!(!shown_elsewhere(Some(2), 2));
    assert!(!shown_elsewhere(None, 2));
}

#[test]
fn default_settings_scan_nothing() {
    let config: PreviewsConfig = Default::default();
    assert!(config.auto_channels.is_empty());
    assert_eq!(config.archive_channel, None);
    let by_key: PreviewsConfig = makita::utils::default_arg(77u64);
    assert!(by_key.auto_channels.is_empty());
    assert_eq!(by_key.archive_channel, None);
}

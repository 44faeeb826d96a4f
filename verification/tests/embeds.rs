use makita::embeds::{
    author_name, link_of, AuthorFacts, MessageFacts, MessageKind, BLANK, CROSSPOSTED, HAS_THREAD,
    IS_CROSSPOST, LOADING, REPORT_TO, SOURCE_MESSAGE_DELETED,
};
use makita::utils::MessageReference;

fn author() -> AuthorFacts {
    AuthorFacts { id: 5, name: "mia".to_string(), discriminator: 42, icon_url: "icon".to_string() }
}

fn message(kind: MessageKind) -> MessageFacts {
    MessageFacts {
        kind,
        flags: None,
        id: 3,
        channel_id: 2,
        guild_id: Some(1),
        author: author(),
        content: "hello".to_string(),
        timestamp: 1700000000,
        reference: None,
        reply_link: None,
        foreign_link: None,
        referenced_guild_name: None,
        thread_known: false,
    }
}

fn reference() -> MessageReference {
    MessageReference { guild_id: Some(7), channel_id: 8, message_id: Some(9) }
}

fn fields(m: &MessageFacts) -> Vec<(&'static str, String)> {
    m.derive_embed().fields.into_iter().map(|f| (f.name, f.value)).collect()
}

#[test]
fn author_names() {
    assert_eq!(author_name(&author()), "mia#0042");
    let mut a = author();
    a.discriminator = 0;
    assert_eq!(author_name(&a), "mia");
    a.discriminator = 7;
    assert_eq!(author_name(&a), "mia#0007");
    a.discriminator = 123;
    assert_eq!(author_name(&a), "mia#0123");
    a.discriminator = 9999;
    assert_eq!(author_name(&a), "mia#9999");
    a.discriminator = 65535;
    assert_eq!(author_name(&a), "mia#65535");
}

#[test]
fn message_links() {
    assert_eq!(link_of(Some(1), 2, 3), "https://discord.com/channels/1/2/3");
    assert_eq!(link_of(None, 2, 3), "https://discord.com/channels/@me/2/3");
}

#[test]
fn regular_message() {
    let plan = message(MessageKind::Regular).derive_embed();
    assert_eq!(plan.description, "hello");
    let a = plan.author.unwrap();
    assert_eq!(a.name, "mia#0042");
    assert_eq!(a.url, "https://discord.com/channels/1/2/3");
    assert_eq!(a.icon_url, "icon");
    assert!(plan.timestamp);
    assert!(plan.report.is_none());
    assert!(plan.fields.iter().all(|f| f.inline));
    assert_eq!(
        fields(&message(MessageKind::Regular)),
        vec![("Channel", "<#2>".to_string()), ("Author", "<@5>".to_string())]
    );
}

#[test]
fn reply_in_another_guild() {
    let mut m = message(MessageKind::InlineReply);
    m.reply_link = Some("https://discord.com/channels/1/2/1".to_string());
    m.foreign_link = Some("[Home](url)".to_string());
    let plan = m.derive_embed();
    assert_eq!(plan.description, "hello\n[Reply to](https://discord.com/channels/1/2/1)");
    assert_eq!(
        fields(&m),
        vec![
            ("Channel", "<#2>".to_string()),
            ("Author", "<@5>".to_string()),
            ("Guild", " [Home](url)".to_string()),
        ]
    );
}

#[test]
fn group_messages_are_reported() {
    for kind in [
        MessageKind::GroupRecipientAddition,
        MessageKind::GroupRecipientRemoval,
        MessageKind::GroupCallCreation,
        MessageKind::GroupNameUpdate,
        MessageKind::GroupIconUpdate,
    ] {
        let mut m = message(kind);
        m.flags = Some(CROSSPOSTED | LOADING);
        let plan = m.derive_embed();
        assert_eq!(
            plan.description,
            "This is awkward... I shouldn't be able to see this message, yet I do. How will I resolve this paradox?"
        );
        assert!(plan.author.is_none());
        assert!(plan.fields.is_empty());
        assert!(!plan.timestamp);
        assert_eq!(
            plan.report,
            Some(format!("type {} spotted: https://discord.com/channels/1/2/3", kind.name()))
        );
    }
    assert_eq!(REPORT_TO, 719046554744520754);
}

#[test]
fn unsupported_messages_are_reported() {
    for kind in [
        MessageKind::Unknown,
        MessageKind::GuildInviteReminder,
        MessageKind::GuildDiscoveryGracePeriodInitialWarning,
        MessageKind::GuildDiscoveryGracePeriodFinalWarning,
        MessageKind::ThreadStarterMessage,
        MessageKind::ContextMenuCommand,
    ] {
        let plan = message(kind).derive_embed();
        assert_eq!(plan.description, "Unsupported message type. This has incident has been reported.");
        assert!(plan.author.is_none());
        assert!(plan.report.is_some());
    }
    let plan = message(MessageKind::GuildInviteReminder).derive_embed();
    assert_eq!(plan.report.unwrap(), "type GuildInviteReminder spotted: https://discord.com/channels/1/2/3");
}

#[test]
fn boosts() {
    assert_eq!(message(MessageKind::NitroBoost).derive_embed().description, "<@5> boosted the server!");
    assert_eq!(
        message(MessageKind::NitroTier1).derive_embed().description,
        "<@5> boosted the server, achieving tier 1!"
    );
    assert_eq!(
        message(MessageKind::NitroTier2).derive_embed().description,
        "<@5> boosted the server, achieving tier 2!"
    );
    let plan = message(MessageKind::NitroTier3).derive_embed();
    assert_eq!(plan.description, "<@5> boosted the server, achieving tier 3!");
    assert!(plan.timestamp);
    assert!(plan.author.is_some());
    assert!(plan.fields.is_empty());
}

#[test]
fn discovery() {
    let lost = message(MessageKind::GuildDiscoveryDisqualified).derive_embed();
    assert_eq!(lost.description, "This server has been disqualified from discovery.");
    assert!(lost.author.is_none());
    assert!(!lost.timestamp);
    let mut back = message(MessageKind::GuildDiscoveryRequalified);
    back.foreign_link = Some("[Home](url)".to_string());
    assert_eq!(back.derive_embed().description, " [Home](url)has been requalified for discovery.");
}

#[test]
fn pins() {
    let mut m = message(MessageKind::PinsAdd);
    m.reference = Some(reference());
    let plan = m.derive_embed();
    assert_eq!(plan.description, "<@5> pinned [a message](https://discord.com/channels/1/8/9) in <#2>");
    assert!(plan.timestamp);
    m.foreign_link = Some("[Home](url)".to_string());
    m.guild_id = None;
    assert_eq!(
        m.derive_embed().description,
        "<@5> pinned [a message](https://discord.com/channels/@me/8/9) in  [Home](url)<#2>"
    );
}

#[test]
fn joins() {
    let plan = message(MessageKind::MemberJoin).derive_embed();
    assert_eq!(plan.description, "<@5> joined on <t:1700000000:f>, <t:1700000000:R>");
    assert!(!plan.timestamp);
    assert!(plan.author.is_some());
    let mut m = message(MessageKind::MemberJoin);
    m.timestamp = -1;
    m.foreign_link = Some("[Home](url)".to_string());
    assert_eq!(
        m.derive_embed().description,
        "<@5> joined  [Home](url)on <t:18446744073709551615:f>, <t:18446744073709551615:R>"
    );
}

#[test]
fn follows() {
    let mut m = message(MessageKind::ChannelFollowAdd);
    m.reference = Some(reference());
    assert_eq!(m.derive_embed().description, "<@5> started following <#8> in <#2>");
    m.referenced_guild_name = Some("News".to_string());
    assert_eq!(
        m.derive_embed().description,
        "<@5> started following [News]https://discord.com/channels/7/8/9 <#8> in <#2>"
    );
}

#[test]
fn threads() {
    let mut m = message(MessageKind::ThreadCreated);
    m.reference = Some(MessageReference { guild_id: None, channel_id: 8, message_id: None });
    m.flags = Some(HAS_THREAD);
    assert_eq!(m.derive_embed().description, "<@5> created the thread #hello in <#2>");
    assert!(fields(&m).is_empty());
    m.thread_known = true;
    assert_eq!(m.derive_embed().description, "<@5> created the thread <#8> in <#2>");
}

#[test]
fn flags_add_fields() {
    let mut m = message(MessageKind::Regular);
    m.flags = Some(CROSSPOSTED | HAS_THREAD);
    assert_eq!(
        fields(&m),
        vec![
            ("Channel", "<#2>".to_string()),
            ("Author", "<@5>".to_string()),
            ("Crossposted", BLANK.to_string()),
            ("Thread", "<#3>".to_string()),
        ]
    );
    assert_eq!(BLANK, "\u{200B}");
}

#[test]
fn crossposts() {
    let mut m = message(MessageKind::Regular);
    m.flags = Some(IS_CROSSPOST);
    m.reference = Some(reference());
    let plan = m.derive_embed();
    assert_eq!(plan.author.unwrap().url, "https://discord.com/channels/7/8/9");
    assert_eq!(fields(&m)[2], ("Crosspost", "From <#8>".to_string()));
    m.referenced_guild_name = Some("News".to_string());
    assert_eq!(
        fields(&m)[2],
        ("Crosspost", "From [News](https://discord.com/channels/7/8/9)".to_string())
    );
    m.flags = Some(IS_CROSSPOST | SOURCE_MESSAGE_DELETED);
    assert_eq!(fields(&m)[2], ("Crosspost", "Source deleted".to_string()));
}

#[test]
fn loading_overrides_the_text() {
    let mut m = message(MessageKind::ChatInputCommand);
    m.flags = Some(LOADING);
    let plan = m.derive_embed();
    assert_eq!(plan.description, "<@5> is thinking...");
    assert!(!plan.timestamp);
    assert!(plan.author.is_some());
}

#[test]
fn other_kinds_get_a_blank_text() {
    let plan = message(MessageKind::AutoModerationAction).derive_embed();
    assert_eq!(plan.description, "\u{200B}");
    assert!(plan.author.is_none());
    assert!(plan.fields.is_empty());
    assert!(!plan.timestamp);
    assert!(plan.report.is_none());
}

#[test]
fn messages_that_lack_what_they_point_to_cannot_be_shown() {
    assert!(message(MessageKind::Regular).can_show());
    assert!(message(MessageKind::GroupCallCreation).can_show());
    assert!(!message(MessageKind::PinsAdd).can_show());
    assert!(!message(MessageKind::ThreadCreated).can_show());
    let mut m = message(MessageKind::PinsAdd);
    m.reference = Some(MessageReference { guild_id: None, channel_id: 8, message_id: None });
    assert!(!m.can_show());
    m.reference = Some(MessageReference { guild_id: None, channel_id: 8, message_id: Some(9) });
    assert!(m.can_show());
    m.flags = Some(IS_CROSSPOST);
    assert!(!m.can_show());
    m.reference = Some(reference());
    assert!(m.can_show());
    let mut d = message(MessageKind::GuildDiscoveryDisqualified);
    d.flags = Some(IS_CROSSPOST | SOURCE_MESSAGE_DELETED);
    assert!(d.can_show());
    d.flags = Some(IS_CROSSPOST);
    assert!(!d.can_show());
}

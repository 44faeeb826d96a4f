use makita::decode::{CommandDataOptionValue, SlashMap, SlashValue};
use makita::error::{BotError, CommandError};
use makita::moderation::{TimeoutOptions, TimeoutVerdict, UtilsModule, LONGEST_TIMEOUT};
use makita::permissions::Role;
use std::collections::HashMap;

fn args(pairs: Vec<(&str, CommandDataOptionValue)>) -> SlashMap {
    let mut map = SlashMap::new();
    for (name, value) in pairs {
        map.insert(name.to_string(), SlashValue::new(Some(value), name.to_string()));
    }
    map
}

fn text(s: &str) -> CommandDataOptionValue {
    CommandDataOptionValue::String(s.to_string())
}

fn options(shame: bool, dm: bool, anon: bool) -> TimeoutOptions {
    TimeoutOptions { reason: "spam".to_string(), shame, dm, anon, duration: Some(60) }
}

fn roles() -> HashMap<u64, Role> {
    let mut map = HashMap::new();
    for (id, position) in [(1u64, 10i64), (2, 5), (3, 10)] {
        map.insert(id, Role { id, guild_id: 9, permissions: 0, position });
    }
    map
}

#[test]
fn options_have_defaults() {
    let module = UtilsModule::new();
    let read = module.timeout_options(&args(vec![("reason", text("spam")), ("duration", text("10m"))])).unwrap();
    assert_eq!(read.reason, "spam");
    assert!(read.shame);
    assert!(read.dm);
    assert!(!read.anon);
    assert_eq!(read.duration, Some(600));
}

#[test]
fn options_can_be_switched() {
    let module = UtilsModule::new();
    let read = module
        .timeout_options(&args(vec![
            ("reason", text("r")),
            ("duration", text("later")),
            ("shame", CommandDataOptionValue::Boolean(false)),
            ("dm", CommandDataOptionValue::Boolean(false)),
            ("anon", CommandDataOptionValue::Boolean(true)),
        ]))
        .unwrap();
    assert!(!read.shame);
    assert!(!read.dm);
    assert!(read.anon);
    assert_eq!(read.duration, None);
}

#[test]
fn reason_and_duration_must_be_given() {
    let module = UtilsModule::new();
    assert!(matches!(
        module.timeout_options(&args(vec![("duration", text("1m"))])),
        Err(CommandError::Decode(_))
    ));
    assert!(matches!(
        module.timeout_options(&args(vec![("reason", text("r"))])),
        Err(CommandError::Decode(_))
    ));
    assert!(matches!(
        module.timeout_options(&args(vec![("reason", text("r")), ("duration", CommandDataOptionValue::Integer(5))])),
        Err(CommandError::Decode(_))
    ));
}

#[test]
fn malformed_duration_answer() {
    let module = UtilsModule::new();
    let answer = module.malformed_duration(true);
    assert_eq!(answer.get_description().map(|s| s.as_str()), Some("Duration is malformed"));
    assert!(answer.is_ephemeral());
    assert!(!module.malformed_duration(false).is_ephemeral());
}

#[test]
fn end_of_timeout() {
    let module = UtilsModule::new();
    assert_eq!(module.timeout_end(1000, 60), Some(1060));
    assert_eq!(module.timeout_end(i64::MAX as u64, 0), Some(i64::MAX as u64));
    assert_eq!(module.timeout_end(i64::MAX as u64, 1), None);
    assert_eq!(module.timeout_end(u64::MAX, 1), None);
}

#[test]
fn acknowledged_first_only_when_announced_by_name() {
    let module = UtilsModule::new();
    assert!(module.acknowledges_first(true, false));
    assert!(!module.acknowledges_first(true, true));
    assert!(!module.acknowledges_first(false, false));
    assert!(!module.acknowledges_first(false, true));
}

#[test]
fn verdict_in_order() {
    let module = UtilsModule::new();
    let roles = roles();
    let own = vec![1];
    let lower = vec![2];
    let equal = vec![3];
    assert_eq!(LONGEST_TIMEOUT, 28 * 24 * 60 * 60);
    assert_eq!(
        module.timeout_command(LONGEST_TIMEOUT + 1, 7, None, None, None, &lower),
        Ok(TimeoutVerdict::TooLong)
    );
    assert_eq!(
        module.timeout_command(LONGEST_TIMEOUT, 7, None, Some(&roles), Some(&own), &lower),
        Err(BotError::CacheMissing)
    );
    assert_eq!(
        module.timeout_command(60, 7, Some(7), None, None, &lower),
        Ok(TimeoutVerdict::Owner)
    );
    assert_eq!(
        module.timeout_command(60, 7, Some(8), None, Some(&own), &lower),
        Err(BotError::CacheMissing)
    );
    assert_eq!(
        module.timeout_command(60, 7, Some(8), Some(&roles), None, &lower),
        Err(BotError::CacheMissing)
    );
    assert_eq!(
        module.timeout_command(60, 7, Some(8), Some(&roles), Some(&own), &equal),
        Ok(TimeoutVerdict::RoleAbove)
    );
    assert_eq!(
        module.timeout_command(60, 7, Some(8), Some(&roles), Some(&lower), &own),
        Ok(TimeoutVerdict::RoleAbove)
    );
    assert_eq!(
        module.timeout_command(60, 7, Some(8), Some(&roles), Some(&vec![]), &vec![]),
        Ok(TimeoutVerdict::RoleAbove)
    );
    assert_eq!(
        module.timeout_command(LONGEST_TIMEOUT, 7, Some(8), Some(&roles), Some(&own), &lower),
        Ok(TimeoutVerdict::Apply)
    );
}

#[test]
fn refusals() {
    let module = UtilsModule::new();
    let text = |v: TimeoutVerdict| {
        module.refusal(v, 7, true).map(|b| (b.get_description().unwrap().clone(), b.is_ephemeral()))
    };
    assert_eq!(text(TimeoutVerdict::TooLong), Some(("Duration is too long".to_string(), true)));
    assert_eq!(text(TimeoutVerdict::Owner), Some(("Can't time out owner".to_string(), true)));
    assert_eq!(text(TimeoutVerdict::RoleAbove), Some(("<@7> has a role above me".to_string(), true)));
    assert_eq!(text(TimeoutVerdict::Apply), None);
}

#[test]
fn until_text_is_short_or_full() {
    let module = UtilsModule::new();
    assert_eq!(module.until_text(1700000000, 60), "<t:1700000000:t> <t:1700000000:R>");
    assert_eq!(module.until_text(1700000000, 3600), "<t:1700000000:t> <t:1700000000:R>");
    assert_eq!(module.until_text(1700000000, 3601), "<t:1700000000:f> <t:1700000000:R>");
}

#[test]
fn announcement_by_name_or_anonymous() {
    let module = UtilsModule::new();
    let named = module.announcement(&options(true, true, false), 7, "soon", 9).unwrap();
    assert_eq!(named.description, "<@7> was muted");
    assert!(!named.in_channel);
    assert_eq!(
        named.fields,
        vec![("Reason", "spam".to_string()), ("Until", "soon".to_string()), ("By", "<@9>".to_string())]
    );
    let anonymous = module.announcement(&options(true, true, true), 7, "soon", 9).unwrap();
    assert!(anonymous.in_channel);
    assert_eq!(anonymous.fields, vec![("Reason", "spam".to_string()), ("Until", "soon".to_string())]);
    assert!(module.announcement(&options(false, true, false), 7, "soon", 9).is_none());
}

#[test]
fn direct_message_never_goes_to_a_bot() {
    let module = UtilsModule::new();
    assert_eq!(
        module.direct_message(&options(true, true, false), false, "[G](link)", "soon"),
        Some("You were muted in [G](link) until soon for spam".to_string())
    );
    assert_eq!(module.direct_message(&options(true, true, false), true, "[G](link)", "soon"), None);
    assert_eq!(module.direct_message(&options(true, false, false), false, "[G](link)", "soon"), None);
}

#[test]
fn closing_answers() {
    let module = UtilsModule::new();
    assert!(module.closing_answer(&options(true, true, false)).is_none());
    let closing = module.closing_answer(&options(false, true, true)).unwrap();
    assert_eq!(closing.get_description().map(|s| s.as_str()), Some("Success"));
    assert!(closing.is_ephemeral());
    let lifted = module.untimeout_command();
    assert_eq!(lifted.get_description().map(|s| s.as_str()), Some("Success"));
    assert!(!lifted.is_ephemeral());
}

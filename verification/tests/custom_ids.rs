use makita::custom_ids::{build_custom_id, parse_custom_id, CustomIdType};
use makita::error::BotError;
use makita::strmap::StringMap;

#[test]
fn bare_identifier_has_no_arguments() {
    let (ty, args) = parse_custom_id("MAK;ListPermissions").unwrap();
    assert_eq!(ty, CustomIdType::ListPermissions);
    assert_eq!(args.len(), 0);
}

#[test]
fn identifier_with_two_arguments() {
    let (ty, args) = parse_custom_id("MAK;ListPermissions;a=1;b=2").unwrap();
    assert_eq!(ty, CustomIdType::ListPermissions);
    assert_eq!(args.len(), 2);
    assert_eq!(args.get("a").map(|s| s.as_str()), Some("1"));
    assert_eq!(args.get("b").map(|s| s.as_str()), Some("2"));
    assert_eq!(args.get("c"), None);
}

#[test]
fn later_argument_replaces_earlier_one() {
    let (_, args) = parse_custom_id("MAK;ListPermissions;a=1;a=2").unwrap();
    assert_eq!(args.len(), 1);
    assert_eq!(args.get("a").map(|s| s.as_str()), Some("2"));
}

#[test]
fn value_may_hold_equals_sign() {
    let (_, args) = parse_custom_id("MAK;ListPermissions;k=a=b").unwrap();
    assert_eq!(args.get("k").map(|s| s.as_str()), Some("a=b"));
}

#[test]
fn unknown_kind_is_rejected() {
    let err = parse_custom_id("MAK;Nope").unwrap_err();
    assert_eq!(err, BotError::InvalidRequest("Invalid CustomID type Nope".to_string()));
    assert_eq!(err.message(), "Invalid request: `Invalid CustomID type Nope`");
}

#[test]
fn argument_without_equals_is_rejected_first() {
    let err = parse_custom_id("MAK;Nope;broken").unwrap_err();
    assert_eq!(err, BotError::InvalidRequest("Invalid CustomID argument broken".to_string()));
}

#[test]
fn kind_name_round_trip() {
    assert!(matches!(CustomIdType::from_str("ListPermissions"), Ok(CustomIdType::ListPermissions)));
    assert!(CustomIdType::from_str("listpermissions").is_err());
    assert_eq!(CustomIdType::ListPermissions.name(), "ListPermissions");
}

#[test]
fn build_without_arguments() {
    assert_eq!(build_custom_id(&CustomIdType::ListPermissions, &None), "MAK;ListPermissions");
}

#[test]
fn build_with_arguments_and_parse_back() {
    let mut map: StringMap<String> = StringMap::new();
    map.insert("a".to_string(), "1".to_string());
    map.insert("b".to_string(), "2".to_string());
    let id = build_custom_id(&CustomIdType::ListPermissions, &Some(map));
    assert_eq!(id, "MAK;ListPermissions;a=1;b=2");
    let (_, args) = parse_custom_id(&id).unwrap();
    assert_eq!(args.get("a").map(|s| s.as_str()), Some("1"));
    assert_eq!(args.get("b").map(|s| s.as_str()), Some("2"));
}

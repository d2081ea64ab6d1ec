use ybc::autocomplete::{AutoComplete, TagSelection};
use ybc::bridge::{parse_command, value_event, BridgeError, WidgetEvent};

#[test]
fn parses_add_and_remove() {
    assert_eq!(parse_command("{\"op\":\"add\",\"value\":\"Rust\"}"), Ok(WidgetEvent::Added("Rust".to_string())));
    assert_eq!(parse_command("{\"op\":\"remove\",\"value\":\"Rust\"}"), Ok(WidgetEvent::Removed("Rust".to_string())));
}

#[test]
fn parses_blanks_escapes_and_member_order() {
    assert_eq!(
        parse_command(" { \"value\" : \"a\\\"b\\\\c\\n\" ,\n \"op\" : \"add\" } "),
        Ok(WidgetEvent::Added("a\"b\\c\n".to_string()))
    );
    assert_eq!(
        parse_command("{\"op\":\"add\",\"value\":\"x\",\"op\":\"remove\"}"),
        Ok(WidgetEvent::Removed("x".to_string()))
    );
    assert_eq!(parse_command("{\"op\":\"add\",\"value\":\"\"}"), Ok(WidgetEvent::Added(String::new())));
    assert_eq!(parse_command("{\"op\":\"add\",\"value\":\"Größe\"}"), Ok(WidgetEvent::Added("Größe".to_string())));
}

#[test]
fn refuses_malformed_payloads() {
    assert_eq!(parse_command(""), Err(BridgeError::Unparsable));
    assert_eq!(parse_command("Rust"), Err(BridgeError::Unparsable));
    assert_eq!(parse_command("{\"op\":\"add\",\"value\":\"Rust\""), Err(BridgeError::Unparsable));
    assert_eq!(parse_command("{\"op\":\"add\",\"value\":\"Rust\"} x"), Err(BridgeError::Unparsable));
    assert_eq!(parse_command("{\"op\":\"add\",}"), Err(BridgeError::Unparsable));
    assert_eq!(parse_command("{\"op\":1}"), Err(BridgeError::Unparsable));
    assert_eq!(parse_command("{\"op\":\"a\\qb\"}"), Err(BridgeError::Unparsable));
}

#[test]
fn refuses_commands_without_fields() {
    assert_eq!(parse_command("{}"), Err(BridgeError::MissingOp));
    assert_eq!(parse_command("{\"value\":\"Rust\"}"), Err(BridgeError::MissingOp));
    assert_eq!(parse_command("{\"op\":\"add\"}"), Err(BridgeError::MissingValue));
    assert_eq!(parse_command("{\"op\":\"toggle\",\"value\":\"Rust\"}"), Err(BridgeError::UnknownOp));
}

#[test]
fn event_round_trip() {
    let mut sel = TagSelection::new();
    let added = AutoComplete::bridge("{\"op\":\"add\",\"value\":\"Rust\"}").unwrap();
    assert_eq!(added, WidgetEvent::Added("Rust".to_string()));
    sel.apply(&added);
    assert_eq!(sel.tags.iter().filter(|t| t.as_str() == "Rust").count(), 1);
    assert_eq!(sel.receive("{\"op\":\"remove\",\"value\":\"Rust\"}"), Ok(()));
    assert!(!sel.tags.contains(&"Rust".to_string()));
}

#[test]
fn tag_selection_keeps_each_tag_once() {
    let mut sel = TagSelection::new();
    sel.apply(&WidgetEvent::Added("Yew".to_string()));
    sel.apply(&WidgetEvent::Added("Rust".to_string()));
    sel.apply(&WidgetEvent::Added("Yew".to_string()));
    assert_eq!(sel.tags, vec!["Yew".to_string(), "Rust".to_string()]);
    sel.apply(&WidgetEvent::Changed("x".to_string()));
    assert_eq!(sel.tags, vec!["Yew".to_string(), "Rust".to_string()]);
    sel.apply(&WidgetEvent::Removed("Bulma".to_string()));
    assert_eq!(sel.tags, vec!["Yew".to_string(), "Rust".to_string()]);
    sel.apply(&WidgetEvent::Removed("Yew".to_string()));
    assert_eq!(sel.tags, vec!["Rust".to_string()]);
}

#[test]
fn bad_payload_leaves_selection_unchanged() {
    let mut sel = TagSelection::new();
    sel.apply(&WidgetEvent::Added("Rust".to_string()));
    assert_eq!(sel.receive("{\"op\":\"add\"}"), Err(BridgeError::MissingValue));
    assert_eq!(sel.tags, vec!["Rust".to_string()]);
}

#[test]
fn value_event_is_changed() {
    assert_eq!(value_event("2030-01-01".to_string()), WidgetEvent::Changed("2030-01-01".to_string()));
    assert_eq!(value_event(String::new()), WidgetEvent::Changed(String::new()));
}

#[test]
fn parses_unicode_escapes() {
    assert_eq!(
        parse_command("{\"op\":\"add\",\"value\":\"\\u0001x\\u00e9\\u00C9\"}"),
        Ok(WidgetEvent::Added("\u{1}x\u{e9}\u{c9}".to_string()))
    );
    assert_eq!(
        parse_command("{\"op\":\"remove\",\"value\":\"\\ud83e\\udd80!\"}"),
        Ok(WidgetEvent::Removed("\u{1f980}!".to_string()))
    );
    assert_eq!(parse_command("{\"op\":\"\\u0061dd\",\"value\":\"v\"}"), Ok(WidgetEvent::Added("v".to_string())));
}

#[test]
fn refuses_bad_unicode_escapes() {
    assert_eq!(parse_command("{\"op\":\"add\",\"value\":\"\\ud83e\"}"), Err(BridgeError::Unparsable));
    assert_eq!(parse_command("{\"op\":\"add\",\"value\":\"\\udd80\"}"), Err(BridgeError::Unparsable));
    assert_eq!(parse_command("{\"op\":\"add\",\"value\":\"\\ud83e\\u0041\"}"), Err(BridgeError::Unparsable));
    assert_eq!(parse_command("{\"op\":\"add\",\"value\":\"\\u00g1\"}"), Err(BridgeError::Unparsable));
    assert_eq!(parse_command("{\"op\":\"add\",\"value\":\"\\u00\"}"), Err(BridgeError::Unparsable));
}

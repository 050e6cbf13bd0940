use boopifier::Event;
use boopifier::json::{JsonValue, json_eq, num_as_u64};

fn s(t: &str) -> JsonValue {
    JsonValue::Str(t.to_string())
}

fn event(fields: Vec<(&str, JsonValue)>) -> Event {
    Event { data: fields.into_iter().map(|(k, v)| (k.to_string(), v)).collect() }
}

fn pairs(fields: Vec<(&str, JsonValue)>) -> Vec<(String, JsonValue)> {
    fields.into_iter().map(|(k, v)| (k.to_string(), v)).collect()
}

#[test]
fn test_parse_event() {
    let event = event(vec![("event_type", s("task_complete")), ("status", s("success"))]);
    assert_eq!(event.get_str("event_type"), Some("task_complete"));
    assert_eq!(event.get_str("status"), Some("success"));
}

#[test]
fn test_nested_access() {
    let event = event(vec![(
        "tool",
        JsonValue::Obj(pairs(vec![("name", s("bash")), ("status", s("success"))])),
    )]);
    assert_eq!(event.get_nested_str("tool.name"), Some("bash".to_string()));
}

#[test]
fn get_str_rejects_non_string_fields() {
    let event = event(vec![("n", JsonValue::Num("5".to_string()))]);
    assert_eq!(event.get_str("n"), None);
    assert_eq!(event.get_str("absent"), None);
}

#[test]
fn nested_lookup_fails_through_non_objects() {
    let event = event(vec![("tool", s("bash"))]);
    assert_eq!(event.get_nested_str("tool.name"), None);
}

#[test]
fn nested_lookup_only_yields_strings() {
    let event = event(vec![(
        "tool",
        JsonValue::Obj(pairs(vec![("depth", JsonValue::Num("3".to_string()))])),
    )]);
    assert_eq!(event.get_nested_str("tool.depth"), None);
}

#[test]
fn as_value_wraps_the_fields() {
    let event = event(vec![("a", s("b"))]);
    assert_eq!(event.as_value(), JsonValue::Obj(pairs(vec![("a", s("b"))])));
}

#[test]
fn json_eq_is_deep() {
    let a = JsonValue::Obj(pairs(vec![("xs", JsonValue::Arr(vec![s("1"), JsonValue::Null]))]));
    let b = JsonValue::Obj(pairs(vec![("xs", JsonValue::Arr(vec![s("1"), JsonValue::Null]))]));
    let c = JsonValue::Obj(pairs(vec![("xs", JsonValue::Arr(vec![s("2"), JsonValue::Null]))]));
    assert!(json_eq(&a, &b));
    assert!(!json_eq(&a, &c));
}

#[test]
fn num_as_u64_parses_decimal_renderings() {
    assert_eq!(num_as_u64("5000"), Some(5000));
    assert_eq!(num_as_u64("0"), Some(0));
    assert_eq!(num_as_u64("18446744073709551615"), Some(u64::MAX));
    assert_eq!(num_as_u64("18446744073709551616"), None);
    assert_eq!(num_as_u64("-3"), None);
    assert_eq!(num_as_u64("2.5"), None);
    assert_eq!(num_as_u64(""), None);
}

#[test]
fn get_nested_reaches_any_value_kind() {
    let event = event(vec![(
        "tool",
        JsonValue::Obj(pairs(vec![("depth", JsonValue::Num("3".to_string()))])),
    )]);
    assert_eq!(event.get_nested("tool.depth"), Some(&JsonValue::Num("3".to_string())));
    assert_eq!(event.get_nested("tool.absent"), None);
}

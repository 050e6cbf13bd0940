use boopifier::json::JsonValue;
use boopifier::{Event, MatchRules, MatchType};

fn s(t: &str) -> JsonValue {
    JsonValue::Str(t.to_string())
}

fn event(fields: Vec<(&str, JsonValue)>) -> Event {
    Event { data: fields.into_iter().map(|(k, v)| (k.to_string(), v)).collect() }
}

fn pairs(fields: Vec<(&str, JsonValue)>) -> Vec<(String, JsonValue)> {
    fields.into_iter().map(|(k, v)| (k.to_string(), v)).collect()
}

#[test]
fn test_simple_match() {
    let event = event(vec![("event_type", s("success")), ("tool", s("bash"))]);
    let rules = pairs(vec![("event_type", s("success"))]);
    assert!(boopifier::matcher::matches(&event, &Some(MatchRules::Simple(rules)), &MatchType::Exact));
}

#[test]
fn test_simple_no_match() {
    let event = event(vec![("event_type", s("error")), ("tool", s("bash"))]);
    let rules = pairs(vec![("event_type", s("success"))]);
    assert!(!boopifier::matcher::matches(&event, &Some(MatchRules::Simple(rules)), &MatchType::Exact));
}

#[test]
fn test_nested_match() {
    let event = event(vec![(
        "tool",
        JsonValue::Obj(pairs(vec![("name", s("bash")), ("status", s("ok"))])),
    )]);
    let rules = pairs(vec![("tool.name", s("bash"))]);
    assert!(boopifier::matcher::matches(&event, &Some(MatchRules::Simple(rules)), &MatchType::Exact));
}

#[test]
fn test_no_rules_matches_all() {
    let event = event(vec![("anything", s("goes"))]);
    assert!(boopifier::matcher::matches(&event, &None, &MatchType::Exact));
}

#[test]
fn test_complex_all() {
    let event = event(vec![("type", s("success")), ("tool", s("bash"))]);
    let rule1 = pairs(vec![("type", s("success"))]);
    let rule2 = pairs(vec![("tool", s("bash"))]);
    let rules = MatchRules::Complex { all: Some(vec![rule1, rule2]), any: None, not: None };
    assert!(boopifier::matcher::matches(&event, &Some(rules), &MatchType::Exact));
}

#[test]
fn test_complex_any() {
    let event = event(vec![("status", s("ok"))]);
    let rule1 = pairs(vec![("status", s("ok"))]);
    let rule2 = pairs(vec![("status", s("error"))]);
    let rules = MatchRules::Complex { all: None, any: Some(vec![rule1, rule2]), not: None };
    assert!(boopifier::matcher::matches(&event, &Some(rules), &MatchType::Exact));
}

#[test]
fn test_complex_not() {
    let event = event(vec![("status", s("ok"))]);
    let not_rule = pairs(vec![("status", s("error"))]);
    let rules = MatchRules::Complex { all: None, any: None, not: Some(not_rule) };
    assert!(boopifier::matcher::matches(&event, &Some(rules), &MatchType::Exact));
}

#[test]
fn test_any_with_hook_event_name() {
    let event = event(vec![("hook_event_name", s("Notification"))]);
    let rule1 = pairs(vec![("hook_event_name", s("Notification"))]);
    let rule2 = pairs(vec![("hook_event_name", s("Stop"))]);
    let rules = MatchRules::Complex { all: None, any: Some(vec![rule1, rule2]), not: None };
    assert!(
        boopifier::matcher::matches(&event, &Some(rules), &MatchType::Exact),
        "Should match Notification in any rules"
    );
}

#[test]
fn test_simple_deserialized_complex_any_matches() {
    // An untyped {"any": [...]} object read as a simple mapping must still
    // be evaluated as a complex rule.
    let event = event(vec![("hook_event_name", s("Notification"))]);
    let any_list = JsonValue::Arr(vec![
        JsonValue::Obj(pairs(vec![("hook_event_name", s("Notification"))])),
        JsonValue::Obj(pairs(vec![("hook_event_name", s("Stop"))])),
    ]);
    let simple_map = pairs(vec![("any", any_list)]);
    assert!(boopifier::matcher::matches(&event, &Some(MatchRules::Simple(simple_map)), &MatchType::Exact));
}

#[test]
fn test_simple_deserialized_complex_any_no_match() {
    let event = event(vec![("hook_event_name", s("PermissionRequest"))]);
    let any_list = JsonValue::Arr(vec![
        JsonValue::Obj(pairs(vec![("hook_event_name", s("Notification"))])),
        JsonValue::Obj(pairs(vec![("hook_event_name", s("Stop"))])),
    ]);
    let simple_map = pairs(vec![("any", any_list)]);
    assert!(!boopifier::matcher::matches(&event, &Some(MatchRules::Simple(simple_map)), &MatchType::Exact));
}

#[test]
fn test_actual_simple_rule_not_affected() {
    let event = event(vec![("hook_event_name", s("Notification"))]);
    let simple_map = pairs(vec![("hook_event_name", s("Notification"))]);
    assert!(boopifier::matcher::matches(&event, &Some(MatchRules::Simple(simple_map)), &MatchType::Exact));
}

#[test]
fn test_complex_none_fields_no_match() {
    let event = event(vec![("hook_event_name", s("Notification"))]);
    let rules = MatchRules::Complex { all: None, any: None, not: None };
    assert!(!boopifier::matcher::matches(&event, &Some(rules), &MatchType::Exact));
}

#[test]
fn test_regex_simple_pattern() {
    let event = event(vec![("message", s("Agent needs your permission to use Write"))]);
    let rules = pairs(vec![("message", s("Agent needs your permission.*"))]);
    assert!(boopifier::matcher::matches(&event, &Some(MatchRules::Simple(rules)), &MatchType::Regex));
}

#[test]
fn test_regex_no_match() {
    let event = event(vec![("message", s("Something else"))]);
    let rules = pairs(vec![("message", s("Agent needs your permission.*"))]);
    assert!(!boopifier::matcher::matches(&event, &Some(MatchRules::Simple(rules)), &MatchType::Regex));
}

#[test]
fn test_regex_with_complex_any() {
    let event = event(vec![
        ("hook_event_name", s("Notification")),
        ("message", s("Agent needs your permission to use Write")),
    ]);
    let rule1 = pairs(vec![("hook_event_name", s("PermissionRequest"))]);
    let rule2 = pairs(vec![("hook_event_name", s("Notification")), ("message", s(".*permission.*"))]);
    let rules = MatchRules::Complex { all: None, any: Some(vec![rule1, rule2]), not: None };
    assert!(boopifier::matcher::matches(&event, &Some(rules), &MatchType::Regex));
}

#[test]
fn test_exact_match_still_works() {
    let event = event(vec![("status", s("success"))]);
    let rules = pairs(vec![("status", s("success"))]);
    assert!(boopifier::matcher::matches(&event, &Some(MatchRules::Simple(rules)), &MatchType::Exact));
}

#[test]
fn invalid_regex_pattern_never_matches() {
    // An unclosed parenthesis is not a valid pattern: it must match
    // nothing, not fail.
    let event = event(vec![("message", s("foo(bar"))]);
    let rules = pairs(vec![("message", s("foo(bar"))]);
    assert!(!boopifier::matcher::matches(&event, &Some(MatchRules::Simple(rules)), &MatchType::Regex));
}

#[test]
fn array_subset_matches() {
    let event = event(vec![("tags", JsonValue::Arr(vec![s("a"), s("b")]))]);
    let rules = pairs(vec![("tags", JsonValue::Arr(vec![s("a")]))]);
    assert!(boopifier::matcher::matches(&event, &Some(MatchRules::Simple(rules)), &MatchType::Exact));
}

#[test]
fn array_subset_rejects_missing_element() {
    let event = event(vec![("tags", JsonValue::Arr(vec![s("b")]))]);
    let rules = pairs(vec![("tags", JsonValue::Arr(vec![s("a")]))]);
    assert!(!boopifier::matcher::matches(&event, &Some(MatchRules::Simple(rules)), &MatchType::Exact));
}

#[test]
fn empty_any_list_never_matches() {
    let event = event(vec![("status", s("ok"))]);
    let rules = MatchRules::Complex { all: None, any: Some(vec![]), not: None };
    assert!(!boopifier::matcher::matches(&event, &Some(rules), &MatchType::Exact));
}

#[test]
fn number_and_bool_fields_match_by_equality() {
    let event = event(vec![
        ("count", JsonValue::Num("5000".to_string())),
        ("ok", JsonValue::Bool(true)),
    ]);
    let good = pairs(vec![
        ("count", JsonValue::Num("5000".to_string())),
        ("ok", JsonValue::Bool(true)),
    ]);
    assert!(boopifier::matcher::matches(&event, &Some(MatchRules::Simple(good)), &MatchType::Exact));
    let bad = pairs(vec![("count", JsonValue::Num("5001".to_string()))]);
    assert!(!boopifier::matcher::matches(&event, &Some(MatchRules::Simple(bad)), &MatchType::Exact));
}

#[test]
fn object_match_is_recursive_and_partial() {
    let event = event(vec![(
        "tool",
        JsonValue::Obj(pairs(vec![("name", s("bash")), ("status", s("ok"))])),
    )]);
    let expected = pairs(vec![("tool", JsonValue::Obj(pairs(vec![("name", s("bash"))])))]);
    assert!(boopifier::matcher::matches(&event, &Some(MatchRules::Simple(expected)), &MatchType::Exact));
    let wrong = pairs(vec![("tool", JsonValue::Obj(pairs(vec![("name", s("zsh"))])))]);
    assert!(!boopifier::matcher::matches(&event, &Some(MatchRules::Simple(wrong)), &MatchType::Exact));
}

#[test]
fn missing_field_fails_simple_rule() {
    let event = event(vec![("present", s("yes"))]);
    let rules = pairs(vec![("absent", s("yes"))]);
    assert!(!boopifier::matcher::matches(&event, &Some(MatchRules::Simple(rules)), &MatchType::Exact));
}

#[test]
fn type_mismatch_never_matches() {
    let event = event(vec![("value", s("5"))]);
    let rules = pairs(vec![("value", JsonValue::Num("5".to_string()))]);
    assert!(!boopifier::matcher::matches(&event, &Some(MatchRules::Simple(rules)), &MatchType::Exact));
}

#[test]
fn nested_match_reaches_non_string_values() {
    // A dotted path compares whatever value it reaches: here a number.
    let event = event(vec![(
        "a",
        JsonValue::Obj(pairs(vec![("b", JsonValue::Num("5".to_string()))])),
    )]);
    let rules = pairs(vec![("a.b", JsonValue::Num("5".to_string()))]);
    assert!(boopifier::matcher::matches(&event, &Some(MatchRules::Simple(rules)), &MatchType::Exact));

    let wrong = pairs(vec![("a.b", JsonValue::Num("6".to_string()))]);
    assert!(!boopifier::matcher::matches(&event, &Some(MatchRules::Simple(wrong)), &MatchType::Exact));
}

#[test]
fn nested_match_applies_subset_and_object_rules() {
    let event = event(vec![(
        "tool",
        JsonValue::Obj(pairs(vec![
            ("tags", JsonValue::Arr(vec![s("x"), s("y")])),
            ("info", JsonValue::Obj(pairs(vec![("ok", JsonValue::Bool(true)), ("n", s("1"))]))),
        ])),
    )]);
    let subset = pairs(vec![("tool.tags", JsonValue::Arr(vec![s("y")]))]);
    assert!(boopifier::matcher::matches(&event, &Some(MatchRules::Simple(subset)), &MatchType::Exact));

    let partial_obj = pairs(vec![(
        "tool.info",
        JsonValue::Obj(pairs(vec![("ok", JsonValue::Bool(true))])),
    )]);
    assert!(boopifier::matcher::matches(&event, &Some(MatchRules::Simple(partial_obj)), &MatchType::Exact));

    let missing = pairs(vec![("tool.absent", JsonValue::Bool(true))]);
    assert!(!boopifier::matcher::matches(&event, &Some(MatchRules::Simple(missing)), &MatchType::Exact));
}

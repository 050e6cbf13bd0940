use boopifier::json::JsonValue;
use boopifier::{
    DispatchItem, DispatchJob, Event, HandlerConfig, HandlerOutcome, MatchRules, MatchType,
    collect_outcomes, plan_dispatch,
};

fn s(t: &str) -> JsonValue {
    JsonValue::Str(t.to_string())
}

fn event(fields: Vec<(&str, JsonValue)>) -> Event {
    Event { data: fields.into_iter().map(|(k, v)| (k.to_string(), v)).collect() }
}

fn pairs(fields: Vec<(&str, JsonValue)>) -> Vec<(String, JsonValue)> {
    fields.into_iter().map(|(k, v)| (k.to_string(), v)).collect()
}

fn handler(name: &str, handler_type: &str, rules: Option<MatchRules>) -> HandlerConfig {
    HandlerConfig {
        name: name.to_string(),
        handler_type: handler_type.to_string(),
        match_rules: rules,
        match_type: MatchType::Exact,
        config: vec![],
    }
}

fn known() -> Vec<String> {
    vec!["desktop".to_string(), "sound".to_string(), "webhook".to_string()]
}

#[test]
fn plan_keeps_only_matching_handlers_in_order() {
    let event = event(vec![("hook_event_name", s("Notification"))]);
    let handlers = vec![
        handler("first", "desktop", None),
        handler(
            "skipped",
            "sound",
            Some(MatchRules::Simple(pairs(vec![("hook_event_name", s("Stop"))]))),
        ),
        handler(
            "second",
            "webhook",
            Some(MatchRules::Simple(pairs(vec![("hook_event_name", s("Notification"))]))),
        ),
    ];
    let plan = plan_dispatch(&handlers, &event, &known());
    assert_eq!(plan.len(), 2);
    assert_eq!(plan[0].name, "first");
    assert_eq!(plan[1].name, "second");
    assert!(matches!(plan[0].job, DispatchJob::Invoke { .. }));
    assert!(matches!(plan[1].job, DispatchJob::Invoke { .. }));
}

#[test]
fn untyped_any_rule_matches_through_the_plan() {
    // A rule submitted as a plain mapping whose only key is `any` is
    // evaluated as a complex rule when planning.
    let event = event(vec![("hook_event_name", s("Notification"))]);
    let any_list = JsonValue::Arr(vec![
        JsonValue::Obj(pairs(vec![("hook_event_name", s("Notification"))])),
        JsonValue::Obj(pairs(vec![("hook_event_name", s("Stop"))])),
    ]);
    let handlers = vec![handler(
        "h",
        "desktop",
        Some(MatchRules::Simple(pairs(vec![("any", any_list)]))),
    )];
    let plan = plan_dispatch(&handlers, &event, &known());
    assert_eq!(plan.len(), 1);
    assert_eq!(plan[0].name, "h");
}

#[test]
fn unknown_handler_type_isolated_to_one_error_outcome() {
    // One handler names a backend that is not registered: it contributes
    // exactly one error outcome naming it, and its siblings still run and
    // contribute their own.
    let event = event(vec![("hook_event_name", s("Notification"))]);
    let handlers = vec![
        handler("a", "desktop", None),
        handler("b", "telegraph", None),
        handler("c", "sound", None),
    ];
    let plan = plan_dispatch(&handlers, &event, &known());
    assert_eq!(plan.len(), 3);
    assert!(matches!(plan[1].job, DispatchJob::UnknownType { .. }));

    let results = vec![Ok(()), Ok(()), Err("audio device gone".to_string())];
    let outcomes = collect_outcomes(&plan, &results);
    assert_eq!(
        outcomes,
        vec![
            HandlerOutcome::Success,
            HandlerOutcome::Error("b: Unknown handler type: telegraph".to_string()),
            HandlerOutcome::Error("c: audio device gone".to_string()),
        ]
    );
}

#[test]
fn failures_never_fail_the_batch() {
    let event = event(vec![("hook_event_name", s("Stop"))]);
    let handlers = vec![handler("x", "desktop", None), handler("y", "sound", None)];
    let plan = plan_dispatch(&handlers, &event, &known());
    let results = vec![Err("boom".to_string()), Err("crash".to_string())];
    let outcomes = collect_outcomes(&plan, &results);
    assert_eq!(
        outcomes,
        vec![
            HandlerOutcome::Error("x: boom".to_string()),
            HandlerOutcome::Error("y: crash".to_string()),
        ]
    );
}

#[test]
fn invoke_items_carry_the_handler_configuration() {
    let event = event(vec![("k", s("v"))]);
    let mut h = handler("named", "webhook", None);
    h.config = pairs(vec![("url", s("https://example.test"))]);
    let plan = plan_dispatch(&vec![h], &event, &known());
    assert_eq!(plan.len(), 1);
    let DispatchItem { name, job } = &plan[0];
    assert_eq!(name, "named");
    match job {
        DispatchJob::Invoke { handler_type, config } => {
            assert_eq!(handler_type, "webhook");
            assert_eq!(config, &pairs(vec![("url", s("https://example.test"))]));
        }
        other => panic!("expected an invocation, got {:?}", other),
    }
}

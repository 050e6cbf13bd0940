use boopifier::hooks::error_response;
use boopifier::json::JsonValue;
use boopifier::{
    Event, HandlerOutcome, Hook, InteractiveResponse, PermissionDecision, hook_from_event,
};
use boopifier::hooks::{
    NotificationHook, PermissionRequestHook, PostToolUseHook, PreCompactHook, PreToolUseHook,
    SessionEndHook, SessionStartHook, StopHook, UserPromptSubmitHook,
};

fn s(t: &str) -> JsonValue {
    JsonValue::Str(t.to_string())
}

fn event(fields: Vec<(&str, JsonValue)>) -> Event {
    Event { data: fields.into_iter().map(|(k, v)| (k.to_string(), v)).collect() }
}

fn empty_obj() -> JsonValue {
    JsonValue::Obj(vec![])
}

fn obj(fields: Vec<(&str, JsonValue)>) -> JsonValue {
    JsonValue::Obj(fields.into_iter().map(|(k, v)| (k.to_string(), v)).collect())
}

#[test]
fn test_stop_hook_response() {
    let hook = StopHook::new("Stop");
    assert_eq!(hook.hook_type(), "Stop");

    let response = hook.generate_response(&vec![]);
    assert_eq!(response, empty_obj());
}

#[test]
fn test_subagent_stop_hook_response() {
    let hook = StopHook::new("SubagentStop");
    assert_eq!(hook.hook_type(), "SubagentStop");

    let response = hook.generate_response(&vec![]);
    assert_eq!(response, empty_obj());
}

#[test]
fn test_notification_hook_response() {
    let hook = NotificationHook;
    assert_eq!(hook.hook_type(), "Notification");

    let response = hook.generate_response(&vec![]);
    assert_eq!(response, empty_obj());
}

#[test]
fn test_permission_request_hook_response() {
    let hook = PermissionRequestHook;
    assert_eq!(hook.hook_type(), "PermissionRequest");

    let response = hook.generate_response(&vec![]);
    assert_eq!(response, empty_obj());
}

#[test]
fn test_user_prompt_submit_hook_response() {
    let hook = UserPromptSubmitHook;
    assert_eq!(hook.hook_type(), "UserPromptSubmit");

    let response = hook.generate_response(&vec![]);
    assert_eq!(response, empty_obj());
}

#[test]
fn test_session_start_hook_response() {
    let hook = SessionStartHook;
    assert_eq!(hook.hook_type(), "SessionStart");

    let response = hook.generate_response(&vec![]);
    assert_eq!(response, empty_obj());
}

#[test]
fn test_session_end_hook_response() {
    let hook = SessionEndHook;
    assert_eq!(hook.hook_type(), "SessionEnd");

    let response = hook.generate_response(&vec![]);
    assert_eq!(response, empty_obj());
}

#[test]
fn test_pre_compact_hook_response() {
    let hook = PreCompactHook;
    assert_eq!(hook.hook_type(), "PreCompact");

    let response = hook.generate_response(&vec![]);
    assert_eq!(response, empty_obj());
}

#[test]
fn test_post_tool_use_response() {
    let hook = PostToolUseHook;
    assert_eq!(hook.hook_type(), "PostToolUse");

    let response = hook.generate_response(&vec![]);
    assert_eq!(response, empty_obj());
}

#[test]
fn test_pre_tool_use_auto_approve() {
    let event = event(vec![("hook_event_name", s("PreToolUse")), ("tool_name", s("Bash"))]);
    let hook = PreToolUseHook::from_event(&event).unwrap();

    assert_eq!(hook.hook_type(), "PreToolUse");

    let response = hook.generate_response(&vec![]);
    assert_eq!(
        response,
        obj(vec![(
            "hookSpecificOutput",
            obj(vec![
                ("hookEventName", s("PreToolUse")),
                ("permissionDecision", s("allow")),
            ]),
        )])
    );
}

#[test]
fn test_pre_tool_use_interactive_deny() {
    let event = event(vec![("hook_event_name", s("PreToolUse")), ("tool_name", s("Bash"))]);
    let hook = PreToolUseHook::from_event(&event).unwrap();

    let interactive = InteractiveResponse {
        decision: PermissionDecision::Deny,
        reason: Some("User denied".to_string()),
    };

    let response = hook.generate_response(&vec![HandlerOutcome::Interactive(interactive)]);
    assert_eq!(
        response,
        obj(vec![(
            "hookSpecificOutput",
            obj(vec![
                ("hookEventName", s("PreToolUse")),
                ("permissionDecision", s("deny")),
                ("permissionDecisionReason", s("User denied")),
            ]),
        )])
    );
}

#[test]
fn first_interactive_outcome_is_authoritative() {
    let event = event(vec![("hook_event_name", s("PreToolUse"))]);
    let hook = PreToolUseHook::from_event(&event).unwrap();
    let outcomes = vec![
        HandlerOutcome::Success,
        HandlerOutcome::Interactive(InteractiveResponse {
            decision: PermissionDecision::Ask,
            reason: None,
        }),
        HandlerOutcome::Interactive(InteractiveResponse {
            decision: PermissionDecision::Deny,
            reason: Some("later".to_string()),
        }),
    ];
    let response = hook.generate_response(&outcomes);
    assert_eq!(
        response,
        obj(vec![(
            "hookSpecificOutput",
            obj(vec![
                ("hookEventName", s("PreToolUse")),
                ("permissionDecision", s("ask")),
            ]),
        )])
    );
}

#[test]
fn pre_tool_use_missing_tool_name_defaults_to_unknown() {
    let event = event(vec![("hook_event_name", s("PreToolUse"))]);
    let hook = PreToolUseHook::from_event(&event).unwrap();
    assert_eq!(hook.tool_name, "unknown");
}

#[test]
fn hook_from_event_derives_each_category() {
    for name in [
        "Stop",
        "SubagentStop",
        "Notification",
        "PreToolUse",
        "PostToolUse",
        "PermissionRequest",
        "UserPromptSubmit",
        "SessionStart",
        "SessionEnd",
        "PreCompact",
    ] {
        let event = event(vec![("hook_event_name", s(name))]);
        let hook = hook_from_event(&event).unwrap();
        assert_eq!(hook.hook_type(), name);
    }
}

#[test]
fn hook_from_event_rejects_unknown_name() {
    let event = event(vec![("hook_event_name", s("Mystery"))]);
    let err = hook_from_event(&event).unwrap_err();
    assert_eq!(err, "Unknown hook type: Mystery");
}

#[test]
fn hook_from_event_without_name_is_unknown() {
    let event = event(vec![("other", s("x"))]);
    let err = hook_from_event(&event).unwrap_err();
    assert_eq!(err, "Unknown hook type: unknown");
}

#[test]
fn notification_event_with_no_handlers_yields_empty_object() {
    // End to end: a notification event with nothing configured answers {}.
    let event = event(vec![("hook_event_name", s("Notification"))]);
    let hook = hook_from_event(&event).unwrap();
    let plan = boopifier::plan_dispatch(&vec![], &event, &vec!["desktop".to_string()]);
    assert_eq!(plan.len(), 0);
    let outcomes = boopifier::collect_outcomes(&plan, &vec![]);
    let response = hook.generate_response(&outcomes);
    assert_eq!(response, empty_obj());
}

#[test]
fn pre_tool_use_without_interactive_outcomes_allows() {
    // End to end: a pre-tool event with no interactive outcome carries an
    // allow decision and no reason field.
    let event = event(vec![("hook_event_name", s("PreToolUse")), ("tool_name", s("Bash"))]);
    let hook = hook_from_event(&event).unwrap();
    let outcomes = vec![HandlerOutcome::Success, HandlerOutcome::Error("h: oops".to_string())];
    let response = hook.generate_response(&outcomes);
    assert_eq!(
        response,
        obj(vec![(
            "hookSpecificOutput",
            obj(vec![
                ("hookEventName", s("PreToolUse")),
                ("permissionDecision", s("allow")),
            ]),
        )])
    );
}

#[test]
fn pre_tool_use_interactive_deny_carries_reason() {
    // End to end: one handler denies with a reason; the response echoes
    // decision and reason.
    let event = event(vec![("hook_event_name", s("PreToolUse")), ("tool_name", s("Bash"))]);
    let hook = hook_from_event(&event).unwrap();
    let outcomes = vec![HandlerOutcome::Interactive(InteractiveResponse {
        decision: PermissionDecision::Deny,
        reason: Some("User denied".to_string()),
    })];
    let response = hook.generate_response(&outcomes);
    assert_eq!(
        response,
        obj(vec![(
            "hookSpecificOutput",
            obj(vec![
                ("hookEventName", s("PreToolUse")),
                ("permissionDecision", s("deny")),
                ("permissionDecisionReason", s("User denied")),
            ]),
        )])
    );
}

#[test]
fn error_response_tells_caller_to_continue() {
    let r = error_response("could not read the configuration");
    assert_eq!(
        r,
        obj(vec![
            ("continue", JsonValue::Bool(true)),
            (
                "systemMessage",
                s("Boopifier warning: could not read the configuration"),
            ),
        ])
    );
}

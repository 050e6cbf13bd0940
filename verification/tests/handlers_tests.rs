use boopifier::handlers::{
    DesktopRequest, DesktopUrgency, build_discord_payload, build_payload, build_slack_payload,
    get_sound_file, get_string, get_u32, render_template,
};
use boopifier::json::JsonValue;
use boopifier::{
    DesktopHandler, EmailHandler, Event, NotificationError, SignalHandler, SoundHandler,
    WebhookHandler,
};

fn s(t: &str) -> JsonValue {
    JsonValue::Str(t.to_string())
}

fn event(fields: Vec<(&str, JsonValue)>) -> Event {
    Event { data: fields.into_iter().map(|(k, v)| (k.to_string(), v)).collect() }
}

fn pairs(fields: Vec<(&str, JsonValue)>) -> Vec<(String, JsonValue)> {
    fields.into_iter().map(|(k, v)| (k.to_string(), v)).collect()
}

#[test]
fn email_test_handler_type() {
    let handler = EmailHandler;
    assert_eq!(handler.handler_type(), "email");
}

#[test]
fn signal_test_handler_type() {
    let handler = SignalHandler;
    assert_eq!(handler.handler_type(), "signal");
}

#[test]
fn sound_test_handler_type() {
    let handler = SoundHandler;
    assert_eq!(handler.handler_type(), "sound");
}

#[test]
fn webhook_test_handler_type() {
    let handler = WebhookHandler;
    assert_eq!(handler.handler_type(), "webhook");
}

#[test]
fn desktop_handler_type_is_desktop() {
    let handler = DesktopHandler;
    assert_eq!(handler.handler_type(), "desktop");
}

#[test]
fn test_template_rendering() {
    let event = event(vec![("status", s("success")), ("tool", s("bash"))]);
    let template = s("Tool {{tool}} completed with status {{status}}");

    let result = render_template(Some(&template), &event, "default");
    assert_eq!(result, "Tool bash completed with status success");
}

#[test]
fn test_get_string() {
    let config = pairs(vec![("key", s("value"))]);

    assert_eq!(get_string(&config, "key", "default"), "value");
    assert_eq!(get_string(&config, "missing", "default"), "default");
}

#[test]
fn test_render_template() {
    let event = event(vec![("status", s("success")), ("task", s("build"))]);
    let template = s("Task {{task}}: {{status}}");

    let result = render_template(Some(&template), &event, "default");
    assert_eq!(result, "Task build: success");
}

#[test]
fn test_render_message() {
    let event = event(vec![("status", s("success")), ("task", s("build"))]);
    let template = s("Task {{task}} completed: {{status}}");

    let result = render_template(Some(&template), &event, "default");
    assert_eq!(result, "Task build completed: success");
}

#[test]
fn template_substitutes_non_string_values_as_json() {
    let event = event(vec![("count", JsonValue::Num("7".to_string()))]);
    let template = s("n={{count}}");
    let result = render_template(Some(&template), &event, "default");
    assert_eq!(result, "n=7");
}

#[test]
fn absent_template_renders_default() {
    let event = event(vec![("status", s("ok"))]);
    assert_eq!(render_template(None, &event, "fallback"), "fallback");
}

#[test]
fn test_missing_config() {
    let handler = EmailHandler;
    let event = event(vec![("test", s("data"))]);
    let config = vec![];

    let result = handler.prepare(&event, &config);
    assert!(result.is_err());
}

#[test]
fn email_prepare_reads_all_settings() {
    let handler = EmailHandler;
    let event = event(vec![("task", s("build"))]);
    let config = pairs(vec![
        ("to", s("to@example.test")),
        ("from", s("from@example.test")),
        ("smtp_server", s("mail.example.test")),
        ("smtp_port", JsonValue::Num("2525".to_string())),
        ("subject", s("Task {{task}}")),
        ("body", s("finished {{task}}")),
        ("username", s("user")),
        ("password", s("SECRET-REDACTED")),
    ]);
    let q = handler.prepare(&event, &config).unwrap();
    assert_eq!(q.to, "to@example.test");
    assert_eq!(q.from, "from@example.test");
    assert_eq!(q.smtp_server, "mail.example.test");
    assert_eq!(q.smtp_port, 2525);
    assert_eq!(q.subject, "Task build");
    assert_eq!(q.body, "finished build");
    assert_eq!(q.username.as_deref(), Some("user"));
    assert_eq!(q.password.as_deref(), Some("SECRET-REDACTED"));
    assert!(handler.use_plain_transport("localhost", 2525));
    assert!(!handler.use_plain_transport("mail.example.test", 2525));
}

#[test]
fn test_missing_recipient() {
    let handler = SignalHandler;
    let event = event(vec![("test", s("data"))]);
    let config = vec![];

    let result = handler.prepare(&event, &config);
    assert!(result.is_err());
    assert!(result.unwrap_err().message().contains("requires 'recipient'"));
}

#[test]
fn signal_prepare_renders_message() {
    let handler = SignalHandler;
    let event = event(vec![("task", s("build"))]);
    let config = pairs(vec![("recipient", s("+1555")), ("message", s("done: {{task}}"))]);
    let q = handler.prepare(&event, &config).unwrap();
    assert_eq!(q.recipient, "+1555");
    assert_eq!(q.message, "done: build");
    assert_eq!(q.cli_path, "signal-cli");
    assert_eq!(q.account, None);
}

#[test]
fn desktop_prepare_reads_all_settings() {
    let handler = DesktopHandler;
    let event = event(vec![("tool", s("bash"))]);
    let config = pairs(vec![
        ("summary", s("Done")),
        ("body", s("ran {{tool}}")),
        ("timeout", JsonValue::Num("2500".to_string())),
        ("urgency", s("critical")),
    ]);
    let q: DesktopRequest = handler.prepare(&event, &config);
    assert_eq!(q.summary, "Done");
    assert_eq!(q.body, "ran bash");
    assert_eq!(q.timeout_ms, 2500);
    assert_eq!(q.urgency, DesktopUrgency::Critical);

    let defaults: DesktopRequest = handler.prepare(&event, &vec![]);
    assert_eq!(defaults.summary, "Notification");
    assert_eq!(defaults.timeout_ms, 5000);
    assert_eq!(defaults.urgency, DesktopUrgency::Normal);
}

#[test]
fn get_u32_reads_numbers_with_default() {
    let config = pairs(vec![("timeout", JsonValue::Num("5000".to_string()))]);
    assert_eq!(get_u32(&config, "timeout", 1000), 5000);
    assert_eq!(get_u32(&config, "missing", 1000), 1000);
    let bad = pairs(vec![("timeout", s("soon"))]);
    assert_eq!(get_u32(&bad, "timeout", 1000), 1000);
}

#[test]
fn test_build_slack_payload() {
    let event = event(vec![("status", s("success"))]);
    let config = pairs(vec![("text", s("Status: {{status}}"))]);

    let payload = build_slack_payload(&event, &config).unwrap();
    assert_eq!(payload, JsonValue::Obj(pairs(vec![("text", s("Status: success"))])));
}

#[test]
fn test_build_discord_payload() {
    let event = event(vec![("task", s("build"))]);
    let config = pairs(vec![("content", s("Task: {{task}}"))]);

    let payload = build_discord_payload(&event, &config).unwrap();
    assert_eq!(payload, JsonValue::Obj(pairs(vec![("content", s("Task: build"))])));
}

#[test]
fn json_payload_renders_nested_templates() {
    let event = event(vec![("status", s("ok"))]);
    let config = pairs(vec![(
        "payload",
        JsonValue::Obj(pairs(vec![(
            "msg",
            JsonValue::Arr(vec![s("st: {{status}}"), JsonValue::Bool(true)]),
        )])),
    )]);
    let payload = build_payload("json", &event, &config).unwrap();
    assert_eq!(
        payload,
        JsonValue::Obj(pairs(vec![(
            "msg",
            JsonValue::Arr(vec![s("st: ok"), JsonValue::Bool(true)]),
        )]))
    );
}

#[test]
fn unknown_webhook_type_is_rejected() {
    let event = event(vec![("status", s("ok"))]);
    let r = build_payload("carrier-pigeon", &event, &vec![]);
    match r {
        Err(NotificationError::InvalidConfig(m)) => {
            assert_eq!(m, "Unknown webhook type: carrier-pigeon");
        }
        other => panic!("expected a configuration error, got {:?}", other),
    }
}

#[test]
fn test_missing_url() {
    let handler = WebhookHandler;
    let event = event(vec![("test", s("data"))]);
    let config = vec![];

    let result = handler.prepare(&event, &config);
    assert!(result.is_err());
    assert!(result.unwrap_err().message().contains("requires 'url'"));
}

#[test]
fn webhook_prepare_defaults_to_json_payload() {
    let handler = WebhookHandler;
    let event = event(vec![("a", s("b"))]);
    let config = pairs(vec![("url", s("https://example.test/hook"))]);
    let q = handler.prepare(&event, &config).unwrap();
    assert_eq!(q.url, "https://example.test/hook");
    assert_eq!(q.payload, JsonValue::Obj(pairs(vec![("a", s("b"))])));
}

#[test]
fn test_missing_file_config() {
    let config = vec![];

    let result = get_sound_file(&config);
    assert!(result.is_err());
    assert!(result.unwrap_err().message().contains("requires either 'file' or 'files'"));
}

#[test]
fn test_get_sound_file_single() {
    let config = pairs(vec![("file", s("/path/to/sound.wav"))]);

    let result = get_sound_file(&config).unwrap();
    assert_eq!(result, "/path/to/sound.wav");
}

#[test]
fn test_get_sound_file_array_no_random() {
    let config = pairs(vec![("files", JsonValue::Arr(vec![s("sound1.wav"), s("sound2.wav")]))]);

    let result = get_sound_file(&config).unwrap();
    // Without random, should return first file
    assert_eq!(result, "sound1.wav");
}

#[test]
fn test_get_sound_file_array_with_random() {
    let config = pairs(vec![
        ("files", JsonValue::Arr(vec![s("sound1.wav"), s("sound2.wav"), s("sound3.wav")])),
        ("random", JsonValue::Bool(true)),
    ]);

    // Test multiple times to ensure it returns one of the files
    for _ in 0..10 {
        let result = get_sound_file(&config).unwrap();
        assert!(
            result == "sound1.wav" || result == "sound2.wav" || result == "sound3.wav",
            "Got unexpected file: {}",
            result
        );
    }
}

#[test]
fn test_get_sound_file_empty_array() {
    let config = pairs(vec![("files", JsonValue::Arr(vec![]))]);

    let result = get_sound_file(&config);
    assert!(result.is_err());
    assert!(result.unwrap_err().message().contains("empty"));
}

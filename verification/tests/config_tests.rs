use boopifier::json::JsonValue;
use boopifier::secrets::{env_request, file_request, resolve_secret_string, resolve_secrets};
use boopifier::{Config, HandlerConfig, MatchType, NotificationError, ProjectOverride};

fn handler(name: &str, handler_type: &str) -> HandlerConfig {
    HandlerConfig {
        name: name.to_string(),
        handler_type: handler_type.to_string(),
        match_rules: None,
        match_type: MatchType::Exact,
        config: vec![],
    }
}

fn handler_with_config(name: &str, config: Vec<(&str, JsonValue)>) -> HandlerConfig {
    HandlerConfig {
        name: name.to_string(),
        handler_type: "desktop".to_string(),
        match_rules: None,
        match_type: MatchType::Exact,
        config: config.into_iter().map(|(k, v)| (k.to_string(), v)).collect(),
    }
}

#[test]
fn test_override_exact_match() {
    let mut config = Config {
        handlers: vec![handler("base", "desktop")],
        overrides: Some(vec![ProjectOverride {
            path_pattern: "/home/user/work/project1".to_string(),
            handlers: vec![handler("work", "sound")],
        }]),
    };
    assert_eq!(config.handlers[0].name, "base");

    config.apply_overrides("/home/user/work/project1");
    assert_eq!(config.handlers.len(), 1);
    assert_eq!(config.handlers[0].name, "work");
}

#[test]
fn test_override_glob_wildcard() {
    let overrides = || {
        Some(vec![ProjectOverride {
            path_pattern: "/home/user/work/*".to_string(),
            handlers: vec![handler("work", "sound")],
        }])
    };

    let mut config = Config { handlers: vec![handler("base", "desktop")], overrides: overrides() };
    config.apply_overrides("/home/user/work/project1");
    assert_eq!(config.handlers[0].name, "work");

    let mut config2 = Config { handlers: vec![handler("base", "desktop")], overrides: overrides() };
    config2.apply_overrides("/home/user/work/project2");
    assert_eq!(config2.handlers[0].name, "work");
}

#[test]
fn test_override_last_match_wins() {
    let mut config = Config {
        handlers: vec![handler("base", "desktop")],
        overrides: Some(vec![
            ProjectOverride {
                path_pattern: "/home/user/work/*".to_string(),
                handlers: vec![handler("work-general", "sound")],
            },
            ProjectOverride {
                path_pattern: "/home/user/work/special".to_string(),
                handlers: vec![handler("work-special", "webhook")],
            },
        ]),
    };
    config.apply_overrides("/home/user/work/special");
    assert_eq!(config.handlers[0].name, "work-special");
}

#[test]
fn override_replaces_list_outright() {
    // The matched override's list stands alone: nothing of the base list
    // or of earlier matches is merged in.
    let mut config = Config {
        handlers: vec![handler("base", "desktop")],
        overrides: Some(vec![
            ProjectOverride {
                path_pattern: "/work/*".to_string(),
                handlers: vec![handler("h1", "sound")],
            },
            ProjectOverride {
                path_pattern: "/work/special".to_string(),
                handlers: vec![handler("h2", "webhook")],
            },
        ]),
    };
    config.apply_overrides("/work/special");
    assert_eq!(config.handlers.len(), 1);
    assert_eq!(config.handlers[0].name, "h2");
}

#[test]
fn test_override_no_match() {
    let mut config = Config {
        handlers: vec![handler("base", "desktop")],
        overrides: Some(vec![ProjectOverride {
            path_pattern: "/home/user/work/*".to_string(),
            handlers: vec![handler("work", "sound")],
        }]),
    };
    config.apply_overrides("/home/user/personal/project");
    assert_eq!(config.handlers[0].name, "base");
}

#[test]
fn test_override_no_overrides_field() {
    let mut config = Config { handlers: vec![handler("base", "desktop")], overrides: None };
    config.apply_overrides("/any/path");
    assert_eq!(config.handlers[0].name, "base");
}

#[test]
fn invalid_override_pattern_matches_nothing() {
    let mut config = Config {
        handlers: vec![handler("base", "desktop")],
        overrides: Some(vec![ProjectOverride {
            path_pattern: "[".to_string(),
            handlers: vec![handler("broken", "sound")],
        }]),
    };
    config.apply_overrides("/any/path");
    assert_eq!(config.handlers[0].name, "base");
}

#[test]
fn test_env_var_resolution() {
    let env = vec![("TEST_VAR".to_string(), "secret_value".to_string())];
    let resolved = resolve_secret_string("prefix_{{env.TEST_VAR}}_suffix", &env, &vec![]).unwrap();
    assert_eq!(resolved, "prefix_secret_value_suffix");
}

#[test]
fn env_resolution_substitutes_every_occurrence() {
    let env = vec![("FOO".to_string(), "bar".to_string())];
    let resolved =
        resolve_secret_string("x_{{env.FOO}}_y_{{env.FOO}}_z", &env, &vec![]).unwrap();
    assert_eq!(resolved, "x_bar_y_bar_z");
}

#[test]
fn missing_env_var_fails_resolution() {
    let r = resolve_secret_string("x_{{env.NOT_SET}}_y", &vec![], &vec![]);
    match r {
        Err(NotificationError::InvalidConfig(m)) => {
            assert_eq!(m, "Environment variable not found: NOT_SET");
        }
        other => panic!("expected a configuration error, got {:?}", other),
    }
}

#[test]
fn file_resolution_trims_content() {
    let files = vec![("/tmp/token".to_string(), "SECRET-REDACTED\n".to_string())];
    let resolved = resolve_secret_string("key={{file./tmp/token}}", &vec![], &files).unwrap();
    assert_eq!(resolved, "key=SECRET-REDACTED");
}

#[test]
fn missing_file_fails_resolution() {
    let r = resolve_secret_string("key={{file./nope}}", &vec![], &vec![]);
    match r {
        Err(NotificationError::InvalidConfig(m)) => {
            assert_eq!(m, "Failed to read file: /nope");
        }
        other => panic!("expected a configuration error, got {:?}", other),
    }
}

#[test]
fn plain_string_resolves_to_itself() {
    let resolved = resolve_secret_string("no placeholders here", &vec![], &vec![]).unwrap();
    assert_eq!(resolved, "no placeholders here");
}

#[test]
fn env_request_names_first_placeholder() {
    assert_eq!(env_request("a {{env.ONE}} b {{env.TWO}}"), Some("ONE".to_string()));
    assert_eq!(env_request("nothing"), None);
    assert_eq!(file_request("x {{file.~/p.txt}} y"), Some("~/p.txt".to_string()));
}

#[test]
fn resolve_secrets_rewrites_handler_values() {
    let mut config = Config {
        handlers: vec![handler_with_config(
            "h",
            vec![
                ("url", JsonValue::Str("https://example.test/{{env.HOOK}}".to_string())),
                ("count", JsonValue::Num("3".to_string())),
            ],
        )],
        overrides: Some(vec![ProjectOverride {
            path_pattern: "/w/*".to_string(),
            handlers: vec![handler_with_config(
                "o",
                vec![("token", JsonValue::Str("{{env.HOOK}}".to_string()))],
            )],
        }]),
    };
    let env = vec![("HOOK".to_string(), "abc".to_string())];
    resolve_secrets(&mut config, &env, &vec![]).unwrap();
    assert_eq!(
        config.handlers[0].config[0].1,
        JsonValue::Str("https://example.test/abc".to_string())
    );
    assert_eq!(config.handlers[0].config[1].1, JsonValue::Num("3".to_string()));
    let ovs = config.overrides.as_ref().unwrap();
    assert_eq!(ovs[0].handlers[0].config[0].1, JsonValue::Str("abc".to_string()));
}

#[test]
fn resolve_secrets_fails_config_load_on_missing_var() {
    let mut config = Config {
        handlers: vec![handler_with_config(
            "h",
            vec![("url", JsonValue::Str("{{env.ABSENT}}".to_string()))],
        )],
        overrides: None,
    };
    let r = resolve_secrets(&mut config, &vec![], &vec![]);
    match r {
        Err(NotificationError::InvalidConfig(m)) => {
            assert_eq!(m, "Environment variable not found: ABSENT");
        }
        other => panic!("expected a configuration error, got {:?}", other),
    }
}

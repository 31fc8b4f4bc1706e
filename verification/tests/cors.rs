use daiana::config::cors::cors_directives;
use daiana::config::cors::list_setting;
use daiana::config::cors::CorsDirective;
use daiana::config::cors::CorsEnv;
use daiana::config::cors::CorsSettings;
use daiana::config::cors::OneOrMany;

fn empty_env() -> CorsEnv {
    CorsEnv {
        enable_cors: None,
        cors_enabled: None,
        origins: None,
        methods: None,
        headers: None,
        expose_headers: None,
        credentials: None,
        send_wildcard: None,
        max_age: None,
        block_on_origin_mismatch: None,
    }
}

#[test]
fn test_disabled_by_default_when_no_env() {
    assert!(CorsSettings::from_values(&empty_env()).is_none());
}

#[test]
fn test_enabled_when_origins_set() {
    let env = CorsEnv {
        origins: Some("http://localhost:3000,https://app.example.com".to_string()),
        ..empty_env()
    };
    let settings = CorsSettings::from_values(&env).expect("Should be enabled when origins are set");
    assert_eq!(
        settings.origins,
        Some(OneOrMany::Many(vec![
            "http://localhost:3000".to_string(),
            "https://app.example.com".to_string()
        ]))
    );
}

#[test]
fn test_explicitly_disabled() {
    let env = CorsEnv {
        enable_cors: Some("false".to_string()),
        origins: Some("*".to_string()),
        ..empty_env()
    };
    assert!(CorsSettings::from_values(&env).is_none());
}

#[test]
fn explicitly_enabled_without_settings() {
    let env = CorsEnv { cors_enabled: Some("true".to_string()), ..empty_env() };
    let settings = CorsSettings::from_values(&env).unwrap();
    assert_eq!(settings.origins, None);
    assert!(!settings.credentials);
    assert_eq!(settings.max_age, None);
}

#[test]
fn enable_cors_takes_precedence_over_cors_enabled() {
    let env = CorsEnv {
        enable_cors: Some("false".to_string()),
        cors_enabled: Some("true".to_string()),
        ..empty_env()
    };
    assert!(CorsSettings::from_values(&env).is_none());
}

#[test]
fn unreadable_switch_falls_back_to_presence_of_settings() {
    let env = CorsEnv {
        enable_cors: Some("yes".to_string()),
        credentials: Some("nope".to_string()),
        ..empty_env()
    };
    let settings = CorsSettings::from_values(&env).unwrap();
    assert!(!settings.credentials);
}

#[test]
fn flags_and_max_age_are_read() {
    let env = CorsEnv {
        credentials: Some("true".to_string()),
        send_wildcard: Some("false".to_string()),
        max_age: Some("3600".to_string()),
        block_on_origin_mismatch: Some("true".to_string()),
        ..empty_env()
    };
    let settings = CorsSettings::from_values(&env).unwrap();
    assert!(settings.credentials);
    assert!(!settings.send_wildcard);
    assert_eq!(settings.max_age, Some(3600));
    assert!(settings.block_on_origin_mismatch);
}

#[test]
fn list_settings_are_trimmed() {
    assert_eq!(list_setting("   "), None);
    assert_eq!(list_setting(" * "), Some(OneOrMany::One("*".to_string())));
    assert_eq!(
        list_setting(" GET , POST,OPTIONS "),
        Some(OneOrMany::Many(vec!["GET".to_string(), "POST".to_string(), "OPTIONS".to_string()]))
    );
    assert_eq!(list_setting("a,"), Some(OneOrMany::Many(vec!["a".to_string(), "".to_string()])));
}

#[test]
fn wildcards_allow_anything() {
    let settings = CorsSettings {
        origins: Some(OneOrMany::One("*".to_string())),
        methods: Some(OneOrMany::One("*".to_string())),
        headers: Some(OneOrMany::One("*".to_string())),
        expose_headers: Some(OneOrMany::One("*".to_string())),
        credentials: false,
        send_wildcard: false,
        max_age: None,
        block_on_origin_mismatch: false,
    };
    assert_eq!(
        cors_directives(&settings),
        vec![
            CorsDirective::AllowAnyOrigin,
            CorsDirective::AllowAnyMethod,
            CorsDirective::AllowAnyHeader,
            CorsDirective::ExposeAnyHeader,
            CorsDirective::BlockOnOriginMismatch(false),
        ]
    );
}

#[test]
fn explicit_lists_are_passed_on_in_order() {
    let settings = CorsSettings {
        origins: Some(OneOrMany::Many(vec!["https://a.com".to_string(), "https://b.com".to_string()])),
        methods: Some(OneOrMany::One("GET".to_string())),
        headers: Some(OneOrMany::Many(vec!["Accept".to_string()])),
        expose_headers: Some(OneOrMany::One("X-Id".to_string())),
        credentials: true,
        send_wildcard: true,
        max_age: Some(60),
        block_on_origin_mismatch: true,
    };
    assert_eq!(
        cors_directives(&settings),
        vec![
            CorsDirective::AllowedOrigin("https://a.com".to_string()),
            CorsDirective::AllowedOrigin("https://b.com".to_string()),
            CorsDirective::AllowedMethods(vec!["GET".to_string()]),
            CorsDirective::AllowedHeaders(vec!["Accept".to_string()]),
            CorsDirective::ExposeHeaders(vec!["X-Id".to_string()]),
            CorsDirective::SupportsCredentials,
            CorsDirective::SendWildcard,
            CorsDirective::MaxAge(60),
            CorsDirective::BlockOnOriginMismatch(true),
        ]
    );
}

#[test]
fn single_header_is_allowed_alone() {
    let settings = CorsSettings {
        origins: None,
        methods: None,
        headers: Some(OneOrMany::One("Authorization".to_string())),
        expose_headers: None,
        credentials: false,
        send_wildcard: false,
        max_age: None,
        block_on_origin_mismatch: false,
    };
    assert_eq!(
        cors_directives(&settings),
        vec![
            CorsDirective::AllowedHeader("Authorization".to_string()),
            CorsDirective::BlockOnOriginMismatch(false),
        ]
    );
}

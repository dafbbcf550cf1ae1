use game_systems_web::config::{parse_u16, Config, EnvValues};

#[test]
fn unset_environment_gives_the_defaults() {
    let c = Config::from_values(EnvValues::default());
    assert_eq!(c.port, 8080);
    assert_eq!(c.shared_url, "http://localhost:8081");
    assert_eq!(c.game_systems_api_url, "http://localhost:8000");
    assert_eq!(c.log_level, "info");
    assert_eq!(c.shared_session_redis_host, None);
    assert_eq!(c.shared_session_redis_port, 6379);
    assert_eq!(c.shared_session_redis_db, 0);
    assert_eq!(c.env, "dev");
    assert!(c.otlp_endpoint.is_none() && c.sentry_dsn.is_none());
}

#[test]
fn set_environment_values_are_used() {
    let c = Config::from_values(EnvValues {
        port: Some("9090".into()),
        shared_session_redis_host: Some("cache.sweetrpg-auth".into()),
        shared_session_redis_db: Some("3".into()),
        shared_session_redis_pass: Some(String::new()),
        sentry_dsn: Some(String::new()),
        env: Some("prod".into()),
        ..Default::default()
    });
    assert_eq!(c.port, 9090);
    assert_eq!(c.shared_session_redis_host.as_deref(), Some("cache.sweetrpg-auth"));
    assert_eq!(c.shared_session_redis_db, 3);
    assert_eq!(c.shared_session_redis_pass, None);
    assert_eq!(c.sentry_dsn, None);
    assert_eq!(c.env, "prod");
}

#[test]
fn invalid_numbers_fall_back_to_defaults() {
    let c = Config::from_values(EnvValues {
        port: Some("70000".into()),
        shared_session_redis_port: Some("-1".into()),
        ..Default::default()
    });
    assert_eq!(c.port, 8080);
    assert_eq!(c.shared_session_redis_port, 6379);
}

#[test]
fn parse_u16_matches_std() {
    for s in ["0", "8080", "+8080", "65535", "65536", "", "+", "-0", " 1", "1 ", "00012", "99999999999"] {
        assert_eq!(parse_u16(s), s.parse::<u16>().ok(), "{s:?}");
    }
}

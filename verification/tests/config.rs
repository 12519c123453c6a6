use std::time::Duration;

use smolofis_panel::config::{
    bind_text, env_or, env_parsed, poll_period_ms, unparseable_variables, BindAddr, Config,
    Environment,
};

fn environment(vars: &[(&str, &str)]) -> Environment {
    Environment {
        vars: vars
            .iter()
            .map(|(key, value)| (key.to_string(), value.to_string()))
            .collect(),
    }
}

#[test]
fn env_or_falls_back_when_unset() {
    let env = environment(&[]);
    assert_eq!(env_or(&env, "SMOLOFIS_TEST_OR_UNSET", "fallback"), "fallback");
}

#[test]
fn env_or_falls_back_on_blank() {
    let env = environment(&[("SMOLOFIS_TEST_OR_BLANK", "   ")]);
    assert_eq!(env_or(&env, "SMOLOFIS_TEST_OR_BLANK", "fallback"), "fallback");
}

#[test]
fn env_or_reads_value_when_set() {
    let env = environment(&[("SMOLOFIS_TEST_OR_SET", "custom")]);
    assert_eq!(env_or(&env, "SMOLOFIS_TEST_OR_SET", "fallback"), "custom");
}

#[test]
fn env_or_keeps_white_space_of_value() {
    let env = environment(&[("SMOLOFIS_TEST_OR_SET", " custom\t")]);
    assert_eq!(env_or(&env, "SMOLOFIS_TEST_OR_SET", "fallback"), " custom\t");
}

#[test]
fn env_parsed_reads_and_trims_value() {
    let env = environment(&[("SMOLOFIS_TEST_PARSE_OK", "  42  ")]);
    assert_eq!(env_parsed::<u16>(&env, "SMOLOFIS_TEST_PARSE_OK", 7), 42);
}

#[test]
fn env_parsed_falls_back_on_garbage() {
    let env = environment(&[("SMOLOFIS_TEST_PARSE_BAD", "not-a-number")]);
    assert_eq!(env_parsed::<u16>(&env, "SMOLOFIS_TEST_PARSE_BAD", 7), 7);
}

#[test]
fn env_parsed_falls_back_when_unset() {
    let env = environment(&[]);
    assert_eq!(env_parsed::<u64>(&env, "SMOLOFIS_TEST_PARSE_UNSET", 3), 3);
}

#[test]
fn env_parsed_falls_back_on_overflow() {
    let env = environment(&[("PORT", "65536"), ("SECS", "18446744073709551616")]);
    assert_eq!(env_parsed::<u16>(&env, "PORT", 7), 7);
    assert_eq!(env_parsed::<u64>(&env, "PORT", 7), 65536);
    assert_eq!(env_parsed::<u64>(&env, "SECS", 7), 7);
}

#[test]
fn numbers_are_read_back() {
    for n in [0u64, 9, 10, 3000, 65535, u64::MAX] {
        let env = environment(&[("N", &n.to_string())]);
        assert_eq!(env_parsed::<u64>(&env, "N", 1), n);
        assert_eq!(env_parsed::<u16>(&env, "N", 1), u16::try_from(n).unwrap_or(1));
    }
}

#[test]
fn first_of_two_variables_counts() {
    let env = environment(&[("PORT", "1"), ("PORT", "2")]);
    assert_eq!(env_parsed::<u16>(&env, "PORT", 7), 1);
}

#[test]
fn from_env_uses_appliance_defaults() {
    let cfg = Config::from_env(&environment(&[("PATH", "/bin")]), None);
    assert_eq!(cfg.gitea_url, "http://127.0.0.1:3000");
    assert_eq!(cfg.gitea_health_path, "/api/healthz");
    assert_eq!(cfg.docker_socket, "/var/run/docker.sock");
    assert_eq!(
        Duration::from_secs(cfg.poll_interval_secs),
        Duration::from_secs(3)
    );
    assert_eq!(cfg.gitea_public_port, 3000);
    assert_eq!(cfg.coolify_url, "http://127.0.0.1:8000");
    assert_eq!(cfg.coolify_health_path, "/api/health");
    assert_eq!(cfg.coolify_public_port, 8000);
    assert_eq!(cfg.bind_addr, BindAddr::V4 { ipv4: 0, port: 80 });
}

#[test]
fn from_env_reads_every_variable() {
    let env = environment(&[
        ("SMOLOFIS_BIND", " 127.0.0.1:8080 "),
        ("SMOLOFIS_GITEA_URL", "http://gitea"),
        ("SMOLOFIS_GITEA_HEALTH_PATH", "/g"),
        ("SMOLOFIS_COOLIFY_URL", "http://coolify"),
        ("SMOLOFIS_COOLIFY_HEALTH_PATH", "/c"),
        ("SMOLOFIS_DOCKER_SOCKET", "/tmp/docker.sock"),
        ("SMOLOFIS_POLL_INTERVAL_SECS", "10"),
        ("SMOLOFIS_GITEA_PUBLIC_PORT", "3001"),
        ("SMOLOFIS_COOLIFY_PUBLIC_PORT", "8001"),
    ]);
    assert_eq!(bind_text(&env), Some("127.0.0.1:8080".to_string()));
    let bind = BindAddr::V4 {
        ipv4: 0x7f00_0001,
        port: 8080,
    };
    let cfg = Config::from_env(&env, Some(bind));
    assert_eq!(cfg.bind_addr, bind);
    assert_eq!(cfg.gitea_url, "http://gitea");
    assert_eq!(cfg.gitea_health_path, "/g");
    assert_eq!(cfg.coolify_url, "http://coolify");
    assert_eq!(cfg.coolify_health_path, "/c");
    assert_eq!(cfg.docker_socket, "/tmp/docker.sock");
    assert_eq!(cfg.poll_interval_secs, 10);
    assert_eq!(cfg.gitea_public_port, 3001);
    assert_eq!(cfg.coolify_public_port, 8001);
}

#[test]
fn from_env_falls_back_where_the_address_is_unparseable() {
    let env = environment(&[("SMOLOFIS_BIND", "nowhere")]);
    let cfg = Config::from_env(&env, None);
    assert_eq!(cfg.bind_addr, BindAddr::V4 { ipv4: 0, port: 80 });
}

#[test]
fn bind_text_is_none_when_unset() {
    assert_eq!(bind_text(&environment(&[])), None);
}

/// The settings as texts, each with the name of its variable.
fn settings(cfg: &Config) -> Vec<(&'static str, String)> {
    vec![
        ("SMOLOFIS_BIND", format!("{:?}", cfg.bind_addr)),
        ("SMOLOFIS_GITEA_URL", cfg.gitea_url.clone()),
        ("SMOLOFIS_GITEA_HEALTH_PATH", cfg.gitea_health_path.clone()),
        ("SMOLOFIS_COOLIFY_URL", cfg.coolify_url.clone()),
        ("SMOLOFIS_COOLIFY_HEALTH_PATH", cfg.coolify_health_path.clone()),
        ("SMOLOFIS_DOCKER_SOCKET", cfg.docker_socket.clone()),
        ("SMOLOFIS_POLL_INTERVAL_SECS", cfg.poll_interval_secs.to_string()),
        ("SMOLOFIS_GITEA_PUBLIC_PORT", cfg.gitea_public_port.to_string()),
        ("SMOLOFIS_COOLIFY_PUBLIC_PORT", cfg.coolify_public_port.to_string()),
    ]
}

#[test]
fn a_variable_reaches_no_setting_but_its_own() {
    let bind = BindAddr::V4 { ipv4: 1, port: 42 };
    let defaults = Config::from_env(&environment(&[]), None);
    for (name, _) in settings(&defaults) {
        let cfg = Config::from_env(&environment(&[(name, "42")]), Some(bind));
        for (before, after) in settings(&defaults).into_iter().zip(settings(&cfg)) {
            assert_eq!(before.1 != after.1, before.0 == name, "{name} {}", before.0);
        }
    }
    let other = Config::from_env(&environment(&[("SMOLOFIS_COLOUR", "42")]), Some(bind));
    assert_eq!(settings(&other), settings(&defaults));
}

#[test]
fn the_poll_period_is_never_zero() {
    assert_eq!(poll_period_ms(0), 1);
    assert_eq!(poll_period_ms(1), 1_000);
    assert_eq!(poll_period_ms(3), 3_000);
    assert_eq!(poll_period_ms(18_446_744_073_709_551), 18_446_744_073_709_551_000);
    assert_eq!(poll_period_ms(18_446_744_073_709_552), u64::MAX);
    assert_eq!(poll_period_ms(u64::MAX), u64::MAX);
}

#[test]
fn unparseable_variables_are_reported_with_their_texts() {
    let env = environment(&[
        ("SMOLOFIS_GITEA_URL", "not a url"),
        ("SMOLOFIS_GITEA_PUBLIC_PORT", "65536"),
        ("SMOLOFIS_POLL_INTERVAL_SECS", " soon "),
        ("SMOLOFIS_COOLIFY_PUBLIC_PORT", ""),
        ("SMOLOFIS_BIND", " nowhere "),
    ]);
    let report = |key, text: &str| (key, text.to_string());
    assert_eq!(
        unparseable_variables(&env, None),
        vec![
            report("SMOLOFIS_BIND", " nowhere "),
            report("SMOLOFIS_POLL_INTERVAL_SECS", " soon "),
            report("SMOLOFIS_GITEA_PUBLIC_PORT", "65536"),
            report("SMOLOFIS_COOLIFY_PUBLIC_PORT", ""),
        ]
    );
    let defaults = Config::from_env(&environment(&[]), None);
    let cfg = Config::from_env(&env, None);
    assert_eq!(cfg.bind_addr, defaults.bind_addr);
    assert_eq!(cfg.poll_interval_secs, defaults.poll_interval_secs);
    assert_eq!(cfg.gitea_public_port, defaults.gitea_public_port);
    assert_eq!(cfg.coolify_public_port, defaults.coolify_public_port);
}

#[test]
fn nothing_is_reported_of_what_is_unset_or_parses() {
    assert_eq!(unparseable_variables(&environment(&[]), None), vec![]);
    let env = environment(&[
        ("SMOLOFIS_BIND", "0.0.0.0:8080"),
        ("SMOLOFIS_POLL_INTERVAL_SECS", " 65536 "),
        ("SMOLOFIS_GITEA_PUBLIC_PORT", "+3001"),
        ("SMOLOFIS_COOLIFY_PUBLIC_PORT", "65535"),
    ]);
    let bind = BindAddr::V4 {
        ipv4: 0,
        port: 8080,
    };
    assert_eq!(unparseable_variables(&env, Some(bind)), vec![]);
}

//! Configuration parsing: the defaults, each variable, and each refusal.

use std::collections::HashMap;
use std::path::PathBuf;
use std::time::Duration;

use replayable_proxy::config::{
    is_loopback_host, parse_bool_env, parse_duration_secs, trim_trailing_slash,
    validate_upstream_url, Config, ConfigError, ListenAddr, ListenIp, DEFAULT_CAPTURE_CONTENT,
    DEFAULT_CONNECT_TIMEOUT_SECS, DEFAULT_LISTEN, DEFAULT_LOG_CHANNEL_CAPACITY,
    DEFAULT_LOG_PATH, DEFAULT_MAX_REQUEST_BYTES, DEFAULT_READ_TIMEOUT_SECS, ENV_CAPTURE_CONTENT,
    ENV_CONNECT_TIMEOUT_SECS, ENV_LISTEN, ENV_LOG_CHANNEL_CAPACITY, ENV_LOG_PATH,
    ENV_MAX_REQUEST_BYTES, ENV_READ_TIMEOUT_SECS, ENV_UPSTREAM_ALLOW_PLAINTEXT, ENV_UPSTREAM_URL,
};

fn lookup<'a>(map: &'a HashMap<&'a str, &'a str>) -> impl Fn(&str) -> Option<String> + 'a {
    move |name: &str| map.get(name).map(|v| (*v).to_string())
}

fn invalid_reason(err: &ConfigError, expected_name: &str) -> String {
    match err {
        ConfigError::Invalid { name, reason } => {
            assert_eq!(*name, expected_name);
            reason.clone()
        }
        ConfigError::Missing(n) => panic!("expected Invalid for {expected_name}, got Missing({n})"),
    }
}

#[test]
fn fails_when_upstream_missing() {
    let env = HashMap::new();
    let err = Config::from_lookup(lookup(&env)).expect_err("missing upstream must error");
    assert!(matches!(err, ConfigError::Missing(ENV_UPSTREAM_URL)));
}

#[test]
fn parses_defaults() {
    let mut env = HashMap::new();
    env.insert(ENV_UPSTREAM_URL, "https://api.openai.com/");
    let cfg = Config::from_lookup(lookup(&env)).expect("config should parse");
    assert_eq!(cfg.listen.to_string(), DEFAULT_LISTEN);
    assert_eq!(cfg.upstream_url, "https://api.openai.com");
    assert_eq!(PathBuf::from(&cfg.log_path), PathBuf::from(DEFAULT_LOG_PATH));
    assert_eq!(cfg.log_channel_capacity, DEFAULT_LOG_CHANNEL_CAPACITY);
    assert!(!cfg.capture_content);
    assert_eq!(cfg.max_request_bytes, DEFAULT_MAX_REQUEST_BYTES);
    assert_eq!(
        cfg.connect_timeout,
        Duration::from_secs(DEFAULT_CONNECT_TIMEOUT_SECS)
    );
    assert_eq!(
        cfg.read_timeout,
        Duration::from_secs(DEFAULT_READ_TIMEOUT_SECS)
    );
}

#[test]
fn rejects_non_http_upstream() {
    let mut env = HashMap::new();
    env.insert(ENV_UPSTREAM_URL, "file:///etc/passwd");
    let err = Config::from_lookup(lookup(&env)).expect_err("non-http upstream must error");
    assert!(matches!(err, ConfigError::Invalid { name, .. } if name == ENV_UPSTREAM_URL));
}

#[test]
fn rejects_zero_capacity() {
    let mut env = HashMap::new();
    env.insert(ENV_UPSTREAM_URL, "http://localhost:9999");
    env.insert(ENV_LOG_CHANNEL_CAPACITY, "0");
    let err = Config::from_lookup(lookup(&env)).expect_err("zero capacity must error");
    assert!(
        matches!(err, ConfigError::Invalid { name, .. } if name == ENV_LOG_CHANNEL_CAPACITY)
    );
}

#[test]
fn parses_custom_listen() {
    let mut env = HashMap::new();
    env.insert(ENV_UPSTREAM_URL, "http://localhost:9999");
    env.insert(ENV_LISTEN, "127.0.0.1:12345");
    let cfg = Config::from_lookup(lookup(&env)).expect("config should parse");
    assert_eq!(cfg.listen.to_string(), "127.0.0.1:12345");
}

#[test]
fn default_listen_is_loopback() {
    let cfg = Config::default();
    assert!(
        cfg.listen.ip().is_loopback(),
        "Config::default().listen must be loopback; got {}",
        cfg.listen.to_string(),
    );
}

#[test]
fn rejects_imds_upstream() {
    let mut env = HashMap::new();
    env.insert(ENV_UPSTREAM_URL, "http://169.254.169.254/");
    let err = Config::from_lookup(lookup(&env)).expect_err("imds must be rejected");
    assert!(matches!(err, ConfigError::Invalid { name, .. } if name == ENV_UPSTREAM_URL));
}

#[test]
fn rejects_gcp_metadata_upstream() {
    let mut env = HashMap::new();
    env.insert(ENV_UPSTREAM_URL, "http://metadata.google.internal/");
    let err = Config::from_lookup(lookup(&env)).expect_err("gcp metadata must be rejected");
    assert!(matches!(err, ConfigError::Invalid { name, .. } if name == ENV_UPSTREAM_URL));
}

#[test]
fn rejects_plaintext_non_loopback_upstream() {
    let mut env = HashMap::new();
    env.insert(ENV_UPSTREAM_URL, "http://api.openai.com/");
    let err = Config::from_lookup(lookup(&env)).expect_err("plaintext non-loopback must fail");
    assert!(matches!(err, ConfigError::Invalid { name, .. } if name == ENV_UPSTREAM_URL));
}

#[test]
fn allows_plaintext_loopback_upstream() {
    let mut env = HashMap::new();
    env.insert(ENV_UPSTREAM_URL, "http://127.0.0.1:11434");
    let cfg = Config::from_lookup(lookup(&env)).expect("loopback plaintext must pass");
    assert_eq!(cfg.upstream_url, "http://127.0.0.1:11434");
}

#[test]
fn allows_plaintext_with_override() {
    let mut env = HashMap::new();
    env.insert(ENV_UPSTREAM_URL, "http://api.openai.com/");
    env.insert(ENV_UPSTREAM_ALLOW_PLAINTEXT, "true");
    let cfg =
        Config::from_lookup(lookup(&env)).expect("plaintext with explicit override must pass");
    assert_eq!(cfg.upstream_url, "http://api.openai.com");
}

#[test]
fn accepts_https_upstream() {
    let mut env = HashMap::new();
    env.insert(ENV_UPSTREAM_URL, "https://api.openai.com/");
    let cfg = Config::from_lookup(lookup(&env)).expect("https must always pass");
    assert_eq!(cfg.upstream_url, "https://api.openai.com");
}

#[test]
fn capture_content_opt_in() {
    let mut env = HashMap::new();
    env.insert(ENV_UPSTREAM_URL, "https://api.openai.com");
    env.insert(ENV_CAPTURE_CONTENT, "true");
    let cfg = Config::from_lookup(lookup(&env)).expect("config should parse");
    assert!(cfg.capture_content);
}

#[test]
fn rejects_invalid_capture_content() {
    let mut env = HashMap::new();
    env.insert(ENV_UPSTREAM_URL, "https://api.openai.com");
    env.insert(ENV_CAPTURE_CONTENT, "maybe");
    let err = Config::from_lookup(lookup(&env)).expect_err("invalid bool must error");
    assert!(matches!(err, ConfigError::Invalid { name, .. } if name == ENV_CAPTURE_CONTENT));
}

#[test]
fn parses_max_request_bytes() {
    let mut env = HashMap::new();
    env.insert(ENV_UPSTREAM_URL, "https://api.openai.com");
    env.insert(ENV_MAX_REQUEST_BYTES, "2048");
    let cfg = Config::from_lookup(lookup(&env)).expect("config should parse");
    assert_eq!(cfg.max_request_bytes, 2048);
}

#[test]
fn rejects_zero_max_request_bytes() {
    let mut env = HashMap::new();
    env.insert(ENV_UPSTREAM_URL, "https://api.openai.com");
    env.insert(ENV_MAX_REQUEST_BYTES, "0");
    let err = Config::from_lookup(lookup(&env)).expect_err("zero cap must error");
    assert!(matches!(err, ConfigError::Invalid { name, .. } if name == ENV_MAX_REQUEST_BYTES));
}

#[test]
fn parses_timeouts() {
    let mut env = HashMap::new();
    env.insert(ENV_UPSTREAM_URL, "https://api.openai.com");
    env.insert(ENV_CONNECT_TIMEOUT_SECS, "3");
    env.insert(ENV_READ_TIMEOUT_SECS, "75");
    let cfg = Config::from_lookup(lookup(&env)).expect("config should parse");
    assert_eq!(cfg.connect_timeout, Duration::from_secs(3));
    assert_eq!(cfg.read_timeout, Duration::from_secs(75));
}

// ---------------------------------------------------------------------
// Further cases
// ---------------------------------------------------------------------

#[test]
fn default_config_fields() {
    let cfg = Config::default();
    assert_eq!(cfg.listen, ListenAddr::v4(127, 0, 0, 1, 8080));
    assert_eq!(cfg.listen.to_string(), DEFAULT_LISTEN);
    assert_eq!(cfg.upstream_url, "");
    assert_eq!(cfg.log_path, DEFAULT_LOG_PATH);
    assert_eq!(cfg.log_channel_capacity, 1024);
    assert_eq!(cfg.capture_content, DEFAULT_CAPTURE_CONTENT);
    assert_eq!(cfg.max_request_bytes, 10 * 1024 * 1024);
    assert_eq!(cfg.connect_timeout, Duration::from_secs(10));
    assert_eq!(cfg.read_timeout, Duration::from_secs(600));
}

#[test]
fn upstream_is_trimmed_and_loses_one_trailing_slash() {
    let mut env = HashMap::new();
    env.insert(ENV_UPSTREAM_URL, "  https://api.example.com/v1//  ");
    let cfg = Config::from_lookup(lookup(&env)).expect("config should parse");
    assert_eq!(cfg.upstream_url, "https://api.example.com/v1/");
}

#[test]
fn blank_upstream_is_invalid() {
    let mut env = HashMap::new();
    env.insert(ENV_UPSTREAM_URL, "   ");
    let err = Config::from_lookup(lookup(&env)).expect_err("blank upstream must error");
    assert_eq!(invalid_reason(&err, ENV_UPSTREAM_URL), "value is empty");
}

#[test]
fn bad_listen_is_reported_first() {
    let mut env = HashMap::new();
    env.insert(ENV_LISTEN, "not-an-address");
    let err = Config::from_lookup(lookup(&env)).expect_err("bad listen must error");
    assert_eq!(invalid_reason(&err, ENV_LISTEN), "invalid socket address syntax");
}

#[test]
fn ipv6_listen_round_trips() {
    let mut env = HashMap::new();
    env.insert(ENV_UPSTREAM_URL, "https://api.openai.com");
    env.insert(ENV_LISTEN, "[::1]:9000");
    let cfg = Config::from_lookup(lookup(&env)).expect("config should parse");
    assert_eq!(cfg.listen.ip(), ListenIp::V6([0, 0, 0, 0, 0, 0, 0, 1]));
    assert_eq!(cfg.listen.port(), 9000);
    assert!(cfg.listen.ip().is_loopback());
    assert_eq!(cfg.listen.to_string(), "[::1]:9000");
}

#[test]
fn wildcard_listen_is_not_loopback() {
    let mut env = HashMap::new();
    env.insert(ENV_UPSTREAM_URL, "https://api.openai.com");
    env.insert(ENV_LISTEN, "0.0.0.0:8080");
    let cfg = Config::from_lookup(lookup(&env)).expect("config should parse");
    assert!(!cfg.listen.ip().is_loopback());
}

#[test]
fn custom_log_path_is_kept_verbatim() {
    let mut env = HashMap::new();
    env.insert(ENV_UPSTREAM_URL, "https://api.openai.com");
    env.insert(ENV_LOG_PATH, "/var/log/traces.jsonl");
    let cfg = Config::from_lookup(lookup(&env)).expect("config should parse");
    assert_eq!(cfg.log_path, "/var/log/traces.jsonl");
}

#[test]
fn capacity_parse_errors_carry_std_messages() {
    let cases = [
        ("", "cannot parse integer from empty string"),
        ("12x", "invalid digit found in string"),
        ("-1", "invalid digit found in string"),
        ("+", "invalid digit found in string"),
        ("99999999999999999999999", "number too large to fit in target type"),
    ];
    for (raw, reason) in cases {
        let mut env = HashMap::new();
        env.insert(ENV_UPSTREAM_URL, "https://api.openai.com");
        env.insert(ENV_LOG_CHANNEL_CAPACITY, raw);
        let err = Config::from_lookup(lookup(&env)).expect_err("bad capacity must error");
        assert_eq!(invalid_reason(&err, ENV_LOG_CHANNEL_CAPACITY), reason, "input {raw:?}");
    }
}

#[test]
fn capacity_accepts_leading_plus() {
    let mut env = HashMap::new();
    env.insert(ENV_UPSTREAM_URL, "https://api.openai.com");
    env.insert(ENV_LOG_CHANNEL_CAPACITY, "+16");
    let cfg = Config::from_lookup(lookup(&env)).expect("config should parse");
    assert_eq!(cfg.log_channel_capacity, 16);
}

#[test]
fn zero_cap_reason_text() {
    let mut env = HashMap::new();
    env.insert(ENV_UPSTREAM_URL, "https://api.openai.com");
    env.insert(ENV_MAX_REQUEST_BYTES, "0");
    let err = Config::from_lookup(lookup(&env)).expect_err("zero cap must error");
    assert_eq!(invalid_reason(&err, ENV_MAX_REQUEST_BYTES), "must be greater than zero");
}

#[test]
fn bad_timeout_is_invalid() {
    let mut env = HashMap::new();
    env.insert(ENV_UPSTREAM_URL, "https://api.openai.com");
    env.insert(ENV_READ_TIMEOUT_SECS, "soon");
    let err = Config::from_lookup(lookup(&env)).expect_err("bad timeout must error");
    assert_eq!(invalid_reason(&err, ENV_READ_TIMEOUT_SECS), "invalid digit found in string");
}

#[test]
fn zero_timeout_is_allowed() {
    let mut env = HashMap::new();
    env.insert(ENV_UPSTREAM_URL, "https://api.openai.com");
    env.insert(ENV_CONNECT_TIMEOUT_SECS, "0");
    let cfg = Config::from_lookup(lookup(&env)).expect("config should parse");
    assert_eq!(cfg.connect_timeout, Duration::from_secs(0));
}

#[test]
fn bool_words_are_case_and_space_insensitive() {
    let truthy = ["1", "true", "YES", " On ", "True"];
    let falsy = ["0", "false", "No", "OFF", "", "   "];
    for raw in truthy {
        let env: HashMap<&str, &str> = [("X", raw)].into_iter().collect();
        assert_eq!(parse_bool_env(&lookup(&env), "X", false).unwrap(), true, "input {raw:?}");
    }
    for raw in falsy {
        let env: HashMap<&str, &str> = [("X", raw)].into_iter().collect();
        assert_eq!(parse_bool_env(&lookup(&env), "X", true).unwrap(), false, "input {raw:?}");
    }
    let empty: HashMap<&str, &str> = HashMap::new();
    assert_eq!(parse_bool_env(&lookup(&empty), "X", true).unwrap(), true);
    assert_eq!(parse_bool_env(&lookup(&empty), "X", false).unwrap(), false);
}

#[test]
fn bool_error_names_the_lowered_value() {
    let env: HashMap<&str, &str> = [(ENV_CAPTURE_CONTENT, " Maybe ")].into_iter().collect();
    let err = parse_bool_env(&lookup(&env), ENV_CAPTURE_CONTENT, false).expect_err("must error");
    assert_eq!(
        invalid_reason(&err, ENV_CAPTURE_CONTENT),
        "expected a boolean (true/false/1/0/yes/no), got `maybe`"
    );
}

#[test]
fn duration_default_and_value() {
    let empty: HashMap<&str, &str> = HashMap::new();
    assert_eq!(
        parse_duration_secs(&lookup(&empty), "T", 42).unwrap(),
        Duration::from_secs(42)
    );
    let env: HashMap<&str, &str> = [("T", "18446744073709551615")].into_iter().collect();
    assert_eq!(
        parse_duration_secs(&lookup(&env), "T", 1).unwrap(),
        Duration::from_secs(u64::MAX)
    );
    let env: HashMap<&str, &str> = [("T", "18446744073709551616")].into_iter().collect();
    let err = parse_duration_secs(&lookup(&env), "T", 1).expect_err("overflow must error");
    assert_eq!(invalid_reason(&err, "T"), "number too large to fit in target type");
    let env: HashMap<&str, &str> = [("T", " 5")].into_iter().collect();
    let err = parse_duration_secs(&lookup(&env), "T", 1).expect_err("space must error");
    assert_eq!(invalid_reason(&err, "T"), "invalid digit found in string");
}

#[test]
fn loopback_hosts() {
    for h in [
        "localhost",
        "127.0.0.1",
        "127.0.0.53",
        "127.255.255.255",
        "127.1.0.9",
        "[::1]",
        "::1",
    ] {
        assert!(is_loopback_host(h), "{h} must be loopback");
    }
    for h in [
        "",
        "LOCALHOST",
        "128.0.0.1",
        "10.0.0.1",
        "api.openai.com",
        "localhost.evil.com",
        "::2",
        "127.",
        "127.evil.example",
        "127.0.0.1.evil.example",
        "127.0.0",
        "127.0.0.1.",
        "127.0.0.256",
        "127.0.0.01",
        "127.0..1",
        "127.0.0.-1",
        "127.0.0.+1",
        "0127.0.0.1",
    ] {
        assert!(!is_loopback_host(h), "{h} must not be loopback");
    }
}

#[test]
fn plaintext_to_dns_name_starting_with_127_is_refused() {
    let err = validate_upstream_url("http://127.evil.example/", false)
        .expect_err("a DNS name is not a loopback address");
    assert!(err.message().contains("plaintext"));
    assert!(validate_upstream_url("http://127.0.0.53:8080/", false).is_ok());
}

#[test]
fn upstream_reasons_are_exact() {
    let reason = |url: &str, allow: bool| match validate_upstream_url(url, allow) {
        Ok(()) => None,
        Err(e) => Some(invalid_reason(&e, ENV_UPSTREAM_URL)),
    };
    assert_eq!(
        reason("ftp://files.example.com/", false).as_deref(),
        Some("scheme `ftp` is not allowed; use https:// or http:// (loopback only)")
    );
    assert_eq!(
        reason("https://METADATA.Azure.com/", true).as_deref(),
        Some("host `metadata.azure.com` is on the cloud-metadata deny-list")
    );
    assert_eq!(
        reason("http://metadata.azure.internal/", true).as_deref(),
        Some("host `metadata.azure.internal` is on the cloud-metadata deny-list")
    );
    assert_eq!(
        reason("http://api.openai.com/v1", false).as_deref(),
        Some(
            "plaintext http:// upstream is only allowed for loopback hosts; set \
             REPLAYABLE_UPSTREAM_ALLOW_PLAINTEXT=true to override (got host `api.openai.com`)"
        )
    );
    assert_eq!(
        reason("not a url", false).as_deref(),
        Some("could not parse as URL: relative URL without a base")
    );
    assert_eq!(reason("http://localhost:11434", false), None);
    assert_eq!(reason("http://[::1]:8000/", false), None);
    assert_eq!(reason("http://api.openai.com/", true), None);
    assert_eq!(reason("https://api.openai.com/", false), None);
}

#[test]
fn trailing_slash_trimming() {
    assert_eq!(trim_trailing_slash("https://a.b/"), "https://a.b");
    assert_eq!(trim_trailing_slash("https://a.b//"), "https://a.b/");
    assert_eq!(trim_trailing_slash("https://a.b"), "https://a.b");
    assert_eq!(trim_trailing_slash("/"), "");
    assert_eq!(trim_trailing_slash(""), "");
}

#[test]
fn config_error_messages() {
    assert_eq!(
        ConfigError::Missing(ENV_UPSTREAM_URL).message(),
        "required environment variable REPLAYABLE_UPSTREAM_URL is not set"
    );
    let e = ConfigError::Invalid { name: ENV_LOG_PATH, reason: "bad".to_string() };
    assert_eq!(e.message(), "invalid value for REPLAYABLE_LOG_PATH: bad");
}

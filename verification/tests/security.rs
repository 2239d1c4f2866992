//! Security properties of configuration: SSRF validation of the upstream
//! URL and the loopback default bind address.

use std::collections::HashMap;

use replayable_proxy::config::{
    Config, DEFAULT_LISTEN, ENV_UPSTREAM_ALLOW_PLAINTEXT, ENV_UPSTREAM_URL,
};

fn lookup_for<'a>(map: &'a HashMap<&'a str, &'a str>) -> impl Fn(&str) -> Option<String> + 'a {
    move |name: &str| map.get(name).map(|v| (*v).to_string())
}

/// AWS / EC2 IMDS host must be rejected regardless of plaintext
/// override (it is never an LLM endpoint).
#[test]
fn h3_imds_upstream_is_rejected() {
    let mut env = std::collections::HashMap::new();
    env.insert(ENV_UPSTREAM_URL, "http://169.254.169.254/latest/meta-data/");
    let err = Config::from_lookup(lookup_for(&env))
        .expect_err("IMDS URL must be rejected at config parse");
    let msg = err.message();
    assert!(
        msg.to_ascii_lowercase().contains("metadata") || msg.contains("169.254"),
        "error message should mention metadata or 169.254; got: {msg}",
    );
}

/// Plaintext `http://` against a non-loopback host must be rejected
/// without the explicit override.
#[test]
fn h3_plaintext_non_loopback_is_rejected_without_override() {
    let mut env = std::collections::HashMap::new();
    env.insert(ENV_UPSTREAM_URL, "http://api.openai.com/v1");
    let err = Config::from_lookup(lookup_for(&env))
        .expect_err("plaintext http:// outside loopback must be rejected");
    assert!(err.message().contains("plaintext"));
}

/// Loopback hosts may use plaintext `http://` without the override.
#[test]
fn h3_plaintext_loopback_is_allowed() {
    for host in ["http://127.0.0.1:11434", "http://localhost:11434"] {
        let mut env = std::collections::HashMap::new();
        env.insert(ENV_UPSTREAM_URL, host);
        Config::from_lookup(lookup_for(&env))
            .unwrap_or_else(|e| panic!("loopback {host} should be allowed: {}", e.message()));
    }
}

/// With the override flag, plaintext non-loopback is allowed.
#[test]
fn h3_plaintext_non_loopback_allowed_with_override() {
    let mut env = std::collections::HashMap::new();
    env.insert(ENV_UPSTREAM_URL, "http://internal-llm.local/v1");
    env.insert(ENV_UPSTREAM_ALLOW_PLAINTEXT, "true");
    Config::from_lookup(lookup_for(&env)).expect("override should permit plaintext non-loopback");
}

/// The default bind address is loopback.
#[test]
fn h4_default_listen_is_loopback() {
    let cfg = Config::default();
    assert!(
        cfg.listen.ip().is_loopback(),
        "Config::default().listen must be loopback; got {} (DEFAULT_LISTEN={DEFAULT_LISTEN})",
        cfg.listen.to_string(),
    );
}

/// The metadata hosts stay refused even with the plaintext override, and
/// over https too.
#[test]
fn metadata_hosts_refused_even_with_override() {
    for url in [
        "http://169.254.169.254/",
        "https://169.254.169.254/",
        "http://metadata.google.internal/computeMetadata/v1/",
        "https://metadata.azure.com/",
    ] {
        let mut env = HashMap::new();
        env.insert(ENV_UPSTREAM_URL, url);
        env.insert(ENV_UPSTREAM_ALLOW_PLAINTEXT, "true");
        let err = Config::from_lookup(lookup_for(&env)).expect_err("metadata host must be refused");
        assert!(err.message().contains("cloud-metadata deny-list"), "{url}: {}", err.message());
    }
}

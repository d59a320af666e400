use secret_agent::address::{BindAddress, Host};
use secret_agent::config::{pick_bind_address, pick_source, resolve, ConfigError, Options, Sources};

fn text(s: &str) -> Option<String> {
    Some(s.to_string())
}

fn nothing() -> Sources {
    Sources {
        secret_env: None,
        secret_file: None,
        credential_env: None,
        credential_file: None,
        agent_bind_env: None,
        bind_env: None,
        certificate_file: None,
        key_file: None,
    }
}

const PLAIN: Options = Options { enable_tls: false, require_auth: false };
const AUTH: Options = Options { enable_tls: false, require_auth: true };
const TLS: Options = Options { enable_tls: true, require_auth: false };

fn error_of(sources: Sources, options: Options) -> Option<ConfigError> {
    resolve(sources, options).err()
}

#[test]
fn secret_comes_from_the_environment() {
    let sources = Sources { secret_env: text("mongodb://db:27017/orders"), ..nothing() };
    let config = resolve(sources, PLAIN).ok().unwrap();
    assert_eq!(config.secret_value, "mongodb://db:27017/orders");
    assert_eq!(config.api_credential, None);
    assert_eq!(config.bind_address, BindAddress { host: Host::V4 { quad: 0 }, port: 8443 });
    assert_eq!(config.certificate_material, None);
    assert_eq!(config.key_material, None);
}

#[test]
fn secret_falls_back_to_the_trimmed_file() {
    let sources = Sources { secret_file: text("  mongodb://db/orders\n"), ..nothing() };
    let config = resolve(sources, PLAIN).ok().unwrap();
    assert_eq!(config.secret_value, "mongodb://db/orders");
}

#[test]
fn environment_goes_before_the_file_and_is_not_trimmed() {
    let sources = Sources {
        secret_env: text(" from env "),
        secret_file: text("from file"),
        credential_env: text("key \n"),
        credential_file: text("other"),
        ..nothing()
    };
    let config = resolve(sources, AUTH).ok().unwrap();
    assert_eq!(config.secret_value, " from env ");
    assert_eq!(config.api_credential, text("key \n"));
}

#[test]
fn empty_values_count_as_present() {
    let sources = Sources { secret_env: text(""), credential_file: text(" \n"), ..nothing() };
    let config = resolve(sources, AUTH).ok().unwrap();
    assert_eq!(config.secret_value, "");
    assert_eq!(config.api_credential, text(""));
}

#[test]
fn missing_secret_fails() {
    assert_eq!(error_of(nothing(), PLAIN), Some(ConfigError::MissingSecret));
    assert_eq!(error_of(nothing(), AUTH), Some(ConfigError::MissingSecret));
    let rest = Sources {
        credential_env: text("s3cr3t"),
        bind_env: text("127.0.0.1:80"),
        ..nothing()
    };
    assert_eq!(error_of(rest, AUTH), Some(ConfigError::MissingSecret));
}

#[test]
fn missing_credential_fails_where_one_is_asked_for() {
    let sources = Sources { secret_env: text("uri"), ..nothing() };
    assert_eq!(error_of(sources.clone(), AUTH), Some(ConfigError::MissingCredential));
    assert!(resolve(sources, PLAIN).is_ok());
}

#[test]
fn credential_falls_back_to_the_trimmed_file() {
    let sources = Sources { secret_env: text("uri"), credential_file: text("s3cr3t\n"), ..nothing() };
    let config = resolve(sources, AUTH).ok().unwrap();
    assert_eq!(config.api_credential, text("s3cr3t"));
}

#[test]
fn credential_is_not_held_where_none_is_asked_for() {
    let sources = Sources { secret_env: text("uri"), credential_env: text("s3cr3t"), ..nothing() };
    let config = resolve(sources, PLAIN).ok().unwrap();
    assert_eq!(config.api_credential, None);
}

#[test]
fn invalid_bind_address_fails() {
    for bad in ["", "8443", "localhost:8443", "0.0.0.0", "0.0.0.0:99999", "[::1]"] {
        let sources = Sources { secret_env: text("uri"), agent_bind_env: text(bad), ..nothing() };
        assert_eq!(error_of(sources, PLAIN), Some(ConfigError::InvalidBindAddress), "{:?}", bad);
        let sources = Sources { secret_env: text("uri"), bind_env: text(bad), ..nothing() };
        assert_eq!(error_of(sources, PLAIN), Some(ConfigError::InvalidBindAddress), "{:?}", bad);
    }
}

#[test]
fn bind_address_is_not_trimmed() {
    let sources = Sources { secret_env: text("uri"), bind_env: text("0.0.0.0:8443\n"), ..nothing() };
    assert_eq!(error_of(sources, PLAIN), Some(ConfigError::InvalidBindAddress));
}

#[test]
fn failures_are_reported_in_order() {
    let all_wrong = Sources { bind_env: text("nowhere"), ..nothing() };
    assert_eq!(error_of(all_wrong, AUTH), Some(ConfigError::MissingSecret));
    let two_wrong = Sources { secret_env: text("uri"), bind_env: text("nowhere"), ..nothing() };
    assert_eq!(error_of(two_wrong.clone(), AUTH), Some(ConfigError::MissingCredential));
    assert_eq!(error_of(two_wrong, PLAIN), Some(ConfigError::InvalidBindAddress));
}

#[test]
fn bind_address_comes_from_the_environment() {
    let sources = Sources { secret_env: text("uri"), bind_env: text("127.0.0.1:9000"), ..nothing() };
    let config = resolve(sources, PLAIN).ok().unwrap();
    assert_eq!(config.bind_address, BindAddress { host: Host::V4 { quad: 0x7f00_0001 }, port: 9000 });
    let sources = Sources { secret_env: text("uri"), agent_bind_env: text("[::]:443"), ..nothing() };
    let config = resolve(sources, PLAIN).ok().unwrap();
    assert_eq!(
        config.bind_address,
        BindAddress { host: Host::V6 { groups: 0, scope_id: 0 }, port: 443 }
    );
}

#[test]
fn first_bind_variable_goes_before_the_second() {
    let first = text("10.0.0.1:1");
    let second = text("10.0.0.2:2");
    assert_eq!(
        pick_bind_address(&first, &second),
        Some(BindAddress { host: Host::V4 { quad: 0x0a00_0001 }, port: 1 })
    );
    assert_eq!(
        pick_bind_address(&None, &second),
        Some(BindAddress { host: Host::V4 { quad: 0x0a00_0002 }, port: 2 })
    );
    assert_eq!(pick_bind_address(&text("bad"), &second), None);
    assert_eq!(
        pick_bind_address(&None, &None),
        Some(BindAddress { host: Host::V4 { quad: 0 }, port: 8443 })
    );
}

#[test]
fn sources_are_picked_in_order() {
    assert_eq!(pick_source(text("env"), text("file")), text("env"));
    assert_eq!(pick_source(None, text(" file ")), text("file"));
    assert_eq!(pick_source(text(" env "), None), text(" env "));
    assert_eq!(pick_source(None, None), None);
}

#[test]
fn tls_files_are_held_with_tls_only() {
    let sources = Sources {
        secret_env: text("uri"),
        certificate_file: Some(b"cert".to_vec()),
        key_file: Some(b"key".to_vec()),
        ..nothing()
    };
    let with = resolve(sources.clone(), TLS).ok().unwrap();
    assert_eq!(with.certificate_material, Some(b"cert".to_vec()));
    assert_eq!(with.key_material, Some(b"key".to_vec()));
    let without = resolve(sources, PLAIN).ok().unwrap();
    assert_eq!(without.certificate_material, None);
    assert_eq!(without.key_material, None);
}

#[test]
fn unread_tls_files_do_not_fail_the_resolution() {
    let sources = Sources { secret_env: text("uri"), ..nothing() };
    let config = resolve(sources, TLS).ok().unwrap();
    assert_eq!(config.certificate_material, None);
    assert_eq!(config.key_material, None);
}

#[test]
fn configuration_failures_have_words() {
    assert_eq!(
        ConfigError::MissingSecret.message(),
        "the secret is not configured: set MONGODB_URI or provide the secret file"
    );
    assert_eq!(
        ConfigError::MissingCredential.message(),
        "the credential is not configured: set API_KEY or provide the credential file"
    );
    assert_eq!(
        ConfigError::InvalidBindAddress.message(),
        "the bind address does not have the form host:port"
    );
}

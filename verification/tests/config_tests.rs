use qqqa::config::{Config, ProfileError, ProviderTlsConfig};

#[test]
fn config_copy_first_command_defaults_false_and_is_toggleable() {
    let mut cfg = Config::default();
    assert!(!cfg.copy_first_command_enabled());
    cfg.set_copy_first_command(true);
    assert!(cfg.copy_first_command_enabled());
    cfg.set_copy_first_command(false);
    assert!(!cfg.copy_first_command_enabled());
}

#[test]
fn local_provider_uses_placeholder_api_key_when_env_missing() {
    let cfg = Config::default();
    let eff = cfg
        .resolve_profile(Some("ollama"), None, None, None, None)
        .expect("ollama profile should resolve");
    assert_eq!(eff.api_key, "qqqa-local-placeholder");
    assert!(eff.is_local);
}

#[test]
fn remote_provider_without_key_is_an_error() {
    let cfg = Config::default();
    match cfg.resolve_profile(Some("openai"), None, None, None, None) {
        Err(ProfileError::MissingApiKey { env_key, provider_key }) => {
            assert_eq!(env_key, "OPENAI_API_KEY");
            assert_eq!(provider_key, "openai");
        }
        other => panic!("expected a missing-key error, got {:?}", other),
    }
    let eff = cfg
        .resolve_profile(Some("openai"), None, None, Some("sk-123"), None)
        .expect("env key satisfies resolution");
    assert_eq!(eff.api_key, "sk-123");
    assert_eq!(eff.model, "gpt-5-mini");
}

#[test]
fn unknown_profile_and_model_override_are_handled() {
    let cfg = Config::default();
    assert!(matches!(
        cfg.resolve_profile(Some("nope"), None, None, None, None),
        Err(ProfileError::ProfileNotFound(_))
    ));
    let eff = cfg
        .resolve_profile(Some("ollama"), Some("llama3.2"), None, None, None)
        .expect("resolves");
    assert_eq!(eff.model, "llama3.2");
    assert_eq!(eff.base_url, "http://127.0.0.1:11434/v1");
}

#[test]
fn openrouter_profile_carries_default_headers() {
    let cfg = Config::default();
    let eff = cfg
        .resolve_profile(None, None, None, Some("key"), None)
        .expect("default profile resolves with a key");
    assert_eq!(eff.provider_key, "openrouter");
    assert_eq!(eff.headers.len(), 2);
    assert_eq!(eff.headers[0].0, "HTTP-Referer");
    assert_eq!(eff.headers[0].1, "https://github.com/iagooar/qqqa");
    assert_eq!(eff.headers[1].0, "X-Title");
    assert_eq!(eff.headers[1].1, "qqqa");
}

#[test]
fn tls_config_resolves_relative_path_against_config_dir() {
    let tls = ProviderTlsConfig {
        ca_bundle_path: Some("certs/litellm-ca.pem".to_string()),
        ca_bundle_env: None,
    };
    let resolved = tls
        .resolve(Some("/tmp/qqqa-config"), None)
        .expect("resolution succeeds")
        .expect("path present");
    assert_eq!(resolved.ca_bundle_path, "/tmp/qqqa-config/certs/litellm-ca.pem");
}

#[test]
fn tls_config_prefers_env_value_when_present() {
    let tls = ProviderTlsConfig {
        ca_bundle_path: Some("ignored.pem".to_string()),
        ca_bundle_env: Some("QQQA_TEST_TLS_ENV".to_string()),
    };
    let resolved = tls
        .resolve(None, Some("/tmp/env-ca.pem"))
        .expect("resolution succeeds")
        .expect("env value present");
    assert_eq!(resolved.ca_bundle_path, "/tmp/env-ca.pem");
}

#[test]
fn tls_config_rejects_empty_names_and_values() {
    let tls = ProviderTlsConfig {
        ca_bundle_path: None,
        ca_bundle_env: Some("  ".to_string()),
    };
    assert!(matches!(tls.resolve(None, None), Err(ProfileError::TlsEnvKeyEmpty)));
    let tls = ProviderTlsConfig {
        ca_bundle_path: None,
        ca_bundle_env: Some("SOME_VAR".to_string()),
    };
    assert!(matches!(
        tls.resolve(None, Some("")),
        Err(ProfileError::TlsEnvValueEmpty(_))
    ));
}

#[test]
fn no_emoji_flag_interpretation() {
    let mut cfg = Config::default();
    assert!(!cfg.no_emoji_enabled());
    cfg.no_emoji = Some("0".to_string());
    assert!(!cfg.no_emoji_enabled());
    cfg.no_emoji = Some("FALSE".to_string());
    assert!(!cfg.no_emoji_enabled());
    cfg.no_emoji = Some("true".to_string());
    assert!(cfg.no_emoji_enabled());
}

#[test]
fn allowlist_updates_insert_once_sorted() {
    let mut cfg = Config::default();
    assert!(cfg.command_allowlist().is_empty());
    assert!(cfg.add_command_to_allowlist("ffmpeg"));
    assert!(!cfg.add_command_to_allowlist("ffmpeg"));
    assert!(cfg.add_command_to_allowlist("cargo"));
    // The persisted list is kept sorted.
    assert_eq!(cfg.command_allowlist(), vec!["cargo".to_string(), "ffmpeg".to_string()]);
}

#[test]
fn allowlist_insertion_sorts_and_dedups_existing_entries() {
    let mut cfg = Config::default();
    cfg.command_allowlist = Some(vec!["zz".to_string(), "aa".to_string(), "aa".to_string()]);
    assert!(cfg.add_command_to_allowlist("mm"));
    assert_eq!(
        cfg.command_allowlist(),
        vec!["aa".to_string(), "mm".to_string(), "zz".to_string()]
    );
    // A command already present leaves the list exactly as it is.
    let mut untouched = Config::default();
    untouched.command_allowlist = Some(vec!["zz".to_string(), "aa".to_string()]);
    assert!(!untouched.add_command_to_allowlist("aa"));
    assert_eq!(untouched.command_allowlist(), vec!["zz".to_string(), "aa".to_string()]);
}

#[test]
fn invalid_timeouts_are_rejected() {
    let mut cfg = Config::default();
    // Give the ollama profile a bad timeout override.
    for entry in cfg.profiles.iter_mut() {
        if entry.0 == "ollama" {
            entry.1.timeout = Some("0".to_string());
        }
    }
    assert!(matches!(
        cfg.resolve_profile(Some("ollama"), None, None, None, None),
        Err(ProfileError::InvalidTimeout { .. })
    ));
    for entry in cfg.profiles.iter_mut() {
        if entry.0 == "ollama" {
            entry.1.timeout = Some("45".to_string());
        }
    }
    let eff = cfg
        .resolve_profile(Some("ollama"), None, None, None, None)
        .expect("valid timeout resolves");
    assert_eq!(eff.request_timeout_secs, Some(45));
}

use bootty::config::{
    config_dir, config_path, detect_home_dir, file_text, hash_password, hash_password_with_salt, init_config,
    load_or_create_config, now_unix_secs, run_dir, save_config, seconds_or_zero,
    serve_runtime_path, validate_config, verify_password, BoottyConfig, ConfigError, HomeVars,
    PasswordError, ServeAuthType, ServeMode,
};
use std::path::{Path, PathBuf};

#[test]
fn password_hash_roundtrip() {
    let encoded = hash_password("abc123").expect("hash password");
    assert!(verify_password("abc123", &encoded).expect("verify password"));
    assert!(!verify_password("abc456", &encoded).expect("verify password mismatch"));
}

#[test]
fn stored_password_has_three_parts() {
    let encoded = hash_password("secret").unwrap();
    let parts: Vec<&str> = encoded.split(':').collect();
    assert_eq!(parts.len(), 3);
    assert_eq!(parts[0], "sha256");
    assert_eq!(parts[1].len(), 32);
    assert_eq!(parts[2].len(), 64);
    assert!(parts[1].chars().all(|c| c.is_ascii_hexdigit()));
    assert_ne!(encoded, hash_password("secret").unwrap());
}

#[test]
fn known_password_digest() {
    let encoded = "sha256:ab:b55121ce564688fa223e9bd44c9b32d429b64e5d46e7eedcb2e4a93337ca694c";
    assert!(verify_password("secret", encoded).unwrap());
    assert!(!verify_password("secret ", encoded).unwrap());
}

#[test]
fn password_errors() {
    let empty = hash_password("").unwrap_err();
    assert!(matches!(empty, PasswordError::Empty));
    assert_eq!(empty.message(), "Password cannot be empty");
    for encoded in ["", "sha256", "sha256:a", "sha256:a:b:c"] {
        let e = verify_password("x", encoded).unwrap_err();
        assert!(matches!(e, PasswordError::Format));
        assert_eq!(e.message(), "Invalid password hash format");
    }
    let e = verify_password("x", "md5:a:b").unwrap_err();
    assert_eq!(e.message(), "Unsupported password hash algorithm: md5");
}

#[test]
fn default_config_passes() {
    let cfg = BoottyConfig::default();
    assert!(validate_config(&cfg).is_ok());
    assert_eq!(cfg.version, 1);
    assert_eq!(cfg.network.stun_servers, vec!["stun:stun.l.google.com:19302"]);
    assert_eq!(cfg.host.default_cmd, vec!["bash", "-l"]);
    assert!(!cfg.host.non_interactive);
    assert_eq!(cfg.serve.host, "127.0.0.1");
    assert_eq!(cfg.serve.port, 2234);
    assert_eq!(cfg.serve.max_sessions, 128);
    assert_eq!(cfg.serve.mode, ServeMode::Local);
    assert_eq!(cfg.serve.auth.auth_type, ServeAuthType::NoAuth);
    assert!(cfg.serve.auth.password_hash.is_none());
}

#[test]
fn each_config_rule() {
    let mut cfg = BoottyConfig::default();
    cfg.serve.auth.auth_type = ServeAuthType::Password;
    let e = validate_config(&cfg).unwrap_err();
    assert_eq!(e, ConfigError::PasswordHashMissing);
    assert_eq!(
        e.message(),
        "Invalid config: serve.auth.password_hash is required when serve.auth.type=password"
    );
    cfg.serve.auth.password_hash = Some("sha256:a:b".to_string());
    assert!(validate_config(&cfg).is_ok());

    cfg.serve.mode = ServeMode::LanAuth;
    cfg.serve.auth.auth_type = ServeAuthType::NoAuth;
    let e = validate_config(&cfg).unwrap_err();
    assert_eq!(e, ConfigError::AuthTypeMissing);
    assert_eq!(
        e.message(),
        "Invalid config: serve.auth.type cannot be none when serve.mode=lan-auth"
    );

    cfg.serve.max_sessions = 0;
    let e = validate_config(&cfg).unwrap_err();
    assert_eq!(e, ConfigError::NoSessions);
    assert_eq!(e.message(), "Invalid config: serve.max_sessions must be greater than 0");

    cfg.host.default_cmd = vec![];
    let e = validate_config(&cfg).unwrap_err();
    assert_eq!(e, ConfigError::NoDefaultCmd);
    assert_eq!(e.message(), "Invalid config: host.default_cmd cannot be empty");

    cfg.network.stun_servers = vec![];
    let e = validate_config(&cfg).unwrap_err();
    assert_eq!(e, ConfigError::NoStunServers);
    assert_eq!(e.message(), "Invalid config: network.stun_servers cannot be empty");

    cfg.version = 42;
    let e = validate_config(&cfg).unwrap_err();
    assert_eq!(e, ConfigError::UnsupportedVersion(42));
    assert_eq!(e.message(), "Unsupported config version: 42, expected 1");
}

#[test]
fn config_is_loaded_or_created() {
    let fresh = load_or_create_config("/x", None).unwrap();
    assert!(fresh.created);
    assert_eq!(fresh.config.serve.port, 2234);

    let mut stored = BoottyConfig::default();
    stored.serve.port = 9;
    let loaded = load_or_create_config("/x", Some(Ok(stored))).unwrap();
    assert!(!loaded.created);
    assert_eq!(loaded.config.serve.port, 9);

    let e = load_or_create_config("/x", Some(Err("EOF".to_string()))).unwrap_err();
    assert_eq!(
        e.context,
        "Failed to parse config file: /x. Hint: run `bootty config init --force` to regenerate config, or run `bootty config path` to locate the file."
    );
    assert_eq!(e.cause, "EOF");

    let mut broken = BoottyConfig::default();
    broken.serve.max_sessions = 0;
    let e = load_or_create_config("/x", Some(Ok(broken))).unwrap_err();
    assert_eq!(
        e.context,
        "Invalid config file: /x. Hint: run `bootty config init --force` to regenerate config, or run `bootty config path` to locate the file."
    );
    assert_eq!(e.cause, "Invalid config: serve.max_sessions must be greater than 0");
}

#[test]
fn config_is_saved_with_a_line_feed() {
    assert_eq!(save_config(&BoottyConfig::default(), "{}").unwrap(), "{}\n");
    assert_eq!(file_text("[]"), "[]\n");
    let mut cfg = BoottyConfig::default();
    cfg.version = 0;
    assert_eq!(save_config(&cfg, "{}").unwrap_err(), ConfigError::UnsupportedVersion(0));
}

#[test]
fn existing_config_is_kept_unless_forced() {
    let e = init_config(true, false).unwrap_err();
    assert_eq!(e, ConfigError::AlreadyExists);
    assert_eq!(e.message(), "Config file already exists, use --force to overwrite");
    assert!(init_config(true, true).is_ok());
    assert!(init_config(false, false).is_ok());
    assert_eq!(init_config(false, true).unwrap().serve.max_sessions, 128);
}

fn home(home: Option<&str>, profile: Option<&str>) -> HomeVars {
    HomeVars { home: home.map(PathBuf::from), user_profile: profile.map(PathBuf::from) }
}

#[test]
fn paths_under_home() {
    assert_eq!(config_dir(home(Some("/h"), None)).unwrap(), Path::new("/h/.bootty"));
    assert_eq!(run_dir(home(Some("/h"), Some("/p"))).unwrap(), Path::new("/h/.bootty/run"));
    assert_eq!(
        config_path(home(None, Some("/p"))).unwrap(),
        Path::new("/p/.bootty/config.json")
    );
    assert_eq!(
        serve_runtime_path(home(Some("/h"), None)).unwrap(),
        Path::new("/h/.bootty/run/serve.json")
    );
    let e = detect_home_dir(home(None, None)).unwrap_err();
    assert_eq!(e, ConfigError::NoHome);
    assert_eq!(e.message(), "Unable to determine home directory from HOME/USERPROFILE");
    assert!(config_path(home(None, None)).is_err());
}

#[test]
fn clock_readings() {
    assert_eq!(seconds_or_zero(Some(7)), 7);
    assert_eq!(seconds_or_zero(None), 0);
    assert!(now_unix_secs() > 1_600_000_000);
}

#[test]
fn drawn_salt_is_taken() {
    assert_eq!(
        hash_password_with_salt("secret", &vec![0xab]).unwrap(),
        "sha256:ab:b55121ce564688fa223e9bd44c9b32d429b64e5d46e7eedcb2e4a93337ca694c"
    );
    assert!(hash_password_with_salt("", &vec![0xab]).is_err());
}

#[test]
fn saved_config_is_loaded_as_it_is() {
    let mut cfg = BoottyConfig::default();
    cfg.serve.mode = ServeMode::LanAuth;
    cfg.serve.auth.auth_type = ServeAuthType::Pin;
    assert!(save_config(&cfg, "{}").is_ok());
    for _ in 0..2 {
        let loaded = load_or_create_config("/x", Some(Ok(cfg.clone()))).unwrap();
        assert!(!loaded.created);
        assert_eq!(loaded.config.serve.mode, ServeMode::LanAuth);
        assert_eq!(loaded.config.serve.auth.auth_type, ServeAuthType::Pin);
        assert_eq!(loaded.config.serve.auth.password_hash, None);
    }
}

//! Configuration of the desktop client.
use pikachat::desktop::config::{
    ConfigError, DEFAULT_PAGINATE_LIMIT, DEFAULT_PAGINATION_COOLDOWN_MS,
    DEFAULT_TIMELINE_MAX_ITEMS, DesktopConfig, ThresholdReading, slugify_component,
};
use pikachat::desktop::auth_profile::AuthProfile;
use pikachat::desktop::login_form::{LoginForm, secure_homeserver_url};
use pikachat::text_map::TextMap;

fn config_from_pairs(pairs: &[(&str, &str)]) -> Result<DesktopConfig, ConfigError> {
    let mut vars = TextMap::new();
    for (key, value) in pairs {
        vars.insert((*key).to_owned(), (*value).to_owned());
    }
    DesktopConfig::from_lookup(&vars, &ThresholdReading::Unset)
}

#[test]
fn parses_prefill_fields_and_defaults() {
    let cfg = config_from_pairs(&[
        ("PIKACHAT_HOMESERVER", "https://matrix.example.org"),
        ("PIKACHAT_USER", "@alice:example.org"),
        ("PIKACHAT_PASSWORD", "secret"),
    ])
    .expect("config should parse");

    assert_eq!(
        cfg.prefill_homeserver.as_deref(),
        Some("https://matrix.example.org")
    );
    assert_eq!(cfg.prefill_user_id.as_deref(), Some("@alice:example.org"));
    assert_eq!(cfg.prefill_password.as_deref(), Some("secret"));
    assert_eq!(cfg.timeline_max_items, DEFAULT_TIMELINE_MAX_ITEMS);
    assert_eq!(cfg.paginate_limit, DEFAULT_PAGINATE_LIMIT);
    assert_eq!(f32::from_bits(cfg.pagination_top_threshold_bits), 80.0);
    assert_eq!(cfg.pagination_cooldown_ms, DEFAULT_PAGINATION_COOLDOWN_MS);
    assert!(cfg.init_config.is_none());
}

#[test]
fn credentials_are_optional_for_login_ui_mode() {
    let cfg = config_from_pairs(&[]).expect("config without credentials should parse");
    assert_eq!(cfg.prefill_homeserver, None);
    assert_eq!(cfg.prefill_user_id, None);
    assert_eq!(cfg.prefill_password, None);
}

#[test]
fn parses_backend_init_tuning_when_present() {
    let cfg = config_from_pairs(&[
        ("PIKACHAT_SYNC_REQUEST_TIMEOUT_MS", "20000"),
        ("PIKACHAT_OPEN_ROOM_LIMIT", "50"),
        ("PIKACHAT_PAGINATION_LIMIT_CAP", "80"),
        ("PIKACHAT_DATA_DIR", "/tmp/pika"),
    ])
    .expect("config should parse");

    assert_eq!(cfg.data_dir_override, Some("/tmp/pika".to_owned()));
    let init = cfg.init_config.expect("init config should be present");
    assert_eq!(init.sync_request_timeout_ms, Some(20_000));
    assert_eq!(init.default_open_room_limit, Some(50));
    assert_eq!(init.pagination_limit_cap, Some(80));
}

#[test]
fn derives_data_dir_per_homeserver_and_user_without_override() {
    let cfg = config_from_pairs(&[]).expect("config should parse");

    let a = cfg.data_dir_for_account("https://matrix.example.org", "@alice:example.org");
    let b = cfg.data_dir_for_account("https://matrix.example.org", "@bob:example.org");

    assert_ne!(a, b);
    assert_eq!(
        a,
        "./.pikachat-desktop-store/hs-https_matrix_example_org/user-alice_example_org"
    );
    assert_eq!(
        b,
        "./.pikachat-desktop-store/hs-https_matrix_example_org/user-bob_example_org"
    );
}

#[test]
fn uses_fixed_data_dir_when_override_is_set() {
    let cfg =
        config_from_pairs(&[("PIKACHAT_DATA_DIR", "/tmp/pika")]).expect("config should parse");

    assert_eq!(
        cfg.data_dir_for_account("https://matrix.example.org", "@alice:example.org"),
        "/tmp/pika"
    );
    assert_eq!(
        cfg.data_dir_for_account("https://another.example.org", "@bob:example.org"),
        "/tmp/pika"
    );
}

#[test]
fn login_profile_path_tracks_data_dir_mode() {
    let default_cfg = config_from_pairs(&[]).expect("default config should parse");
    assert_eq!(
        default_cfg.auth_profile_path(),
        "./.pikachat-desktop-store/.pikachat-login-profile.json"
    );

    let override_cfg = config_from_pairs(&[("PIKACHAT_DATA_DIR", "/tmp/pika")])
        .expect("override config should parse");
    assert_eq!(
        override_cfg.auth_profile_path(),
        "/tmp/pika/.pikachat-login-profile.json"
    );
}

#[test]
fn logout_wipe_targets_follow_data_dir_mode() {
    let default_cfg = config_from_pairs(&[]).expect("default config should parse");
    assert_eq!(
        default_cfg.logout_wipe_targets(),
        vec!["./.pikachat-desktop-store".to_owned()]
    );

    let override_cfg = config_from_pairs(&[("PIKACHAT_DATA_DIR", "/tmp/pika")])
        .expect("override config should parse");
    assert_eq!(
        override_cfg.logout_wipe_targets(),
        vec!["/tmp/pika".to_owned()]
    );
}

#[test]
fn rejects_invalid_numeric_values() {
    let err = config_from_pairs(&[("PIKACHAT_DESKTOP_PAGINATE_LIMIT", "abc")])
        .expect_err("invalid paginate value should fail");

    assert!(matches!(
        err,
        ConfigError::InvalidValue {
            key: "PIKACHAT_DESKTOP_PAGINATE_LIMIT",
            ..
        }
    ));
}

fn invalid(pairs: &[(&str, &str)], threshold: ThresholdReading) -> String {
    let mut vars = TextMap::new();
    for (key, value) in pairs {
        vars.insert((*key).to_owned(), (*value).to_owned());
    }
    DesktopConfig::from_lookup(&vars, &threshold)
        .expect_err("config should be rejected")
        .to_text()
}

#[test]
fn rejected_values_are_described() {
    assert_eq!(
        invalid(
            &[("PIKACHAT_DESKTOP_PAGINATE_LIMIT", "abc")],
            ThresholdReading::Unset
        ),
        "invalid PIKACHAT_DESKTOP_PAGINATE_LIMIT='abc': invalid digit found in string"
    );
    assert_eq!(
        invalid(
            &[("PIKACHAT_OPEN_ROOM_LIMIT", "65536")],
            ThresholdReading::Unset
        ),
        "invalid PIKACHAT_OPEN_ROOM_LIMIT='65536': number too large to fit in target type"
    );
    assert_eq!(
        invalid(
            &[("PIKACHAT_SYNC_REQUEST_TIMEOUT_MS", "")],
            ThresholdReading::Unset
        ),
        "invalid PIKACHAT_SYNC_REQUEST_TIMEOUT_MS='': cannot parse integer from empty string"
    );
    assert_eq!(
        invalid(
            &[("PIKACHAT_DESKTOP_PAGINATE_LIMIT", "0")],
            ThresholdReading::Unset
        ),
        "invalid PIKACHAT_DESKTOP_PAGINATE_LIMIT='0': must be at least 1"
    );
    assert_eq!(
        invalid(
            &[("PIKACHAT_DESKTOP_TIMELINE_MAX_ITEMS", "0")],
            ThresholdReading::Unset
        ),
        "invalid PIKACHAT_DESKTOP_TIMELINE_MAX_ITEMS='0': must be at least 1"
    );
    assert_eq!(
        invalid(
            &[],
            ThresholdReading::NotPositive {
                value: "-1".to_owned()
            }
        ),
        "invalid PIKACHAT_DESKTOP_PAGINATION_TOP_THRESHOLD_PX='-1': must be greater than 0"
    );
}

#[test]
fn variables_are_read_in_their_order() {
    let unreadable = ThresholdReading::Invalid {
        value: "wide".to_owned(),
        reason: "invalid float literal".to_owned(),
    };
    assert_eq!(
        invalid(
            &[
                ("PIKACHAT_DESKTOP_PAGINATION_COOLDOWN_MS", "soon"),
                ("PIKACHAT_DESKTOP_PAGINATE_LIMIT", "0"),
            ],
            unreadable
        ),
        "invalid PIKACHAT_DESKTOP_PAGINATION_TOP_THRESHOLD_PX='wide': invalid float literal"
    );
    assert_eq!(
        invalid(
            &[
                ("PIKACHAT_DESKTOP_PAGINATION_COOLDOWN_MS", "soon"),
                ("PIKACHAT_DESKTOP_PAGINATE_LIMIT", "0"),
            ],
            ThresholdReading::Unset
        ),
        "invalid PIKACHAT_DESKTOP_PAGINATION_COOLDOWN_MS='soon': invalid digit found in string"
    );
}

#[test]
fn prefill_values_are_trimmed_and_empty_ones_dropped() {
    let cfg = config_from_pairs(&[
        ("PIKACHAT_HOMESERVER", "  https://matrix.example.org\n"),
        ("PIKACHAT_USER", " \t"),
    ])
    .expect("config should parse");
    assert_eq!(
        cfg.prefill_homeserver.as_deref(),
        Some("https://matrix.example.org")
    );
    assert_eq!(cfg.prefill_user_id, None);
}

#[test]
fn threshold_of_the_host_is_kept() {
    let cfg = DesktopConfig::from_lookup(
        &TextMap::new(),
        &ThresholdReading::Positive {
            bits: 12.5f32.to_bits(),
        },
    )
    .expect("config should parse");
    assert_eq!(f32::from_bits(cfg.pagination_top_threshold_bits), 12.5);
}

#[test]
fn slugs_name_one_directory() {
    assert_eq!(
        slugify_component("https://Matrix.Example.org/", 64),
        "https_matrix_example_org"
    );
    assert_eq!(slugify_component("", 64), "default");
    assert_eq!(slugify_component("../..", 64), "default");
    assert_eq!(slugify_component("abcdef", 3), "abc");
    assert_eq!(slugify_component("ab::cd", 3), "ab");
    assert_eq!(slugify_component("xyz", 0), "x");
}

#[test]
fn slugs_are_their_own_slugs() {
    for input in ["https://Matrix.Example.org/", "@alice:example.org", "a__b--c", ""] {
        let slug = slugify_component(input, 64);
        assert!(!slug.contains("__"));
        assert_eq!(slugify_component(&slug, 64), slug);
    }
    assert_eq!(slugify_component("", 3), "default");
    assert_eq!(slugify_component("default", 3), "def");
}

fn profile(remember_password: bool) -> AuthProfile {
    AuthProfile {
        homeserver: "https://known.example.org".to_owned(),
        user_id: "@known:example.org".to_owned(),
        remember_password,
    }
}

#[test]
fn homeservers_are_reached_securely() {
    assert_eq!(
        secure_homeserver_url("matrix.example.org"),
        "https://matrix.example.org"
    );
    assert_eq!(
        secure_homeserver_url(" matrix.example.org:8448 "),
        "https://matrix.example.org:8448"
    );
    assert_eq!(
        secure_homeserver_url("https://matrix.example.org"),
        "https://matrix.example.org"
    );
    assert_eq!(
        secure_homeserver_url("http://matrix.example.org"),
        "https://matrix.example.org"
    );
    assert_eq!(secure_homeserver_url(""), "https://");
}

#[test]
fn login_form_is_filled_from_the_configuration_and_the_last_login() {
    let prefilled = config_from_pairs(&[
        ("PIKACHAT_HOMESERVER", "matrix.example.org"),
        ("PIKACHAT_PASSWORD", "secret"),
    ])
    .expect("config should parse");
    let form = LoginForm::prefilled(&prefilled, Some(profile(false)));
    assert_eq!(form.homeserver, "matrix.example.org");
    assert_eq!(form.user_id, "@known:example.org");
    assert_eq!(form.password, "secret");
    assert!(!form.remember_password);
    assert_eq!(form.profile().homeserver, "https://matrix.example.org");

    let empty = LoginForm::prefilled(&config_from_pairs(&[]).expect("config should parse"), None);
    assert_eq!(empty.homeserver, "");
    assert_eq!(empty.user_id, "");
    assert_eq!(empty.password, "");
    assert!(empty.remember_password);

    assert_eq!(LoginForm::remembered(&None), None);
    assert_eq!(LoginForm::remembered(&Some(profile(false))), None);
    assert_eq!(
        LoginForm::remembered(&Some(profile(true))),
        Some(LoginForm {
            homeserver: "https://known.example.org".to_owned(),
            user_id: "@known:example.org".to_owned(),
            password: String::new(),
            remember_password: true,
        })
    );
}

#[test]
fn login_form_starts_a_session_of_its_account() {
    let config = config_from_pairs(&[]).expect("config should parse");
    let typed = LoginForm {
        homeserver: "matrix.example.org".to_owned(),
        user_id: "@alice:example.org".to_owned(),
        password: "secret".to_owned(),
        remember_password: true,
    };
    let session = typed.session(&config);
    assert_eq!(session.homeserver, "https://matrix.example.org");
    assert_eq!(session.user_id, "@alice:example.org");
    assert_eq!(session.password, "secret");
    assert!(session.remember_password);
    assert_eq!(
        session.data_dir,
        config.data_dir_for_account("https://matrix.example.org", "@alice:example.org")
    );
    assert_eq!(session.timeline_max_items, DEFAULT_TIMELINE_MAX_ITEMS);
    assert_eq!(session.paginate_limit, DEFAULT_PAGINATE_LIMIT);
    assert_eq!(session.pagination_cooldown_ms, DEFAULT_PAGINATION_COOLDOWN_MS);

    let again = LoginForm::prefilled(&config, Some(typed.profile()));
    assert_eq!(again.session(&config).data_dir, session.data_dir);
    let fixed = config_from_pairs(&[("PIKACHAT_DATA_DIR", "/tmp/fixed")]);
    assert_eq!(
        typed.session(&fixed.expect("config should parse")).data_dir,
        "/tmp/fixed"
    );
}

use tgstate::config::{
    get_app_settings, is_bot_ready, read_non_empty_env, AppSettingsMap, EnvVars, OidcSettings,
    Settings,
};

fn env(pairs: &[(&str, &str)]) -> EnvVars {
    EnvVars {
        entries: pairs
            .iter()
            .map(|(k, v)| (k.to_string(), v.to_string()))
            .collect(),
    }
}

fn map(pairs: &[(&str, Option<&str>)]) -> AppSettingsMap {
    let mut m = AppSettingsMap::new();
    for (k, v) in pairs {
        m.insert(k, v.map(|s| s.to_string()));
    }
    m
}

#[test]
fn settings_have_defaults() {
    let s = Settings::from_env(&env(&[]));
    assert_eq!(s.bot_token, None);
    assert_eq!(s.channel_name, None);
    assert_eq!(s.picgo_api_key, None);
    assert_eq!(s.base_url, "http://127.0.0.1:8000");
    assert_eq!(s._mode, "p");
    assert_eq!(s._file_route, "/d/");
    assert_eq!(s.data_dir, "app/data");
    assert!(!s.oidc.is_configured());
}

#[test]
fn settings_come_from_the_environment() {
    let s = Settings::from_env(&env(&[
        ("BOT_TOKEN", "t"),
        ("CHANNEL_NAME", ""),
        ("PICGO_API_KEY", " "),
        ("BASE_URL", ""),
        ("MODE", "m"),
        ("FILE_ROUTE", "/x/"),
        ("DATA_DIR", "data"),
        ("OIDC_ISSUER_URL", " https://auth.example.com "),
    ]));
    assert_eq!(s.bot_token.as_deref(), Some("t"));
    assert_eq!(s.channel_name, None);
    assert_eq!(s.picgo_api_key.as_deref(), Some(" "));
    assert_eq!(s.base_url, "");
    assert_eq!(s._mode, "m");
    assert_eq!(s._file_route, "/x/");
    assert_eq!(s.data_dir, "data");
    assert_eq!(s.oidc.issuer_url.as_deref(), Some("https://auth.example.com"));
}

#[test]
fn oidc_falls_back_to_the_older_names() {
    let o = OidcSettings::from_env(&env(&[
        ("OIDC_ISSUER_URL", "  "),
        ("AUTHELIA_ISSUER_URL", "https://a"),
        ("OIDC_CLIENT_ID", "new"),
        ("AUTHELIA_CLIENT_ID", "old"),
        ("AUTHELIA_CLIENT_SECRET", "s"),
    ]));
    assert_eq!(o.issuer_url.as_deref(), Some("https://a"));
    assert_eq!(o.client_id.as_deref(), Some("new"));
    assert_eq!(o.client_secret.as_deref(), Some("s"));
    assert!(o.is_configured());
    let blank = OidcSettings {
        issuer_url: Some("https://a".into()),
        client_id: Some(" \t".into()),
        client_secret: Some("s".into()),
    };
    assert!(!blank.is_configured());
    let copy = o.copy();
    assert_eq!(copy.client_id.as_deref(), Some("new"));
}

#[test]
fn non_empty_variables_are_trimmed() {
    let e = env(&[("A", " x "), ("B", "  "), ("A", "second")]);
    assert_eq!(read_non_empty_env(&e, "A").as_deref(), Some("x"));
    assert_eq!(read_non_empty_env(&e, "B"), None);
    assert_eq!(read_non_empty_env(&e, "C"), None);
}

#[test]
fn maps_keep_one_value_for_each_name() {
    let mut m = map(&[("A", Some("1")), ("B", None)]);
    assert_eq!(m.get("A").as_deref(), Some("1"));
    assert_eq!(m.get("B"), None);
    assert_eq!(m.get("C"), None);
    m.insert("A", None);
    assert_eq!(m.get("A"), None);
    m.insert("B", Some("2".into()));
    assert_eq!(m.text("B"), "2");
    assert_eq!(m.text("A"), "");
    let c = m.copy();
    assert_eq!(c.get("B").as_deref(), Some("2"));
}

#[test]
fn database_settings_lie_over_the_environment() {
    let s = Settings::from_env(&env(&[("BOT_TOKEN", "env"), ("CHANNEL_NAME", "@env")]));
    let none = get_app_settings(&s, None);
    assert_eq!(none.get("BOT_TOKEN").as_deref(), Some("env"));
    assert_eq!(none.get("PICGO_API_KEY"), None);
    assert_eq!(none.get("BASE_URL").as_deref(), Some("http://127.0.0.1:8000"));
    let db = map(&[
        ("BOT_TOKEN", Some(" db ")),
        ("CHANNEL_NAME", Some("  ")),
        ("BASE_URL", None),
        ("OTHER", Some("o")),
        ("EMPTY", None),
    ]);
    let m = get_app_settings(&s, Some(&db));
    assert_eq!(m.get("BOT_TOKEN").as_deref(), Some("db"));
    assert_eq!(m.get("CHANNEL_NAME").as_deref(), Some("@env"));
    assert_eq!(m.get("BASE_URL").as_deref(), Some("http://127.0.0.1:8000"));
    assert_eq!(m.get("OTHER").as_deref(), Some("o"));
    let again = get_app_settings(&s, Some(&m));
    assert_eq!(again.get("BOT_TOKEN").as_deref(), Some("db"));
}

#[test]
fn a_bot_needs_token_and_channel() {
    assert!(is_bot_ready(&map(&[
        ("BOT_TOKEN", Some("t")),
        ("CHANNEL_NAME", Some("@c")),
    ])));
    assert!(!is_bot_ready(&map(&[("BOT_TOKEN", Some("t"))])));
    assert!(!is_bot_ready(&map(&[
        ("BOT_TOKEN", Some(" ")),
        ("CHANNEL_NAME", Some("@c")),
    ])));
    assert!(!is_bot_ready(&AppSettingsMap::new()));
}

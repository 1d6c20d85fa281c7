use tgstate::auth::{
    build_clear_cookie, build_cookie, cookie_secure_override, generate_session_token,
    normalize_path_for_redirect, parse_truthy, session_max_age_secs, token_from_bytes,
    CookiePolicy, COOKIE_NAME, OIDC_LOGIN_STATE_TTL_SECS,
};
use tgstate::config::EnvVars;
use tgstate::constants::SESSION_MAX_AGE_SECS;

fn env(pairs: &[(&str, &str)]) -> EnvVars {
    EnvVars {
        entries: pairs
            .iter()
            .map(|(k, v)| (k.to_string(), v.to_string()))
            .collect(),
    }
}

#[test]
fn generate_session_token_is_64_hex_chars() {
    let t = generate_session_token();
    assert_eq!(t.len(), 64);
    assert!(t.chars().all(|c| c.is_ascii_hexdigit()));
    assert_ne!(t, generate_session_token());
}

#[test]
fn redirect_path_rejects_external_targets() {
    assert_eq!(normalize_path_for_redirect(Some("https://evil.test")), "/");
    assert_eq!(normalize_path_for_redirect(Some("//evil.test")), "/");
    assert_eq!(normalize_path_for_redirect(Some("/settings")), "/settings");
    assert_eq!(normalize_path_for_redirect(Some("/api/files")), "/");
}

#[test]
fn redirect_path_covers_every_rule() {
    assert_eq!(normalize_path_for_redirect(None), "/");
    assert_eq!(normalize_path_for_redirect(Some("")), "/");
    assert_eq!(normalize_path_for_redirect(Some("settings")), "/");
    assert_eq!(normalize_path_for_redirect(Some("  /image_hosting\n")), "/image_hosting");
    assert_eq!(normalize_path_for_redirect(Some("/x?u=http://evil")), "/");
    assert_eq!(normalize_path_for_redirect(Some("/login")), "/");
    assert_eq!(normalize_path_for_redirect(Some("/login/x")), "/login/x");
    assert_eq!(normalize_path_for_redirect(Some("/pwd")), "/");
    assert_eq!(normalize_path_for_redirect(Some("/logout")), "/");
    assert_eq!(normalize_path_for_redirect(Some("/static/a.css")), "/");
    assert_eq!(normalize_path_for_redirect(Some("/assets/a.js")), "/");
    assert_eq!(normalize_path_for_redirect(Some("/apiary")), "/apiary");
}

#[test]
fn redirect_targets_stay_where_they_are() {
    for raw in [" /a b ", "//x", "/share/x", "", "x", "/api/", "\u{3000}/d/1\u{a0}"] {
        let once = normalize_path_for_redirect(Some(raw));
        assert_eq!(normalize_path_for_redirect(Some(&once)), once);
        assert!(once.starts_with('/') && !once.starts_with("//"));
    }
}

#[test]
fn tokens_are_lower_case_hexadecimal() {
    assert_eq!(token_from_bytes(&vec![0, 255, 16, 171]), "00ff10ab");
    assert_eq!(token_from_bytes(&vec![]), "");
    assert_ne!(token_from_bytes(&vec![1, 2]), token_from_bytes(&vec![2, 1]));
}

#[test]
fn truthy_words() {
    for yes in ["1", "true", "YES", " On \n"] {
        assert!(parse_truthy(yes));
    }
    for no in ["", "0", "false", "2", "yess", "o n"] {
        assert!(!parse_truthy(no));
    }
}

#[test]
fn cookie_policy_comes_from_the_environment() {
    assert!(!cookie_secure_override(&env(&[])));
    assert!(cookie_secure_override(&env(&[("COOKIE_SECURE", "on")])));
    assert!(!cookie_secure_override(&env(&[("COOKIE_SECURE", "off")])));
    assert_eq!(session_max_age_secs(&env(&[])), SESSION_MAX_AGE_SECS);
    assert_eq!(SESSION_MAX_AGE_SECS, 604800);
    assert_eq!(session_max_age_secs(&env(&[("SESSION_MAX_AGE_SECS", " 60 ")])), 60);
    assert_eq!(session_max_age_secs(&env(&[("SESSION_MAX_AGE_SECS", "+60")])), 60);
    for bad in ["0", "-1", "x", "", "4294967296", "1.5"] {
        assert_eq!(session_max_age_secs(&env(&[("SESSION_MAX_AGE_SECS", bad)])), 604800);
    }
    assert_eq!(
        session_max_age_secs(&env(&[("SESSION_MAX_AGE_SECS", "4294967295")])),
        4294967295
    );
    let policy = CookiePolicy::from_env(&env(&[
        ("COOKIE_SECURE", "1"),
        ("SESSION_MAX_AGE_SECS", "5"),
    ]));
    assert!(policy.secure_override);
    assert_eq!(policy.max_age_secs, 5);
}

#[test]
fn cookies_carry_their_flags() {
    let plain = CookiePolicy {
        secure_override: false,
        max_age_secs: 604800,
    };
    let forced = CookiePolicy {
        secure_override: true,
        max_age_secs: 60,
    };
    assert_eq!(
        build_cookie("abc", false, &plain),
        "tgstate_session=abc; HttpOnly; SameSite=Strict; Path=/; Max-Age=604800"
    );
    assert_eq!(
        build_cookie("abc", true, &plain),
        "tgstate_session=abc; HttpOnly; SameSite=Strict; Path=/; Max-Age=604800; Secure"
    );
    assert_eq!(
        build_cookie("abc", false, &forced),
        "tgstate_session=abc; HttpOnly; SameSite=Strict; Path=/; Max-Age=60; Secure"
    );
    assert_eq!(
        build_clear_cookie(),
        "tgstate_session=; HttpOnly; SameSite=Strict; Path=/; Max-Age=0"
    );
    assert_eq!(COOKIE_NAME, "tgstate_session");
    assert_eq!(OIDC_LOGIN_STATE_TTL_SECS, 600);
}

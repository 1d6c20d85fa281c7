use tgstate::auth::CookiePolicy;
use tgstate::config::{EnvVars, OidcSettings, Settings};
use tgstate::database::{AuthSession, OidcLoginState};
use tgstate::middleware::headers::{HeaderField, RequestHeaders};
use tgstate::routes::api_auth::{
    client_config, client_ready, is_https, login_redirect, login_row, login_scopes, login_start,
    login_start_with, logout,
    merge_user_info, oidc_client, oidc_redirect_url, oidc_settings, redirect_error, session,
    user_from_id_token_claims, CallbackAction, CallbackEvent, CallbackPhase, IdTokenClaims,
    LoginCallback, UserInfo,
};

fn text(s: &str) -> Option<String> {
    Some(s.to_string())
}

fn settings(configured: bool) -> Settings {
    let mut s = Settings::from_env(&EnvVars { entries: vec![] });
    s.base_url = "https://site.example/".to_string();
    if configured {
        s.oidc = OidcSettings {
            issuer_url: text("https://auth.example.com"),
            client_id: text("tgstate"),
            client_secret: text("secret"),
        };
    }
    s
}

fn headers() -> RequestHeaders {
    let mut h = RequestHeaders::none();
    h.host = HeaderField::Text("inner:8000".to_string());
    h
}

fn policy() -> CookiePolicy {
    CookiePolicy {
        secure_override: false,
        max_age_secs: 77,
    }
}

fn start(s: &Settings, h: &RequestHeaders) -> (LoginCallback, CallbackAction) {
    LoginCallback::login_callback(s, h, policy(), "CODE".to_string(), "STATE".to_string())
}

fn state(next: Option<&str>) -> CallbackEvent {
    CallbackEvent::StateTaken(Ok(Some(OidcLoginState {
        nonce: "NONCE".to_string(),
        pkce_verifier: "PKCE".to_string(),
        next_path: next.map(|s| s.to_string()),
    })))
}

fn claims() -> IdTokenClaims {
    IdTokenClaims {
        subject: "sub".to_string(),
        preferred_username: None,
        name: text("Name"),
        email: None,
    }
}

fn info() -> UserInfo {
    UserInfo {
        preferred_username: text("user"),
        name: text("Other"),
        email: text("user@example.com"),
        groups: vec!["admins".to_string()],
    }
}

/// The events of a login in order, each of which goes well.
fn events() -> Vec<CallbackEvent> {
    vec![
        state(Some("/settings")),
        CallbackEvent::ClientReady(true),
        CallbackEvent::TokenRequestMade(true),
        CallbackEvent::TokenCame(Some(true)),
        CallbackEvent::ClaimsRead(Some(claims())),
        CallbackEvent::InfoRequestMade(true),
        CallbackEvent::InfoCame(Some(info())),
        CallbackEvent::SessionSaved(true),
    ]
}

fn after(n: usize) -> LoginCallback {
    let (mut c, _) = start(&settings(true), &headers());
    for e in events().into_iter().take(n) {
        c.step(e);
    }
    c
}

fn fails(a: CallbackAction, message: &str, code: &str) {
    match a {
        CallbackAction::Fail { location } => assert_eq!(location, redirect_error(message, code)),
        other => panic!("{:?}", other),
    }
}

#[test]
fn a_login_that_goes_well() {
    let (mut c, a) = start(&settings(true), &headers());
    assert!(matches!(a, CallbackAction::TakeState { state } if state == "STATE"));
    let client = c.client().unwrap();
    assert_eq!(client.issuer, "https://auth.example.com");
    assert_eq!(client.client_id, "tgstate");
    assert_eq!(client.client_secret.as_deref(), Some("secret"));
    assert_eq!(client.redirect_url, "https://site.example/api/auth/callback");
    let mut es = events().into_iter();
    assert!(matches!(c.step(es.next().unwrap()), CallbackAction::Discover));
    assert!(matches!(
        c.step(es.next().unwrap()),
        CallbackAction::RequestTokens { code } if code == "CODE"
    ));
    assert!(matches!(
        c.step(es.next().unwrap()),
        CallbackAction::SendTokenRequest { pkce_verifier } if pkce_verifier == "PKCE"
    ));
    assert!(matches!(
        c.step(es.next().unwrap()),
        CallbackAction::CheckClaims { nonce } if nonce == "NONCE"
    ));
    assert!(matches!(
        c.step(es.next().unwrap()),
        CallbackAction::RequestInfo { subject } if subject == "sub"
    ));
    assert!(matches!(c.step(es.next().unwrap()), CallbackAction::SendInfoRequest));
    let saved = match c.step(es.next().unwrap()) {
        CallbackAction::SaveSession { token, subject, username, email, ttl_secs } => {
            assert_eq!(subject, "sub");
            assert_eq!(username.as_deref(), Some("Name"));
            assert_eq!(email.as_deref(), Some("user@example.com"));
            assert_eq!(ttl_secs, 77);
            assert_eq!(token.len(), 64);
            token
        }
        other => panic!("{:?}", other),
    };
    match c.step(es.next().unwrap()) {
        CallbackAction::Finish { set_cookie, location } => {
            assert_eq!(location, "/settings");
            assert_eq!(
                set_cookie,
                format!(
                    "tgstate_session={}; HttpOnly; SameSite=Strict; Path=/; Max-Age=77",
                    saved
                )
            );
        }
        other => panic!("{:?}", other),
    }
    assert_eq!(c.phase(), CallbackPhase::Done);
}

#[test]
fn every_check_can_fail() {
    let (c, a) = start(&settings(false), &headers());
    fails(a, "OIDC 未配置", "oidc_not_configured");
    assert_eq!(c.phase(), CallbackPhase::Done);
    fails(
        after(0).step(CallbackEvent::StateTaken(Ok(None))),
        "OIDC 登录状态已失效",
        "oidc_state_invalid",
    );
    fails(
        after(0).step(CallbackEvent::StateTaken(Err("db".to_string()))),
        "服务器错误",
        "state_read_failed",
    );
    fails(
        after(1).step(CallbackEvent::ClientReady(false)),
        "OIDC 配置不可用",
        "oidc_client_failed",
    );
    fails(
        after(2).step(CallbackEvent::TokenRequestMade(false)),
        "OIDC token endpoint 未配置",
        "oidc_token_endpoint_missing",
    );
    fails(
        after(3).step(CallbackEvent::TokenCame(None)),
        "OIDC 换取令牌失败",
        "oidc_token_exchange_failed",
    );
    fails(
        after(3).step(CallbackEvent::TokenCame(Some(false))),
        "OIDC 响应缺少 ID Token",
        "oidc_missing_id_token",
    );
    fails(
        after(4).step(CallbackEvent::ClaimsRead(None)),
        "OIDC 登录验证失败",
        "oidc_claims_invalid",
    );
    fails(
        after(5).step(CallbackEvent::InfoRequestMade(false)),
        "OIDC UserInfo endpoint 不可用",
        "oidc_userinfo_unavailable",
    );
    fails(
        after(6).step(CallbackEvent::InfoCame(None)),
        "OIDC UserInfo 请求失败",
        "oidc_userinfo_failed",
    );
    fails(
        after(7).step(CallbackEvent::SessionSaved(false)),
        "服务器错误",
        "session_save_failed",
    );
}

#[test]
fn callbacks_need_an_address() {
    let mut s = settings(true);
    s.base_url = " ".to_string();
    let (mut c, _) = start(&s, &RequestHeaders::none());
    assert!(c.client().is_none());
    fails(c.step(state(None)), "请求缺少 Host", "missing_host");
    s.base_url = "not an address".to_string();
    let (mut c, _) = start(&s, &headers());
    assert!(matches!(c.step(state(None)), CallbackAction::Discover));
    fails(c.discovered(true), "OIDC 配置不可用", "oidc_client_failed");
    let (mut c, _) = start(&settings(true), &headers());
    c.step(state(None));
    fails(c.discovered(false), "OIDC 配置不可用", "oidc_client_failed");
    let (mut c, _) = start(&settings(true), &headers());
    c.step(state(None));
    assert!(matches!(c.discovered(true), CallbackAction::RequestTokens { .. }));
    let mut s = settings(true);
    s.oidc.issuer_url = text("no issuer");
    let (mut c, _) = start(&s, &headers());
    assert!(c.client().is_none());
    fails(c.step(state(None)), "OIDC 配置不可用", "oidc_client_failed");
    let (c, _) = LoginCallback::start_with(
        &s,
        &headers(),
        policy(),
        "CODE".to_string(),
        "STATE".to_string(),
        true,
    );
    assert!(c.client().is_some());
}

#[test]
fn logins_lead_to_pages_of_the_site() {
    for (next, location) in [
        (None, "/"),
        (Some("//evil"), "/"),
        (Some("/api/x"), "/"),
        (Some("/image_hosting"), "/image_hosting"),
    ] {
        let mut h = headers();
        h.x_forwarded_proto = HeaderField::Text("https, http".to_string());
        let (mut c, _) = start(&settings(true), &h);
        c.step(state(next));
        for e in events().into_iter().skip(1).take(5) {
            c.step(e);
        }
        c.step_with(CallbackEvent::InfoCame(Some(info())), "TOKEN".to_string());
        match c.step(CallbackEvent::SessionSaved(true)) {
            CallbackAction::Finish { set_cookie, location: l } => {
                assert_eq!(l, location);
                assert!(set_cookie.starts_with("tgstate_session=TOKEN; "));
                assert!(set_cookie.ends_with("; Secure"));
            }
            other => panic!("{:?}", other),
        }
    }
}

#[test]
fn errors_are_shown_on_the_login_page() {
    assert_eq!(
        redirect_error("a b", "x_y"),
        "/login?error=a%20b&code=x%5Fy"
    );
    assert_eq!(redirect_error("器", "c"), "/login?error=%E5%99%A8&code=c");
}

#[test]
fn callback_addresses() {
    assert_eq!(
        oidc_redirect_url(" https://a.example// ", &RequestHeaders::none()).unwrap(),
        "https://a.example/api/auth/callback"
    );
    let mut h = headers();
    assert_eq!(
        oidc_redirect_url("", &h).unwrap(),
        "http://inner:8000/api/auth/callback"
    );
    h.x_forwarded_host = HeaderField::Text("outer".to_string());
    h.x_forwarded_proto = HeaderField::Text("https".to_string());
    assert_eq!(
        oidc_redirect_url("", &h).unwrap(),
        "https://outer/api/auth/callback"
    );
    h.x_forwarded_host = HeaderField::Text("outer/x".to_string());
    let e = oidc_redirect_url("", &h).unwrap_err();
    assert_eq!((e.status, e.code.as_str()), (400, "missing_host"));
    assert_eq!(e.message, "请求缺少 Host，无法生成 OIDC callback");
}

#[test]
fn https_by_the_first_proxy() {
    let mut h = headers();
    assert!(!is_https(&h));
    h.x_forwarded_proto = HeaderField::Text(" https ,http".to_string());
    assert!(is_https(&h));
    h.x_forwarded_proto = HeaderField::Text("http,https".to_string());
    assert!(!is_https(&h));
}

#[test]
fn clients_of_the_provider() {
    let s = settings(true);
    let c = oidc_client(&s.oidc, "https://r/cb".to_string()).unwrap();
    assert_eq!(c.redirect_url, "https://r/cb");
    assert!(c.discovered(true).is_ok());
    let e = c.discovered(false).unwrap_err();
    assert_eq!((e.status, e.code.as_str()), (502, "oidc_discovery_failed"));
    let c = oidc_client(&s.oidc, "no url".to_string()).unwrap();
    let e = c.discovered(true).unwrap_err();
    assert_eq!((e.status, e.code.as_str()), (503, "oidc_invalid_config"));
    assert_eq!(e.message, "OIDC redirect URL 无效");
    assert!(client_ready(true, true).is_ok());

    let mut o = s.oidc.copy();
    o.issuer_url = text("nonsense");
    let e = oidc_client(&o, "https://r".to_string()).unwrap_err();
    assert_eq!((e.status, e.message.as_str()), (503, "OIDC issuer URL 无效"));
    assert!(client_config(&o, true, "https://r".to_string()).is_ok());
    o.client_id = None;
    let e = oidc_client(&o, "https://r".to_string()).unwrap_err();
    assert_eq!(e.message, "OIDC client_id 未配置");
    o.issuer_url = None;
    let e = oidc_client(&o, "https://r".to_string()).unwrap_err();
    assert_eq!((e.message.as_str(), e.code.as_str()), ("OIDC issuer 未配置", "oidc_not_configured"));
    let e = oidc_settings(&o).unwrap_err();
    assert_eq!((e.status, e.message.as_str()), (503, "OIDC 未配置"));
    assert!(oidc_settings(&s.oidc).is_ok());
}

#[test]
fn logins_start() {
    let l = login_start(&settings(true), &headers(), Some("/settings")).unwrap();
    assert_eq!(l.next_path, "/settings");
    assert_eq!(l.client.redirect_url, "https://site.example/api/auth/callback");
    let e = login_start(&settings(false), &headers(), None).unwrap_err();
    assert_eq!(e.code, "oidc_not_configured");
    let mut s = settings(true);
    s.base_url = String::new();
    let e = login_start(&s, &RequestHeaders::none(), None).unwrap_err();
    assert_eq!(e.code, "missing_host");
    s = settings(true);
    s.oidc.issuer_url = text("x");
    let e = login_start(&s, &headers(), None).unwrap_err();
    assert_eq!(e.code, "oidc_invalid_config");
    assert!(login_start_with(&s, &headers(), None, true).is_ok());
    assert_eq!(login_redirect(true, "u".to_string()).unwrap(), "u");
    let e = login_redirect(false, "u".to_string()).unwrap_err();
    assert_eq!((e.status, e.code.as_str()), (500, "state_save_failed"));
    assert_eq!(login_scopes(), vec!["profile", "email", "groups"]);
}

#[test]
fn what_is_saved_of_a_login() {
    let l = login_start(&settings(true), &headers(), Some("/image_hosting")).unwrap();
    let row = login_row(&l, "S".to_string(), "N".to_string(), "P".to_string());
    assert_eq!(row.state, "S");
    assert_eq!(row.nonce, "N");
    assert_eq!(row.pkce_verifier, "P");
    assert_eq!(row.next_path.as_deref(), Some("/image_hosting"));
    assert_eq!(row.ttl_secs, 600);
    let l = login_start(&settings(true), &headers(), Some("//evil")).unwrap();
    let row = login_row(&l, "S".to_string(), "N".to_string(), "P".to_string());
    assert_eq!(row.next_path.as_deref(), Some("/"));
}

#[test]
fn used_logins_are_refused() {
    let mut table = vec![("STATE".to_string(), "NONCE".to_string())];
    let mut take = |state: &str| {
        let found = table.iter().position(|r| r.0 == state);
        found.map(|i| OidcLoginState {
            nonce: table.remove(i).1,
            pkce_verifier: "PKCE".to_string(),
            next_path: None,
        })
    };
    for good in [true, false] {
        let (mut c, a) = start(&settings(true), &headers());
        let CallbackAction::TakeState { state } = a else {
            panic!("{:?}", a);
        };
        let a = c.step(CallbackEvent::StateTaken(Ok(take(&state))));
        if good {
            assert!(matches!(a, CallbackAction::Discover));
        } else {
            match &a {
                CallbackAction::Fail { location } => {
                    assert!(location.ends_with("&code=oidc%5Fstate%5Finvalid"))
                }
                other => panic!("{:?}", other),
            }
            fails(a, "OIDC 登录状态已失效", "oidc_state_invalid");
            assert_eq!(c.phase(), CallbackPhase::Done);
        }
    }
}

#[test]
fn values_can_be_cloned() {
    let s = settings(true).clone();
    assert_eq!(s.base_url, "https://site.example/");
    assert_eq!(s.oidc.clone().client_id.as_deref(), Some("tgstate"));
}

#[test]
fn users_of_claims_and_info() {
    let u = user_from_id_token_claims(claims());
    assert_eq!(u.subject, "sub");
    assert_eq!(u.username.as_deref(), Some("Name"));
    assert!(u.groups.is_empty());
    let u = merge_user_info(u, info());
    assert_eq!(u.username.as_deref(), Some("Name"));
    assert_eq!(u.email.as_deref(), Some("user@example.com"));
    assert_eq!(u.groups, vec!["admins"]);
    let mut c = claims();
    c.preferred_username = text("pref");
    c.email = text("own@example.com");
    let u = merge_user_info(user_from_id_token_claims(c), info());
    assert_eq!(u.username.as_deref(), Some("pref"));
    assert_eq!(u.email.as_deref(), Some("own@example.com"));
    let mut c = claims();
    c.name = None;
    let u = merge_user_info(user_from_id_token_claims(c), info());
    assert_eq!(u.username.as_deref(), Some("user"));
    let mut i = info();
    i.preferred_username = None;
    let mut c = claims();
    c.name = None;
    let u = merge_user_info(user_from_id_token_claims(c), i);
    assert_eq!(u.username.as_deref(), Some("Other"));
}

#[test]
fn logging_out_and_asking_who_is_in() {
    let mut h = RequestHeaders::none();
    let l = logout(&h);
    assert_eq!(l.session, None);
    assert_eq!(l.message, "已退出登录");
    h.cookie = HeaderField::Text("tgstate_session=T".to_string());
    let l = logout(&h);
    assert_eq!(l.session.as_deref(), Some("T"));
    assert!(l.set_cookie.ends_with("Max-Age=0"));
    assert!(!session(None).authenticated);
    let s = session(Some(AuthSession {
        subject: "s".to_string(),
        username: None,
        email: None,
    }));
    assert!(s.authenticated);
    assert_eq!(s.user.unwrap().subject, "s");
}

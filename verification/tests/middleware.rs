use tgstate::auth::{build_cookie, generate_session_token, CookiePolicy, COOKIE_NAME};
use tgstate::config::EnvVars;
use tgstate::middleware::auth::{
    auth_middleware, check_session, csrf_origin_allowed, expected_origin, is_https, is_public_path,
    is_state_changing, normalize_origin, path_matches_public_entry, percent_encode_path,
    redirect_or_401, referer_origin, refreshes_cookie, reject_csrf, wants_html, Access, Denial, SessionAccess,
};
use tgstate::middleware::headers::{
    extract_cookie, forwarded_proto, request_host, HeaderField, RequestHeaders,
};
use tgstate::middleware::rate_limit::{
    cleanup_expired, extract_ip, forwarded_addresses, limit_for, trust_forwarded_for, Bucket,
    IpKey, Limit, RateLimiter, NANOS,
};
use tgstate::middleware::security_headers::security_headers_middleware;

fn field(s: &str) -> HeaderField {
    HeaderField::Text(s.to_string())
}

fn headers(host: &str, origin: Option<&str>) -> RequestHeaders {
    let mut h = RequestHeaders::none();
    h.host = field(host);
    if let Some(o) = origin {
        h.origin = field(o);
    }
    h
}

fn policy() -> CookiePolicy {
    CookiePolicy {
        secure_override: false,
        max_age_secs: 3600,
    }
}

#[test]
fn csrf_allows_matching_origin() {
    let headers = headers("127.0.0.1:8000", Some("http://127.0.0.1:8000"));
    assert!(csrf_origin_allowed(&headers));
}

#[test]
fn csrf_rejects_cross_origin() {
    let headers = headers("127.0.0.1:8000", Some("https://evil.example"));
    assert!(!csrf_origin_allowed(&headers));
}

#[test]
fn csrf_allows_non_browser_clients_without_origin_headers() {
    let headers = headers("127.0.0.1:8000", None);
    assert!(csrf_origin_allowed(&headers));
}

#[test]
fn first_run_allows_read_only_setup_but_blocks_writes() {
    let read = auth_middleware("GET", "/api/app-config", &RequestHeaders::none(), false, None);
    assert!(matches!(read, Access::Pass));

    let same_origin = headers("127.0.0.1:8000", Some("http://127.0.0.1:8000"));
    let write = auth_middleware("POST", "/api/app-config/save", &same_origin, false, None);
    match write {
        Access::Deny(Denial::Error(e)) => {
            assert_eq!(e.status, 401);
            assert_eq!(e.code, "unauthorized");
            assert_eq!(e.message, "需要登录");
        }
        other => panic!("{:?}", other),
    }

    let public_file = auth_middleware("GET", "/d/file", &RequestHeaders::none(), false, None);
    assert!(matches!(public_file, Access::Pass));
    let front = auth_middleware("GET", "/", &RequestHeaders::none(), false, None);
    assert!(matches!(front, Access::Pass));
}

#[test]
fn authenticated_session_still_reaches_protected_routes() {
    let token = generate_session_token();
    let mut h = RequestHeaders::none();
    h.cookie = field(&format!("{}={}", COOKIE_NAME, token));
    match auth_middleware("GET", "/settings", &h, true, None) {
        Access::CheckSession { token: t } => assert_eq!(t, token),
        other => panic!("{:?}", other),
    }
    match check_session("GET", "/settings", &h, &token, true, &policy()) {
        SessionAccess::Pass { set_cookie } => {
            assert_eq!(set_cookie, Some(build_cookie(&token, false, &policy())))
        }
        other => panic!("{:?}", other),
    }
    match check_session("GET", "/settings", &h, &token, false, &policy()) {
        SessionAccess::Deny(Denial::Error(e)) => assert_eq!(e.status, 401),
        other => panic!("{:?}", other),
    }
}

#[test]
fn cookies_are_renewed_on_pages_and_readings() {
    let h = RequestHeaders::none();
    let set = |method: &str, path: &str| match check_session(
        method,
        path,
        &h,
        "t",
        true,
        &policy(),
    ) {
        SessionAccess::Pass { set_cookie } => set_cookie,
        other => panic!("{:?}", other),
    };
    let fresh = Some(build_cookie("t", false, &policy()));
    for (method, path) in [
        ("GET", "/"),
        ("GET", "/settings"),
        ("POST", "/settings"),
        ("GET", "/api/files"),
        ("HEAD", "/api/files"),
        ("POST", "/api"),
    ] {
        assert_eq!(set(method, path), fresh, "{} {}", method, path);
    }
    for (method, path) in [
        ("POST", "/api/reset-config"),
        ("POST", "/api/upload"),
        ("PUT", "/api/x"),
        ("DELETE", "/api/files/x"),
        ("OPTIONS", "/api/files"),
    ] {
        assert_eq!(set(method, path), None, "{} {}", method, path);
    }
    assert!(refreshes_cookie("GET", "/api/files"));
    assert!(!refreshes_cookie("PATCH", "/api/files"));
}

#[test]
fn writes_need_the_own_origin_everywhere() {
    let foreign = headers("site", Some("http://evil"));
    for path in ["/d/x", "/static/x", "/api/auth/logout", "/settings"] {
        match auth_middleware("POST", path, &foreign, true, None) {
            Access::Reject(e) => {
                assert_eq!(e.status, 403);
                assert_eq!(e.code, "csrf_failed");
                assert_eq!(e.message, reject_csrf().message);
            }
            other => panic!("{:?}", other),
        }
    }
    assert!(matches!(
        auth_middleware("GET", "/d/x", &foreign, true, None),
        Access::Pass
    ));
}

#[test]
fn closed_paths_are_closed() {
    let mut browser = RequestHeaders::none();
    browser.accept = field("text/html,application/xhtml+xml");
    match auth_middleware("GET", "/set tings", &browser, true, None) {
        Access::Deny(Denial::Login { location }) => {
            assert_eq!(location, "/login?next=%2Fset%20tings")
        }
        other => panic!("{:?}", other),
    }
    match auth_middleware("GET", "/api/files", &browser, true, None) {
        Access::Deny(Denial::Error(e)) => assert_eq!(e.status, 401),
        other => panic!("{:?}", other),
    }
    browser.cookie = field("tgstate_session=");
    assert!(matches!(
        auth_middleware("GET", "/", &browser, true, None),
        Access::Deny(_)
    ));
    browser.cookie = HeaderField::Opaque;
    assert!(matches!(
        auth_middleware("GET", "/", &browser, true, None),
        Access::Deny(_)
    ));
    assert!(matches!(
        auth_middleware("GET", "/settings", &browser, false, None),
        Access::Deny(_)
    ));
}

#[test]
fn open_paths_are_open() {
    for p in [
        "/static/a",
        "/assets/a",
        "/favicon.ico",
        "/robots.txt",
        "/d/abc",
        "/share/abc",
        "/api/health",
        "/api/health/x",
        "/api/auth/login",
        "/api/auth/callback",
        "/api/auth/oidc/callback",
        "/api/auth/logout",
        "/login",
        "/pwd",
        "/welcome",
    ] {
        assert!(is_public_path(p), "{}", p);
    }
    for p in [
        "/",
        "/d",
        "/share",
        "/api/healthy",
        "/api/auth/session",
        "/api/auth/login2",
        "/login/",
        "/settings",
        "/api/upload",
    ] {
        assert!(!is_public_path(p), "{}", p);
    }
}

#[test]
fn uploads_pass_with_the_picgo_key() {
    let mut h = headers("site", None);
    h.x_api_key = field("secret");
    assert!(matches!(
        auth_middleware("POST", "/api/upload", &h, true, Some("secret")),
        Access::Pass
    ));
    for (method, path, key, configured) in [
        ("POST", "/api/upload", Some("other"), true),
        ("POST", "/api/upload", None, true),
        ("POST", "/api/upload", Some(""), true),
        ("POST", "/api/upload", Some("secret"), false),
        ("GET", "/api/upload", Some("secret"), true),
        ("POST", "/api/files", Some("secret"), true),
    ] {
        assert!(matches!(
            auth_middleware(method, path, &h, configured, key),
            Access::Deny(_)
        ));
    }
    h.x_api_key = field("");
    assert!(matches!(
        auth_middleware("POST", "/api/upload", &h, true, Some("")),
        Access::Deny(_)
    ));
    h.origin = field("https://evil");
    h.x_api_key = field("secret");
    assert!(matches!(
        auth_middleware("POST", "/api/upload", &h, true, Some("secret")),
        Access::Reject(_)
    ));
}

#[test]
fn public_entries_match_whole_segments() {
    assert!(path_matches_public_entry("/", "/"));
    assert!(!path_matches_public_entry("/x", "/"));
    assert!(path_matches_public_entry("/d/x", "/d/"));
    assert!(!path_matches_public_entry("/d", "/d/"));
    assert!(path_matches_public_entry("/a", "/a"));
    assert!(path_matches_public_entry("/a/b", "/a"));
    assert!(!path_matches_public_entry("/ab", "/a"));
}

#[test]
fn methods_that_read() {
    for m in ["GET", "HEAD", "OPTIONS", "TRACE"] {
        assert!(!is_state_changing(m));
    }
    for m in ["POST", "PUT", "DELETE", "PATCH", "get", "CONNECT"] {
        assert!(is_state_changing(m));
    }
}

#[test]
fn origins_and_pages() {
    assert_eq!(normalize_origin(" https://a// ").as_deref(), Some("https://a"));
    assert_eq!(normalize_origin("http://a:1").as_deref(), Some("http://a:1"));
    assert_eq!(normalize_origin("null"), None);
    assert_eq!(normalize_origin("ftp://a"), None);
    assert_eq!(normalize_origin("http://"), None);
    assert_eq!(
        referer_origin("https://a.example:8443/x/y?z").as_deref(),
        Some("https://a.example:8443")
    );
    assert_eq!(referer_origin(" http://a ").as_deref(), Some("http://a"));
    assert_eq!(referer_origin("a.example/x"), None);
    assert_eq!(referer_origin("ftp://a/x"), None);

    let mut h = headers("site", None);
    h.referer = field("http://site/page");
    assert!(csrf_origin_allowed(&h));
    h.referer = field("http://site.evil/page");
    assert!(!csrf_origin_allowed(&h));
    h.origin = field("http://site/");
    assert!(csrf_origin_allowed(&h));
    h.origin = HeaderField::Opaque;
    assert!(!csrf_origin_allowed(&h));
    assert!(!csrf_origin_allowed(&RequestHeaders::none()));
}

#[test]
fn hosts_and_schemes_of_proxies() {
    let mut h = headers("inner", None);
    assert_eq!(request_host(&h).as_deref(), Some("inner"));
    assert_eq!(forwarded_proto(&h), "http");
    assert_eq!(expected_origin(&h).as_deref(), Some("http://inner"));
    h.x_forwarded_host = field(" outer , inner");
    h.x_forwarded_proto = field("https, http");
    assert_eq!(request_host(&h).as_deref(), Some("outer"));
    assert_eq!(forwarded_proto(&h), "https");
    assert_eq!(expected_origin(&h).as_deref(), Some("https://outer"));
    assert!(!is_https(&h));
    h.x_forwarded_proto = field("https");
    assert!(is_https(&h));
    h.x_forwarded_proto = field("gopher");
    assert_eq!(forwarded_proto(&h), "http");
    h.x_forwarded_host = HeaderField::Opaque;
    assert_eq!(request_host(&h), None);
    h.x_forwarded_host = field(",x");
    assert_eq!(request_host(&h), None);
}

#[test]
fn cookies_are_found_by_name() {
    let mut h = RequestHeaders::none();
    assert_eq!(extract_cookie(&h, "a"), None);
    h.cookie = field("b=1; a=2=3; a=4;c");
    assert_eq!(extract_cookie(&h, "a").as_deref(), Some("2=3"));
    assert_eq!(extract_cookie(&h, "b").as_deref(), Some("1"));
    assert_eq!(extract_cookie(&h, "c"), None);
    h.cookie = field("a =1");
    assert_eq!(extract_cookie(&h, "a"), None);
}

#[test]
fn a_session_cookie_reads_back() {
    let token = generate_session_token();
    let set = build_cookie(&token, true, &policy());
    let pair = set.split(';').next().unwrap().to_string();
    let mut h = RequestHeaders::none();
    h.cookie = field(&pair);
    assert_eq!(extract_cookie(&h, COOKIE_NAME), Some(token.clone()));
    h.cookie = field(&format!("theme=dark; {}", pair));
    assert_eq!(extract_cookie(&h, COOKIE_NAME), Some(token));
}

#[test]
fn denials_for_browsers_and_clients() {
    let mut h = RequestHeaders::none();
    assert!(!wants_html(&h));
    h.accept = field("application/json, text/html;q=0.9");
    assert!(wants_html(&h));
    match redirect_or_401("/日", true) {
        Denial::Login { location } => assert_eq!(location, "/login?next=%2F%E6%97%A5"),
        other => panic!("{:?}", other),
    }
    assert!(matches!(redirect_or_401("/api/x", true), Denial::Error(_)));
    assert!(matches!(redirect_or_401("/x", false), Denial::Error(_)));
    assert_eq!(percent_encode_path("aZ09-_.~ /%"), "aZ09%2D%5F%2E%7E%20%2F%25");
    let encoded = percent_encode_path("/a&b=c?é");
    assert!(encoded.bytes().all(|b| b.is_ascii_graphic()) && !encoded.contains('&'));
    assert_ne!(percent_encode_path("/a"), percent_encode_path("%2Fa"));
}

#[test]
fn security_headers_are_complete() {
    let mut h = RequestHeaders::none();
    let plain = security_headers_middleware(&h, None);
    assert_eq!(plain.len(), 7);
    assert_eq!(plain[0], ("X-Content-Type-Options".into(), "nosniff".into()));
    assert_eq!(plain[1], ("X-Frame-Options".into(), "DENY".into()));
    assert_eq!(
        plain[2],
        ("Referrer-Policy".into(), "strict-origin-when-cross-origin".into())
    );
    assert_eq!(plain[4], ("X-XSS-Protection".into(), "0".into()));
    assert_eq!(
        plain[5],
        ("X-Permitted-Cross-Domain-Policies".into(), "none".into())
    );
    assert!(plain[6].1.contains("frame-ancestors 'none'"));
    assert_eq!(security_headers_middleware(&h, Some("http")).len(), 7);
    let direct = security_headers_middleware(&h, Some("https"));
    assert_eq!(
        direct[7],
        (
            "Strict-Transport-Security".into(),
            "max-age=31536000; includeSubDomains".into()
        )
    );
    h.x_forwarded_proto = field("https");
    assert_eq!(security_headers_middleware(&h, None).len(), 8);
}

#[test]
fn login_is_limited_to_five_a_minute() {
    let mut l = RateLimiter::new();
    let ip = IpKey::V4(1);
    for i in 0..5 {
        assert!(l.rate_limit_middleware("/api/auth/login", ip, i).is_ok());
    }
    let e = l.rate_limit_middleware("/api/auth/login", ip, 5).unwrap_err();
    assert_eq!(e.status, 429);
    assert_eq!(e.code, "rate_limited");
    assert_eq!(e.message, "请求过于频繁，请稍后再试");
    assert!(l.rate_limit_middleware("/api/auth/login", IpKey::V6(1), 5).is_ok());
    assert!(l.rate_limit_middleware("/api/files", ip, 5).is_ok());
    assert!(l.rate_limit_middleware("/anything", ip, 5).is_ok());
    assert!(l.rate_limit_middleware("/api/auth/login", ip, 60 * NANOS).is_err());
    assert!(l.rate_limit_middleware("/api/auth/login", ip, 60 * NANOS + 1).is_ok());
    for i in 0..4 {
        assert!(l
            .rate_limit_middleware("/api/auth/login", ip, 60 * NANOS + 2 + i)
            .is_ok());
    }
    assert!(l
        .rate_limit_middleware("/api/auth/login", ip, 60 * NANOS + 9)
        .is_err());
}

#[test]
fn two_windows_allow_twice_the_limit_at_most() {
    let mut b = Bucket::new();
    let ip = IpKey::V6(9);
    assert!(b.check_rate(ip, 0, 5, 60));
    let mut allowed = 0;
    for now in (50..100).chain(101..105) {
        if b.check_rate(ip, now, 5, 60) {
            allowed += 1;
        }
    }
    assert_eq!(allowed, 9);
}

#[test]
fn paths_fall_under_limits() {
    assert_eq!(limit_for("/api/auth/login?x"), Some(Limit::Login));
    assert_eq!(limit_for("/api/upload"), Some(Limit::Upload));
    assert_eq!(limit_for("/api/files"), Some(Limit::Api));
    assert_eq!(limit_for("/d/x"), Some(Limit::Download));
    assert_eq!(limit_for("/share/x"), Some(Limit::Download));
    assert_eq!(limit_for("/"), None);
    assert_eq!(limit_for("/api"), None);
}

#[test]
fn full_buckets_are_swept_and_then_closed() {
    let mut b = Bucket::new();
    for i in 0..10001u32 {
        assert!(b.check_rate(IpKey::V4(i), 0, 1, 100));
    }
    assert!(!b.check_rate(IpKey::V4(0), 50, 9, 100));
    assert!(!b.check_rate(IpKey::V6(7), 99, 9, 100));
    assert!(b.check_rate(IpKey::V6(7), 100, 1, 100));
    assert_eq!(b.v4.len(), 0);
    assert_eq!(b.v6.len(), 1);
    assert!(!b.check_rate(IpKey::V6(7), 200, 1, 100));
    assert!(b.check_rate(IpKey::V6(7), 201, 1, 100));
}

#[test]
fn cleanup_removes_old_entries() {
    let mut l = RateLimiter::new();
    l.rate_limit_middleware("/d/x", IpKey::V4(1), 0).unwrap();
    l.rate_limit_middleware("/d/x", IpKey::V4(2), 5).unwrap();
    l.rate_limit_middleware("/api/x", IpKey::V6(3), 0).unwrap();
    cleanup_expired(&mut l, 120 * NANOS);
    assert_eq!(l.download.v4.len(), 1);
    assert!(l.download.v4.contains_key(&2));
    assert_eq!(l.api.v6.len(), 0);
    cleanup_expired(&mut l, 120 * NANOS + 5);
    assert_eq!(l.download.v4.len(), 0);
}

#[test]
fn exactly_the_limit_passes_whatever_others_do() {
    let mut b = Bucket::new();
    let ip = IpKey::V4(1);
    let mut made = 0;
    for now in 0..=60u64 {
        assert!(b.check_rate(IpKey::V6(now as u128), now, 3, 60));
        made += 1;
        assert_eq!(b.check_rate(ip, now, 3, 60), made <= 3);
    }
}

#[test]
fn cleanup_changes_no_decision() {
    for later in [0, 1, 59 * NANOS, 60 * NANOS, 60 * NANOS + 1, 500 * NANOS] {
        for cleaned in [0, 60 * NANOS, 119 * NANOS, 120 * NANOS, 200 * NANOS] {
            let mut with = RateLimiter::new();
            let mut without = RateLimiter::new();
            for l in [&mut with, &mut without] {
                for i in 0..5 {
                    assert!(l.rate_limit_middleware("/api/auth/login", IpKey::V4(1), i).is_ok());
                }
            }
            cleanup_expired(&mut with, cleaned);
            let now = cleaned + later;
            assert_eq!(
                with.rate_limit_middleware("/api/auth/login", IpKey::V4(1), now).is_ok(),
                without.rate_limit_middleware("/api/auth/login", IpKey::V4(1), now).is_ok()
            );
        }
    }
}

#[test]
fn addresses_of_clients() {
    let mut h = RequestHeaders::none();
    h.x_forwarded_for = field(" 1.2.3.4 , 5.6.7.8");
    h.x_real_ip = field(" 9.9.9.9 ");
    assert_eq!(forwarded_addresses(&h, false), (None, None));
    assert_eq!(
        forwarded_addresses(&h, true),
        (Some("1.2.3.4".to_string()), Some("9.9.9.9".to_string()))
    );
    let (a, b, c) = (IpKey::V4(1), IpKey::V4(2), IpKey::V6(3));
    assert_eq!(extract_ip(Some(a), Some(b), Some(c)), a);
    assert_eq!(extract_ip(None, Some(b), Some(c)), b);
    assert_eq!(extract_ip(None, None, Some(c)), c);
    assert_eq!(extract_ip(None, None, None), IpKey::V4(0x7f000001));
    let on = EnvVars {
        entries: vec![("TRUST_FORWARDED_FOR".to_string(), "1".to_string())],
    };
    assert!(trust_forwarded_for(&on));
    assert!(!trust_forwarded_for(&EnvVars { entries: vec![] }));
}

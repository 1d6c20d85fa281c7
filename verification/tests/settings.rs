use tgstate::config::{AppSettingsMap, OidcSettings};
use tgstate::database::{get_app_settings_from_db, save_app_settings_to_db};
use tgstate::routes::api_settings::{
    bot_fields_verdict, bot_verdict, get_app_config, merge_config, reset_config, save_answer,
    save_config, validate_config, verify_bot, verify_channel, AppConfigRequest, VerifyRequest,
};
use tgstate::telegram::request::{Exchange, Param};

fn text(s: &str) -> Option<String> {
    Some(s.to_string())
}

fn map(pairs: &[(&str, Option<&str>)]) -> AppSettingsMap {
    let mut m = AppSettingsMap::new();
    for (k, v) in pairs {
        m.insert(k, v.map(|s| s.to_string()));
    }
    m
}

fn request(values: [Option<&str>; 4]) -> AppConfigRequest {
    let [t, c, b, p] = values.map(|v| v.map(|s| s.to_string()));
    AppConfigRequest {
        bot_token: t,
        channel_name: c,
        base_url: b,
        picgo_api_key: p,
    }
}

fn code(m: &AppSettingsMap) -> Option<String> {
    match validate_config(m) {
        Ok(()) => None,
        Err(e) => {
            assert_eq!(e.status, 400);
            Some(e.code)
        }
    }
}

#[test]
fn settings_are_checked() {
    assert_eq!(code(&AppSettingsMap::new()), None);
    assert_eq!(code(&map(&[("BOT_TOKEN", Some(" "))])), None);
    assert_eq!(code(&map(&[("BOT_TOKEN", Some("12345678:abcdefghijk"))])), None);
    assert_eq!(
        code(&map(&[("BOT_TOKEN", Some("1234567:abcdefghijk"))])).as_deref(),
        Some("invalid_bot_token")
    );
    assert_eq!(
        code(&map(&[("BOT_TOKEN", Some("12345678-abcdefghijklmnop"))])).as_deref(),
        Some("invalid_bot_token")
    );
    // The length counts bytes.
    assert_eq!(code(&map(&[("BOT_TOKEN", Some("1:文文文文文文"))])), None);
    assert_eq!(code(&map(&[("CHANNEL_NAME", Some("@c"))])), None);
    assert_eq!(code(&map(&[("CHANNEL_NAME", Some(" -100123"))])), None);
    assert_eq!(
        code(&map(&[("CHANNEL_NAME", Some("c"))])).as_deref(),
        Some("invalid_channel")
    );
    assert_eq!(code(&map(&[("BASE_URL", Some("https://x"))])), None);
    assert_eq!(code(&map(&[("BASE_URL", Some("http://x"))])), None);
    assert_eq!(
        code(&map(&[("BASE_URL", Some("x.example"))])).as_deref(),
        Some("invalid_base_url")
    );
    let e = validate_config(&map(&[("BASE_URL", Some("x"))])).unwrap_err();
    assert_eq!(e.message, "BASE_URL 必须以 http:// 或 https:// 开头");
    let e = validate_config(&map(&[("CHANNEL_NAME", Some("x"))])).unwrap_err();
    assert_eq!(e.message, "CHANNEL_NAME 格式不正确（@username 或 -100...）");
    let e = validate_config(&map(&[("BOT_TOKEN", Some("x"))])).unwrap_err();
    assert_eq!(e.message, "BOT_TOKEN 格式不正确");
}

#[test]
fn requests_change_what_they_mention() {
    let old = map(&[("BOT_TOKEN", Some("t")), ("BASE_URL", Some("http://b"))]);
    let m = merge_config(&old, &request([None, Some(" @c "), Some("  "), None]));
    assert_eq!(m.get("BOT_TOKEN").as_deref(), Some("t"));
    assert_eq!(m.get("CHANNEL_NAME").as_deref(), Some("@c"));
    assert_eq!(m.get("BASE_URL"), None);
    assert_eq!(m.get("PICGO_API_KEY"), None);
    let m = merge_config(&m, &request([Some("new"), None, None, Some("k")]));
    assert_eq!(m.get("BOT_TOKEN").as_deref(), Some("new"));
    assert_eq!(m.get("PICGO_API_KEY").as_deref(), Some("k"));
    let again = merge_config(&m, &request([Some("new"), None, None, Some("k")]));
    for name in ["BOT_TOKEN", "CHANNEL_NAME", "BASE_URL", "PICGO_API_KEY"] {
        assert_eq!(again.get(name), m.get(name));
    }
}

#[test]
fn settings_are_saved_if_they_are_right() {
    let row = save_config(None, &request([None, Some(" @c"), None, None])).unwrap();
    assert_eq!(row.channel_name.as_deref(), Some("@c"));
    assert_eq!(row.bot_token, None);
    let old = map(&[("BASE_URL", Some("https://x "))]);
    let row = save_config(Some(&old), &request([None, None, None, Some("k")])).unwrap();
    assert_eq!(row.base_url.as_deref(), Some("https://x"));
    assert_eq!(row.picgo_api_key.as_deref(), Some("k"));
    let e = save_config(Some(&old), &request([Some("bad"), None, None, None])).unwrap_err();
    assert_eq!(e.code, "invalid_bot_token");
    // What was stored passes the check again.
    let stored = get_app_settings_from_db(&Some(row));
    assert!(validate_config(&stored).is_ok());
    assert_eq!(save_app_settings_to_db(&stored).base_url.as_deref(), Some("https://x"));
}

#[test]
fn answers_to_changes() {
    assert_eq!(save_answer(true, false).unwrap(), "已保存（未应用）");
    assert_eq!(save_answer(true, true).unwrap(), "已保存并应用");
    for applied in [false, true] {
        let e = save_answer(false, applied).unwrap_err();
        assert_eq!((e.status, e.code.as_str()), (500, "save_error"));
        assert_eq!(e.message, "保存配置失败");
    }
    let (message, cookie) = reset_config();
    assert_eq!(message, "配置已重置");
    assert_eq!(
        cookie,
        "tgstate_session=; HttpOnly; SameSite=Strict; Path=/; Max-Age=0"
    );
}

#[test]
fn secrets_are_not_shown() {
    let oidc = OidcSettings {
        issuer_url: text("https://i"),
        client_id: text("c"),
        client_secret: text("s"),
    };
    let m = map(&[
        ("BOT_TOKEN", Some("t")),
        ("CHANNEL_NAME", Some("@c")),
        ("PICGO_API_KEY", Some("")),
    ]);
    let v = get_app_config(&m, &oidc);
    assert!(v.bot_token_set && !v.picgo_api_key_set && v.oidc_configured);
    assert_eq!(v.channel_name, "@c");
    assert_eq!(v.base_url, "");
    assert_eq!(v.oidc_issuer_url, "https://i");
    assert_eq!(v.oidc_client_id, "c");
}

fn verify(token: Option<&str>, channel: Option<&str>) -> VerifyRequest {
    VerifyRequest {
        bot_token: token.map(|s| s.to_string()),
        channel_name: channel.map(|s| s.to_string()),
    }
}

fn answer(s: &str) -> Exchange<Vec<u8>> {
    Exchange::Answer(s.as_bytes().to_vec())
}

#[test]
fn bots_are_tried_out() {
    let m = map(&[("BOT_TOKEN", Some("db"))]);
    let trial = verify_bot(&verify(None, None), &m).unwrap();
    assert_eq!(trial.url, "https://api.telegram.org/botdb/getMe");
    assert_eq!(trial.timeout_secs, 10);
    assert_eq!(
        verify_bot(&verify(Some("mine"), None), &m).unwrap().url,
        "https://api.telegram.org/botmine/getMe"
    );
    let v = verify_bot(&verify(Some(""), None), &m).unwrap_err();
    assert!(!v.available);
    assert_eq!(v.message.as_deref(), Some("未提供 BOT_TOKEN"));
    let v = bot_verdict(answer("{\"ok\":true,\"result\":{\"username\":\"b\"}}"));
    assert!(v.available);
    assert_eq!(v.username.as_deref(), Some("b"));
    assert_eq!(v.message, None);
    let v = bot_verdict(answer("{\"ok\":true}"));
    assert_eq!(v.username.as_deref(), Some("unknown"));
    let v = bot_verdict(answer("{\"ok\":false,\"description\":\"Unauthorized\"}"));
    assert!(!v.available);
    assert_eq!(v.message.as_deref(), Some("Unauthorized"));
    let v = bot_verdict(answer("[]"));
    assert_eq!(v.message.as_deref(), Some("Unknown error"));
    let v = bot_verdict(answer("<html>"));
    assert_eq!(v.message.as_deref(), Some("解析响应失败"));
    let v = bot_verdict(Exchange::Unreadable(String::new()));
    assert_eq!(v.message.as_deref(), Some("解析响应失败"));
    let v = bot_verdict(Exchange::Failed(String::new()));
    assert_eq!(v.message.as_deref(), Some("连接失败"));
    assert!(bot_fields_verdict(Some(true), &None, &None).available);
    assert!(!bot_fields_verdict(Some(false), &text("b"), &None).available);
}

#[test]
fn channels_are_tried_out() {
    let m = map(&[("BOT_TOKEN", Some("t")), ("CHANNEL_NAME", Some("@c"))]);
    let t = verify_channel(&verify(None, Some("@d")), &m).unwrap();
    assert_eq!((t.token.as_str(), t.channel.as_str()), ("t", "@d"));
    assert_eq!(t.request.url, "https://api.telegram.org/bott/sendMessage");
    assert_eq!(t.request.timeout_secs, Some(10));
    assert!(matches!(&t.request.params[0], (n, Param::Text(c)) if n == "chat_id" && c == "@d"));
    assert!(matches!(
        &t.request.params[1],
        (n, Param::Text(c)) if n == "text" && c == "tgState channel check"
    ));
    let v = verify_channel(&verify(None, Some("")), &m).unwrap_err();
    assert_eq!(v.message.as_deref(), Some("缺少 BOT_TOKEN 或 CHANNEL_NAME"));
    assert!(verify_channel(&verify(None, None), &AppSettingsMap::new()).is_err());

    let (v, cleanup) = t.verdict(answer("{\"ok\":true,\"result\":{\"message_id\":5}}"));
    assert!(v.available && v.message.is_none());
    let cleanup = cleanup.unwrap();
    assert_eq!(cleanup.url, "https://api.telegram.org/bott/deleteMessage");
    assert!(matches!(&cleanup.params[0], (n, Param::Text(c)) if n == "chat_id" && c == "@d"));
    assert!(matches!(&cleanup.params[1], (n, Param::Number(5)) if n == "message_id"));
    assert_eq!(cleanup.timeout_secs, Some(10));
    let (v, cleanup) = t.verdict(answer("{\"ok\":true}"));
    assert!(v.available && cleanup.is_none());
    let (v, cleanup) = t.verdict(answer("{\"ok\":false,\"result\":{\"message_id\":5}}"));
    assert!(!v.available && cleanup.is_none());
    assert_eq!(v.message.as_deref(), Some("Unknown error"));
    let (v, _) = t.verdict(answer("x"));
    assert_eq!(v.message.as_deref(), Some("解析响应失败"));
    let (v, _) = t.verdict(Exchange::Unreadable(String::new()));
    assert_eq!(v.message.as_deref(), Some("解析响应失败"));
    let (v, _) = t.verdict(Exchange::Failed(String::new()));
    assert_eq!(v.message.as_deref(), Some("连接失败"));
    let (v, c) = t.fields_verdict(Some(true), None, &None);
    assert!(v.available && c.is_none());
}

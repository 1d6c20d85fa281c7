use tgstate::config::AppSettingsMap;
use tgstate::state::BotState;

fn map(token: &str, channel: &str) -> AppSettingsMap {
    let mut m = AppSettingsMap::new();
    m.insert("BOT_TOKEN", Some(token.to_string()));
    m.insert("CHANNEL_NAME", Some(channel.to_string()));
    m.insert("BASE_URL", Some("http://b".to_string()));
    m
}

#[test]
fn bots_start_and_stop() {
    let mut b = BotState::new(map("t", "@c"), true);
    assert!(b.bot_ready && !b.bot_running && b.bot_error.is_none());
    b.bot_error = Some("old".to_string());
    let s = b.start_bot().unwrap();
    assert_eq!((s.token.as_str(), s.channel.as_str(), s.base_url.as_str()), ("t", "@c", "http://b"));
    assert!(b.bot_running && b.bot_error.is_none());
    b.stop_bot();
    assert!(!b.bot_running && b.bot_ready);
    let mut b = BotState::new(map("t", ""), false);
    b.bot_error = Some("old".to_string());
    assert_eq!(b.start_bot().unwrap_err(), "BOT_TOKEN or CHANNEL_NAME not configured");
    assert!(!b.bot_running);
    assert_eq!(b.bot_error.as_deref(), Some("old"));
}

#[test]
fn settings_are_applied() {
    let mut b = BotState::new(map("t", "@c"), true);
    b.bot_running = true;
    b.bot_error = Some("old".to_string());
    assert!(b.apply_runtime_settings(map("u", " "), false).is_none());
    assert!(b.bot_running && !b.bot_ready);
    assert_eq!(b.bot_error.as_deref(), Some("old"));
    assert_eq!(b.app_settings.get("BOT_TOKEN").as_deref(), Some("u"));

    assert!(b.apply_runtime_settings(map(" ", "@c"), true).is_none());
    assert!(!b.bot_running && !b.bot_ready && b.bot_error.is_none());

    let s = b.apply_runtime_settings(map("v", "@d"), true).unwrap();
    assert_eq!((s.token.as_str(), s.channel.as_str()), ("v", "@d"));
    assert!(b.bot_running && b.bot_ready);
}

//! The settings page: reading, checking, saving and trying out settings.
use vstd::prelude::*;
use vstd::string::*;
use vstd::utf8::*;

use crate::auth::COOKIE_NAME;
use crate::auth::build_clear_cookie;
use crate::config::AppSettingsMap;
use crate::config::OidcSettings;
use crate::config::first_of;
use crate::config::logins_need_all_three;
use crate::config::not_blank;
use crate::config::setting;
use crate::database::SettingsRow;
use crate::database::column_is;
use crate::database::columns_are_their_settings;
use crate::database::lemma_setting_names;
use crate::database::norm;
use crate::database::row_of;
use crate::database::save_app_settings_to_db;
use crate::database::saved_settings_read_back;
use crate::database::settings_of;
use crate::error::HttpError;
use crate::error::HttpErrorView;
use crate::error::http_error;
use crate::error::refusal;
use crate::outside::json_fields;
use crate::outside::json_reply;
use crate::telegram::request::ApiRequest;
use crate::telegram::request::ApiRequestView;
use crate::telegram::request::Exchange;
use crate::telegram::request::ParamView;
use crate::telegram::request::method_url;
use crate::telegram::request::method_url_of;
use crate::telegram::request::text_param;
use crate::telegram::service::delete_request;
use crate::telegram::service::delete_request_for;
use crate::text::all_space;
use crate::text::beginnings_are_in_front;
use crate::text::begins;
use crate::text::byte_len;
use crate::text::contains;
use crate::text::holds;
use crate::text::lemma_trimmed;
use crate::text::occurs_at;
use crate::text::opt_view;
use crate::text::or_empty;
use crate::text::starts_with;
use crate::text::text_or_empty;
use crate::text::trim;
use crate::text::trimmed;
use crate::text::trimming_cuts_white_space_alone;

verus! {

/// Settings to change. What is missing stays as it is.
#[derive(Debug)]
pub struct AppConfigRequest {
    pub bot_token: Option<String>,
    pub channel_name: Option<String>,
    pub base_url: Option<String>,
    pub picgo_api_key: Option<String>,
}

/// Settings to try out. What is missing is taken from the settings in force.
#[derive(Debug)]
pub struct VerifyRequest {
    pub bot_token: Option<String>,
    pub channel_name: Option<String>,
}

/// A token cannot be one of Telegram: it lacks the colon or is too short.
pub open spec fn bad_token(t: Seq<char>) -> bool {
    t.len() > 0 && (!holds(t, ":"@) || encode_utf8(t).len() < 20)
}

/// A channel is neither named with `@` nor numbered with `-100`.
pub open spec fn bad_channel(c: Seq<char>) -> bool {
    c.len() > 0 && !begins(c, "@"@) && !begins(c, "-100"@)
}

/// An address is none of the web.
pub open spec fn bad_base_url(u: Seq<char>) -> bool {
    u.len() > 0 && !begins(u, "http://"@) && !begins(u, "https://"@)
}

/// A setting without white space around it; nothing if it has no value.
pub open spec fn tidy(m: Map<Seq<char>, Option<Seq<char>>>, name: Seq<char>) -> Seq<char> {
    trimmed(or_empty(setting(m, name)))
}

/// Why the settings are refused, if they are.
pub open spec fn config_refusal(m: Map<Seq<char>, Option<Seq<char>>>) -> Option<HttpErrorView> {
    if bad_token(tidy(m, "BOT_TOKEN"@)) {
        Some(refusal(400, "BOT_TOKEN 格式不正确"@, "invalid_bot_token"@))
    } else if bad_channel(tidy(m, "CHANNEL_NAME"@)) {
        Some(refusal(400, "CHANNEL_NAME 格式不正确（@username 或 -100...）"@, "invalid_channel"@))
    } else if bad_base_url(tidy(m, "BASE_URL"@)) {
        Some(refusal(400, "BASE_URL 必须以 http:// 或 https:// 开头"@, "invalid_base_url"@))
    } else {
        None
    }
}

fn tidied(cfg: &AppSettingsMap, name: &str) -> (r: String)
    ensures
        r@ == tidy(cfg@, name@),
{
    trim(cfg.text(name).as_str())
}

/// Checks the settings. One without a value is always right.
pub fn validate_config(cfg: &AppSettingsMap) -> (r: Result<(), HttpError>)
    ensures
        match config_refusal(cfg@) {
            Some(x) => r matches Err(e) && e@ == x,
            None => r is Ok,
        },
{
    let token: String = tidied(cfg, "BOT_TOKEN");
    let t: &str = token.as_str();
    if !t.is_empty() && (!contains(t, ":") || byte_len(t) < 20) {
        return Err(http_error(400, "BOT_TOKEN 格式不正确", "invalid_bot_token"));
    }
    let channel: String = tidied(cfg, "CHANNEL_NAME");
    let c: &str = channel.as_str();
    if !c.is_empty() && !starts_with(c, "@") && !starts_with(c, "-100") {
        return Err(
            http_error(400, "CHANNEL_NAME 格式不正确（@username 或 -100...）", "invalid_channel"),
        );
    }
    let base: String = tidied(cfg, "BASE_URL");
    let u: &str = base.as_str();
    if !u.is_empty() && !starts_with(u, "http://") && !starts_with(u, "https://") {
        return Err(
            http_error(400, "BASE_URL 必须以 http:// 或 https:// 开头", "invalid_base_url"),
        );
    }
    Ok(())
}

/// The settings with one of them changed, if a value came for it. A blank
/// value removes what was set.
pub open spec fn changed(
    m: Map<Seq<char>, Option<Seq<char>>>,
    name: Seq<char>,
    value: Option<Seq<char>>,
) -> Map<Seq<char>, Option<Seq<char>>> {
    match value {
        Some(_) => m.insert(name, not_blank(value)),
        None => m,
    }
}

/// The settings with the changes of a request.
pub open spec fn merged(
    m: Map<Seq<char>, Option<Seq<char>>>,
    incoming: AppConfigRequest,
) -> Map<Seq<char>, Option<Seq<char>>> {
    changed(
        changed(
            changed(
                changed(m, "BOT_TOKEN"@, opt_view(incoming.bot_token)),
                "CHANNEL_NAME"@,
                opt_view(incoming.channel_name),
            ),
            "BASE_URL"@,
            opt_view(incoming.base_url),
        ),
        "PICGO_API_KEY"@,
        opt_view(incoming.picgo_api_key),
    )
}

fn change(m: &mut AppSettingsMap, name: &str, value: &Option<String>)
    ensures
        final(m)@ == changed(old(m)@, name@, opt_view(*value)),
{
    if let Some(v) = value {
        m.insert(name, norm(Some(v.as_str())));
    }
}

/// The settings with the changes of a request.
pub fn merge_config(existing: &AppSettingsMap, incoming: &AppConfigRequest) -> (r: AppSettingsMap)
    ensures
        r@ == merged(existing@, *incoming),
{
    let mut out: AppSettingsMap = existing.copy();
    change(&mut out, "BOT_TOKEN", &incoming.bot_token);
    change(&mut out, "CHANNEL_NAME", &incoming.channel_name);
    change(&mut out, "BASE_URL", &incoming.base_url);
    change(&mut out, "PICGO_API_KEY", &incoming.picgo_api_key);
    out
}

/// A request that is sent twice changes no more than one that is sent once.
pub proof fn merging_twice_changes_nothing(
    m: Map<Seq<char>, Option<Seq<char>>>,
    incoming: AppConfigRequest,
)
    ensures
        merged(merged(m, incoming), incoming) == merged(m, incoming),
{
    assert(merged(merged(m, incoming), incoming) =~= merged(m, incoming));
}

/// A setting that a request does not mention keeps its value.
pub proof fn unmentioned_settings_stay(
    m: Map<Seq<char>, Option<Seq<char>>>,
    incoming: AppConfigRequest,
    name: Seq<char>,
)
    requires
        name == "BOT_TOKEN"@ ==> incoming.bot_token is None,
        name == "CHANNEL_NAME"@ ==> incoming.channel_name is None,
        name == "BASE_URL"@ ==> incoming.base_url is None,
        name == "PICGO_API_KEY"@ ==> incoming.picgo_api_key is None,
    ensures
        setting(merged(m, incoming), name) == setting(m, name),
        merged(m, incoming).dom().contains(name) == m.dom().contains(name),
{
}

/// What is stored of settings that passed the check passes it again when it
/// is read back.
pub proof fn stored_settings_pass_again(m: Map<Seq<char>, Option<Seq<char>>>, row: SettingsRow)
    requires
        row_of(m, row),
    ensures
        config_refusal(settings_of(row)) == config_refusal(m),
{
    saved_settings_read_back(m, row);
    lemma_tidy_stored(setting(m, "BOT_TOKEN"@));
    lemma_tidy_stored(setting(m, "CHANNEL_NAME"@));
    lemma_tidy_stored(setting(m, "BASE_URL"@));
}

proof fn lemma_tidy_stored(v: Option<Seq<char>>)
    ensures
        trimmed(or_empty(not_blank(v))) == trimmed(or_empty(v)),
{
    match v {
        Some(s) => {
            lemma_trimmed(s);
            if trimmed(s).len() == 0 {
                assert(trimmed(s) =~= Seq::<char>::empty());
            }
        },
        None => {},
    }
}

/// What to store for a change of settings: the row, and the settings that it
/// holds. The settings that were stored count as none if they could not be
/// read.
pub fn save_config(existing: Option<&AppSettingsMap>, payload: &AppConfigRequest) -> (r: Result<
    SettingsRow,
    HttpError,
>)
    ensures
        ({
            let m = merged(
                match existing {
                    Some(e) => e@,
                    None => Map::<Seq<char>, Option<Seq<char>>>::empty(),
                },
                *payload,
            );
            match config_refusal(m) {
                Some(x) => r matches Err(e) && e@ == x,
                None => r matches Ok(row) && row_of(m, row),
            }
        }),
        is_saved(
            match existing {
                Some(e) => e@,
                None => Map::<Seq<char>, Option<Seq<char>>>::empty(),
            },
            *payload,
            r,
        ),
{
    let none: AppSettingsMap = AppSettingsMap::new();
    let merged_settings: AppSettingsMap = match existing {
        Some(e) => merge_config(e, payload),
        None => merge_config(&none, payload),
    };
    match validate_config(&merged_settings) {
        Ok(()) => Ok(save_app_settings_to_db(&merged_settings)),
        Err(e) => Err(e),
    }
}

/// The answer to a change of settings, by whether it was stored and whether
/// it was also to be applied.
pub fn save_answer(stored: bool, applied: bool) -> (r: Result<String, HttpError>)
    ensures
        if !stored {
            r matches Err(e) && e@ == refusal(500, "保存配置失败"@, "save_error"@)
        } else if applied {
            r matches Ok(m) && m@ == "已保存并应用"@
        } else {
            r matches Ok(m) && m@ == "已保存（未应用）"@
        },
{
    if !stored {
        Err(http_error(500, "保存配置失败", "save_error"))
    } else if applied {
        Ok(String::from_str("已保存并应用"))
    } else {
        Ok(String::from_str("已保存（未应用）"))
    }
}

/// The answer to a reset of the settings, and the cookie that it sets: who
/// resets the settings is logged out.
pub fn reset_config() -> (r: (String, String))
    ensures
        r.0@ == "配置已重置"@,
        r.1@ == COOKIE_NAME@ + "=; HttpOnly; SameSite=Strict; Path=/; Max-Age=0"@,
{
    (String::from_str("配置已重置"), build_clear_cookie())
}

/// The settings as the settings page shows them. Secrets are not shown, only
/// whether they are set.
#[derive(Debug)]
pub struct AppConfigView {
    pub bot_token_set: bool,
    pub channel_name: String,
    pub base_url: String,
    pub picgo_api_key_set: bool,
    pub oidc_configured: bool,
    pub oidc_issuer_url: String,
    pub oidc_client_id: String,
}

/// The settings as the settings page shows them.
pub fn get_app_config(settings: &AppSettingsMap, oidc: &OidcSettings) -> (r: AppConfigView)
    ensures
        r.bot_token_set == (or_empty(setting(settings@, "BOT_TOKEN"@)).len() > 0),
        r.channel_name@ == or_empty(setting(settings@, "CHANNEL_NAME"@)),
        r.base_url@ == or_empty(setting(settings@, "BASE_URL"@)),
        r.picgo_api_key_set == (or_empty(setting(settings@, "PICGO_API_KEY"@)).len() > 0),
        r.oidc_configured == oidc.configured(),
        r.oidc_issuer_url@ == or_empty(opt_view(oidc.issuer_url)),
        r.oidc_client_id@ == or_empty(opt_view(oidc.client_id)),
        tells(settings@, *oidc, r),
{
    AppConfigView {
        bot_token_set: !settings.text("BOT_TOKEN").as_str().is_empty(),
        channel_name: settings.text("CHANNEL_NAME"),
        base_url: settings.text("BASE_URL"),
        picgo_api_key_set: !settings.text("PICGO_API_KEY").as_str().is_empty(),
        oidc_configured: oidc.is_configured(),
        oidc_issuer_url: text_or_empty(&oidc.issuer_url),
        oidc_client_id: text_or_empty(&oidc.client_id),
    }
}

/// What a trial of the settings showed: whether they work, the name of the
/// bot where it was asked for, and a message where they do not.
#[derive(Debug)]
pub struct Verdict {
    pub available: bool,
    pub username: Option<String>,
    pub message: Option<String>,
}

/// The contents of a `Verdict`.
pub struct VerdictView {
    pub available: bool,
    pub username: Option<Seq<char>>,
    pub message: Option<Seq<char>>,
}

impl View for Verdict {
    type V = VerdictView;

    open spec fn view(&self) -> VerdictView {
        VerdictView {
            available: self.available,
            username: opt_view(self.username),
            message: opt_view(self.message),
        }
    }
}

/// The settings do not work.
pub open spec fn unavailable(message: Seq<char>) -> VerdictView {
    VerdictView { available: false, username: None, message: Some(message) }
}

fn not_available(message: &str) -> (r: Verdict)
    ensures
        r@ == unavailable(message@),
{
    Verdict { available: false, username: None, message: Some(String::from_str(message)) }
}

/// What Telegram says is wrong.
pub open spec fn complaint(description: Option<Seq<char>>) -> Seq<char> {
    match description {
        Some(d) => d,
        None => "Unknown error"@,
    }
}

fn complaint_of(description: &Option<String>) -> (r: String)
    ensures
        r@ == complaint(opt_view(*description)),
{
    match description {
        Some(d) => String::from_str(d.as_str()),
        None => String::from_str("Unknown error"),
    }
}

/// A value of the request, else the one in force, else nothing.
pub open spec fn trial_value(
    given: Option<Seq<char>>,
    m: Map<Seq<char>, Option<Seq<char>>>,
    name: Seq<char>,
) -> Seq<char> {
    or_empty(first_of(given, setting(m, name)))
}

fn trial(given: &Option<String>, settings: &AppSettingsMap, name: &str) -> (r: String)
    ensures
        r@ == trial_value(opt_view(*given), settings@, name@),
{
    match given {
        Some(s) => String::from_str(s.as_str()),
        None => settings.text(name),
    }
}

/// How long a trial waits for Telegram, in seconds.
pub const VERIFY_TIMEOUT_SECS: u64 = 10;

/// A bot that is tried out: what to get from Telegram, and how long to wait
/// for it.
#[derive(Debug)]
pub struct BotTrial {
    pub url: String,
    pub timeout_secs: u64,
}

/// Asks about a bot; a verdict right away if there is no token.
pub fn verify_bot(payload: &VerifyRequest, settings: &AppSettingsMap) -> (r: Result<
    BotTrial,
    Verdict,
>)
    ensures
        ({
            let token = trial_value(opt_view(payload.bot_token), settings@, "BOT_TOKEN"@);
            if token.len() == 0 {
                r matches Err(v) && v@ == unavailable("未提供 BOT_TOKEN"@)
            } else {
                r matches Ok(t) && t.url@ == method_url(token, "getMe"@) && t.timeout_secs
                    == VERIFY_TIMEOUT_SECS
            }
        }),
{
    let token: String = trial(&payload.bot_token, settings, "BOT_TOKEN");
    if token.as_str().is_empty() {
        Err(not_available("未提供 BOT_TOKEN"))
    } else {
        Ok(
            BotTrial {
                url: method_url_of(token.as_str(), "getMe"),
                timeout_secs: VERIFY_TIMEOUT_SECS,
            },
        )
    }
}

/// The verdict on a bot, by the fields of the answer.
pub open spec fn bot_view(
    ok: Option<bool>,
    username: Option<Seq<char>>,
    description: Option<Seq<char>>,
) -> VerdictView {
    if ok == Some(true) {
        VerdictView {
            available: true,
            username: Some(
                match username {
                    Some(u) => u,
                    None => "unknown"@,
                },
            ),
            message: None,
        }
    } else {
        unavailable(complaint(description))
    }
}

fn is_true(ok: Option<bool>) -> (r: bool)
    ensures
        r == (ok == Some(true)),
{
    match ok {
        Some(b) => b,
        None => false,
    }
}

/// The verdict on a bot, by the fields of the answer.
pub fn bot_fields_verdict(
    ok: Option<bool>,
    username: &Option<String>,
    description: &Option<String>,
) -> (r: Verdict)
    ensures
        r@ == bot_view(ok, opt_view(*username), opt_view(*description)),
{
    if is_true(ok) {
        let name: String = match username {
            Some(u) => String::from_str(u.as_str()),
            None => String::from_str("unknown"),
        };
        Verdict { available: true, username: Some(name), message: None }
    } else {
        not_available(complaint_of(description).as_str())
    }
}

/// The verdict on a bot, by the answer of Telegram.
pub fn bot_verdict(answer: Exchange<Vec<u8>>) -> (r: Verdict)
    ensures
        r@ == match answer {
            Exchange::Failed(_) => unavailable("连接失败"@),
            Exchange::Unreadable(_) => unavailable("解析响应失败"@),
            Exchange::Answer(body) => match json_fields(body@) {
                Some(f) => bot_view(f.0, f.2, f.1),
                None => unavailable("解析响应失败"@),
            },
        },
        r@ == bot_answer(answer),
{
    match answer {
        Exchange::Failed(_) => not_available("连接失败"),
        Exchange::Unreadable(_) => not_available("解析响应失败"),
        Exchange::Answer(body) => match json_reply(&body) {
            Some(f) => bot_fields_verdict(f.ok, &f.username, &f.description),
            None => not_available("解析响应失败"),
        },
    }
}

/// A channel that is tried out with a bot.
#[derive(Debug)]
pub struct ChannelTrial {
    pub token: String,
    pub channel: String,
    /// The request that posts a message in the channel.
    pub request: ApiRequest,
}

/// The request that posts a message in a channel to try it out.
pub open spec fn trial_request(token: Seq<char>, channel: Seq<char>) -> ApiRequestView {
    ApiRequestView {
        url: method_url(token, "sendMessage"@),
        params: seq![
            ("chat_id"@, ParamView::Text(channel)),
            ("text"@, ParamView::Text("tgState channel check"@)),
        ],
        timeout_secs: Some(VERIFY_TIMEOUT_SECS),
    }
}

/// The trial of a channel; a verdict right away if token or channel are
/// missing.
pub fn verify_channel(payload: &VerifyRequest, settings: &AppSettingsMap) -> (r: Result<
    ChannelTrial,
    Verdict,
>)
    ensures
        ({
            let token = trial_value(opt_view(payload.bot_token), settings@, "BOT_TOKEN"@);
            let channel = trial_value(opt_view(payload.channel_name), settings@, "CHANNEL_NAME"@);
            if token.len() == 0 || channel.len() == 0 {
                r matches Err(v) && v@ == unavailable("缺少 BOT_TOKEN 或 CHANNEL_NAME"@)
            } else {
                r matches Ok(t) && t.token@ == token && t.channel@ == channel && t.request@
                    == trial_request(token, channel)
            }
        }),
{
    let token: String = trial(&payload.bot_token, settings, "BOT_TOKEN");
    let channel: String = trial(&payload.channel_name, settings, "CHANNEL_NAME");
    if token.as_str().is_empty() || channel.as_str().is_empty() {
        return Err(not_available("缺少 BOT_TOKEN 或 CHANNEL_NAME"));
    }
    let request: ApiRequest = ApiRequest {
        url: method_url_of(token.as_str(), "sendMessage"),
        params: vec![
            text_param("chat_id", channel.as_str()),
            text_param("text", "tgState channel check"),
        ],
        timeout_secs: Some(VERIFY_TIMEOUT_SECS),
    };
    proof {
        assert(request@.params =~= trial_request(token@, channel@).params);
    }
    Ok(ChannelTrial { token, channel, request })
}

impl ChannelTrial {
    /// The verdict on a channel, by the fields of the answer, and the request
    /// that takes the message back.
    pub open spec fn outcome(
        &self,
        ok: Option<bool>,
        message_id: Option<i64>,
        description: Option<Seq<char>>,
    ) -> (VerdictView, Option<ApiRequestView>) {
        if ok == Some(true) {
            (
                VerdictView { available: true, username: None, message: None },
                match message_id {
                    Some(m) => Some(
                        delete_request(self.token@, self.channel@, m, Some(VERIFY_TIMEOUT_SECS)),
                    ),
                    None => None,
                },
            )
        } else {
            (unavailable(complaint(description)), None)
        }
    }

    /// The verdict on the channel, by the fields of the answer, and the
    /// request that takes the message back.
    pub fn fields_verdict(
        &self,
        ok: Option<bool>,
        message_id: Option<i64>,
        description: &Option<String>,
    ) -> (r: (Verdict, Option<ApiRequest>))
        ensures
            (r.0@, request_view(r.1)) == self.outcome(ok, message_id, opt_view(*description)),
    {
        if is_true(ok) {
            let cleanup: Option<ApiRequest> = match message_id {
                Some(m) => Some(
                    delete_request_for(
                        self.token.as_str(),
                        self.channel.as_str(),
                        m,
                        Some(VERIFY_TIMEOUT_SECS),
                    ),
                ),
                None => None,
            };
            (Verdict { available: true, username: None, message: None }, cleanup)
        } else {
            (not_available(complaint_of(description).as_str()), None)
        }
    }

    /// The verdict on the channel, by what happened to the request.
    pub open spec fn answered(&self, answer: Exchange<Vec<u8>>) -> (
        VerdictView,
        Option<ApiRequestView>,
    ) {
        match answer {
            Exchange::Failed(_) => (unavailable("连接失败"@), None),
            Exchange::Unreadable(_) => (unavailable("解析响应失败"@), None),
            Exchange::Answer(body) => match json_fields(body@) {
                Some(f) => self.outcome(f.0, f.3, f.1),
                None => (unavailable("解析响应失败"@), None),
            },
        }
    }

    /// The verdict on the channel, by the answer of Telegram, and the request
    /// that takes the message back.
    pub fn verdict(&self, answer: Exchange<Vec<u8>>) -> (r: (Verdict, Option<ApiRequest>))
        ensures
            (r.0@, request_view(r.1)) == match answer {
                Exchange::Failed(_) => (unavailable("连接失败"@), None),
                Exchange::Unreadable(_) => (unavailable("解析响应失败"@), None),
                Exchange::Answer(body) => match json_fields(body@) {
                    Some(f) => self.outcome(f.0, f.3, f.1),
                    None => (unavailable("解析响应失败"@), None),
                },
            },
            (r.0@, request_view(r.1)) == self.answered(answer),
    {
        match answer {
            Exchange::Failed(_) => (not_available("连接失败"), None),
            Exchange::Unreadable(_) => (not_available("解析响应失败"), None),
            Exchange::Answer(body) => match json_reply(&body) {
                Some(f) => self.fields_verdict(f.ok, f.message_id, &f.description),
                None => (not_available("解析响应失败"), None),
            },
        }
    }
}

/// What an optional request asks.
pub open spec fn request_view(r: Option<ApiRequest>) -> Option<ApiRequestView> {
    match r {
        Some(q) => Some(q@),
        None => None,
    }
}

proof fn lemma_holds_colon(t: Seq<char>)
    ensures
        holds(t, ":"@) <==> t.contains(':'),
{
    reveal_strlit(":");
    assert(":"@ =~= seq![':']);
    if holds(t, ":"@) {
        let i = choose|i: int| occurs_at(t, ":"@, i);
        assert(t.subrange(i, i + 1)[0] == t[i]);
        assert(t[i] == ':');
    }
    if t.contains(':') {
        let i = choose|i: int| 0 <= i < t.len() && t[i] == ':';
        assert(t.subrange(i, i + 1) =~= ":"@);
        assert(occurs_at(t, ":"@, i));
    }
}

/// Settings are refused for their form alone: a token that is not blank needs
/// a colon and at least twenty bytes, whatever else it is; a channel begins
/// with `@` or with `-100`; an address begins with `http://` or `https://`. A
/// setting without a value is always right. The first that is wrong is named.
pub proof fn settings_are_refused_for_their_form(m: Map<Seq<char>, Option<Seq<char>>>)
    ensures
        ({
            let t = trimmed(or_empty(setting(m, "BOT_TOKEN"@)));
            let c = trimmed(or_empty(setting(m, "CHANNEL_NAME"@)));
            let u = trimmed(or_empty(setting(m, "BASE_URL"@)));
            let token_ok = t.len() == 0 || (t.contains(':') && encode_utf8(t).len() >= 20);
            let channel_ok = c.len() == 0 || c[0] == '@' || (c.len() >= 4 && c.take(4) == seq![
                '-',
                '1',
                '0',
                '0',
            ]);
            let url_ok = u.len() == 0 || (exists|rest: Seq<char>|
                u == #[trigger] ("http://"@ + rest)) || (exists|rest: Seq<char>|
                u == #[trigger] ("https://"@ + rest));
            &&& config_refusal(m) is None <==> token_ok && channel_ok && url_ok
            &&& config_refusal(m) matches Some(e) ==> e.status == 400 && e.code == (if !token_ok {
                "invalid_bot_token"@
            } else if !channel_ok {
                "invalid_channel"@
            } else {
                "invalid_base_url"@
            })
        }),
{
    let t = trimmed(or_empty(setting(m, "BOT_TOKEN"@)));
    let c = trimmed(or_empty(setting(m, "CHANNEL_NAME"@)));
    let u = trimmed(or_empty(setting(m, "BASE_URL"@)));
    lemma_holds_colon(t);
    reveal_strlit("@");
    reveal_strlit("-100");
    assert("@"@ =~= seq!['@']);
    assert("-100"@ =~= seq!['-', '1', '0', '0']);
    if c.len() > 0 {
        assert(c.subrange(0, 1) =~= seq![c[0]]);
        assert(begins(c, "@"@) <==> c[0] == '@') by {
            if begins(c, "@"@) {
                assert(c.subrange(0, 1)[0] == '@');
            }
        }
        if c.len() >= 4 {
            assert(c.subrange(0, 4) =~= c.take(4));
        }
    }
    beginnings_are_in_front(u, "http://"@);
    beginnings_are_in_front(u, "https://"@);
}

/// A token as Telegram gives them out is accepted, however long: with white
/// space around it or not, if the channel and the address are right, the
/// settings that hold it pass the check.
pub proof fn tokens_of_any_length_pass(m: Map<Seq<char>, Option<Seq<char>>>, token: Seq<char>)
    requires
        token.contains(':'),
        encode_utf8(token).len() >= 20,
        trimmed(token) == token,
        config_refusal(m.insert("BOT_TOKEN"@, None)) is None,
    ensures
        config_refusal(m.insert("BOT_TOKEN"@, Some(token))) is None,
{
    let n = m.insert("BOT_TOKEN"@, None);
    let y = m.insert("BOT_TOKEN"@, Some(token));
    crate::database::lemma_setting_names();
    settings_are_refused_for_their_form(n);
    settings_are_refused_for_their_form(y);
    assert(setting(y, "CHANNEL_NAME"@) == setting(n, "CHANNEL_NAME"@));
    assert(setting(y, "BASE_URL"@) == setting(n, "BASE_URL"@));
}

/// A setting that a request mentions gets the value of the request, without
/// the white space around it; one that is white space alone removes it.
pub proof fn mentioned_settings_change(
    m: Map<Seq<char>, Option<Seq<char>>>,
    incoming: AppConfigRequest,
    name: Seq<char>,
    value: String,
)
    requires
        (name == "BOT_TOKEN"@ && incoming.bot_token == Some(value)) || (name == "CHANNEL_NAME"@
            && incoming.channel_name == Some(value)) || (name == "BASE_URL"@ && incoming.base_url
            == Some(value)) || (name == "PICGO_API_KEY"@ && incoming.picgo_api_key == Some(value)),
    ensures
        all_space(value@) ==> setting(merged(m, incoming), name) is None,
        !all_space(value@) ==> setting(merged(m, incoming), name) == Some(trimmed(value@)),
{
    crate::database::lemma_setting_names();
    trimming_cuts_white_space_alone(value@);
}

/// A trial takes the value of the request, even an empty one; without one it
/// takes the setting in force, or nothing.
pub proof fn trials_prefer_the_request(
    given: Option<Seq<char>>,
    m: Map<Seq<char>, Option<Seq<char>>>,
    name: Seq<char>,
)
    ensures
        given matches Some(g) ==> trial_value(given, m, name) == g,
        given is None && m.dom().contains(name) && m[name] is Some ==> trial_value(given, m, name)
            == m[name]->0,
        given is None && !(m.dom().contains(name) && m[name] is Some) ==> trial_value(
            given,
            m,
            name,
        ).len() == 0,
{
}

/// A bot works if and only if Telegram says so; it is shown under the name
/// that Telegram gives, and where it does not work Telegram's own words say
/// why.
pub proof fn bots_work_by_word_of_telegram(
    ok: Option<bool>,
    username: Option<Seq<char>>,
    description: Option<Seq<char>>,
)
    ensures
        bot_view(ok, username, description).available <==> ok == Some(true),
        ok == Some(true) && username is Some ==> bot_view(ok, username, description).username
            == username,
        ok == Some(true) ==> bot_view(ok, username, description).message is None,
        ok != Some(true) && description is Some ==> bot_view(ok, username, description).message
            == description,
        ok != Some(true) ==> bot_view(ok, username, description).message is Some
            && bot_view(ok, username, description).username is None,
{
}

/// A channel works if and only if Telegram posted the message, and then that
/// very message is taken back, where its number is known.
pub proof fn channels_work_by_word_of_telegram(
    t: ChannelTrial,
    ok: Option<bool>,
    message_id: Option<i64>,
    description: Option<Seq<char>>,
)
    ensures
        t.outcome(ok, message_id, description).0.available <==> ok == Some(true),
        t.outcome(ok, message_id, description).1 is Some <==> ok == Some(true) && message_id
            is Some,
        t.outcome(ok, message_id, description).1 is Some ==> t.outcome(
            ok,
            message_id,
            description,
        ).1->0.params == seq![
            ("chat_id"@, ParamView::Text(t.channel@)),
            ("message_id"@, ParamView::Number(message_id->0)),
        ],
        ok != Some(true) && description is Some ==> t.outcome(
            ok,
            message_id,
            description,
        ).0.message == description,
{
}

/// The trial of a channel posts one text in that channel, with that bot.
pub proof fn trials_post_in_the_channel(token: Seq<char>, channel: Seq<char>)
    ensures
        trial_request(token, channel).url == "https://api.telegram.org/bot"@ + token + "/"@
            + "sendMessage"@,
        trial_request(token, channel).params.contains(("chat_id"@, ParamView::Text(channel))),
        trial_request(token, channel).params.len() == 2,
        trial_request(token, channel).timeout_secs == Some(10u64),
{
    assert(trial_request(token, channel).params[0] == ("chat_id"@, ParamView::Text(channel)));
}

/// What is not said is made up: a bot without a name is unknown, and so is an
/// error without a description.
pub proof fn unknown_bots_and_errors(
    t: ChannelTrial,
    ok: Option<bool>,
    username: Option<Seq<char>>,
    description: Option<Seq<char>>,
    message_id: Option<i64>,
)
    ensures
        ok == Some(true) && username is None ==> bot_view(ok, username, description).username
            == Some("unknown"@),
        ok != Some(true) && description is None ==> bot_view(ok, username, description).message
            == Some("Unknown error"@),
        ok != Some(true) && description is None ==> t.outcome(
            ok,
            message_id,
            description,
        ).0.message == Some("Unknown error"@),
        ok == Some(true) ==> t.outcome(ok, message_id, description).0.message is None,
        t.outcome(ok, message_id, description).0.username is None,
        t.outcome(ok, message_id, description).1 matches Some(q) ==> q.url
            == "https://api.telegram.org/bot"@ + t.token@ + "/"@ + "deleteMessage"@
            && q.timeout_secs == Some(10u64),
        trial_request(t.token@, t.channel@).params.contains(
            ("text"@, ParamView::Text("tgState channel check"@)),
        ),
{
    let ps = trial_request(t.token@, t.channel@).params;
    assert(ps[1] == ("text"@, ParamView::Text("tgState channel check"@)));
}

/// A refusal says which setting has the wrong form, the first one first.
pub proof fn refusals_name_the_setting(m: Map<Seq<char>, Option<Seq<char>>>)
    ensures
        config_refusal(m) matches Some(e) ==> {
            &&& e.code == "invalid_bot_token"@ ==> e.message == "BOT_TOKEN 格式不正确"@
            &&& e.code == "invalid_channel"@ ==> e.message
                == "CHANNEL_NAME 格式不正确（@username 或 -100...）"@
            &&& e.code == "invalid_base_url"@ ==> e.message
                == "BASE_URL 必须以 http:// 或 https:// 开头"@
        },
{
    reveal_strlit("invalid_bot_token");
    reveal_strlit("invalid_channel");
    reveal_strlit("invalid_base_url");
    assert("invalid_bot_token"@[9] == 'o');
    assert("invalid_channel"@[9] == 'h');
    assert("invalid_base_url"@[9] == 'a');
}

/// The verdict on a bot, by what happened to the request.
pub open spec fn bot_answer(answer: Exchange<Vec<u8>>) -> VerdictView {
    match answer {
        Exchange::Failed(_) => unavailable("连接失败"@),
        Exchange::Unreadable(_) => unavailable("解析响应失败"@),
        Exchange::Answer(body) => match json_fields(body@) {
            Some(f) => bot_view(f.0, f.2, f.1),
            None => unavailable("解析响应失败"@),
        },
    }
}

/// A trial that gets no answer, or none that can be read, fails and says which
/// of the two; one that is answered goes by the word of Telegram, and a
/// message is taken back only if one was posted.
pub proof fn trials_go_by_their_answer(t: ChannelTrial, answer: Exchange<Vec<u8>>)
    ensures
        bot_answer(answer).available <==> (answer matches Exchange::Answer(b) && (json_fields(
            b@,
        ) matches Some(f) && f.0 == Some(true))),
        t.answered(answer).0.available <==> bot_answer(answer).available,
        t.answered(answer).1 is Some <==> bot_answer(answer).available && (json_fields(
            answer->Answer_0@,
        )->0).3 is Some,
        t.answered(answer).1 matches Some(q) ==> q.params == seq![
            ("chat_id"@, ParamView::Text(t.channel@)),
            ("message_id"@, ParamView::Number((json_fields(answer->Answer_0@)->0).3->0)),
        ],
        answer is Failed ==> bot_answer(answer).message == Some("连接失败"@) && t.answered(
            answer,
        ).0.message == Some("连接失败"@),
        answer is Unreadable || (answer matches Exchange::Answer(b) && json_fields(b@) is None)
            ==> bot_answer(answer).message == Some("解析响应失败"@) && t.answered(answer).0.message
            == Some("解析响应失败"@),
        answer matches Exchange::Answer(b) && (json_fields(b@) matches Some(f) && f.0 == Some(true)
            && f.2 is Some) ==> bot_answer(answer).username == (json_fields(answer->Answer_0@)->0).2,
        answer matches Exchange::Answer(b) && (json_fields(b@) matches Some(f) && f.0 != Some(true)
            && f.1 is Some) ==> bot_answer(answer).message == (json_fields(answer->Answer_0@)->0).1
            && t.answered(answer).0.message == (json_fields(answer->Answer_0@)->0).1,
{
    if answer is Answer && json_fields(answer->Answer_0@) is Some {
        let f = json_fields(answer->Answer_0@)->0;
        bots_work_by_word_of_telegram(f.0, f.2, f.1);
        channels_work_by_word_of_telegram(t, f.0, f.3, f.1);
    }
}

/// `r` is the row of settings that a change of the stored ones makes, or why
/// it is refused.
pub open spec fn is_saved(
    stored: Map<Seq<char>, Option<Seq<char>>>,
    payload: AppConfigRequest,
    r: Result<SettingsRow, HttpError>,
) -> bool {
    match config_refusal(merged(stored, payload)) {
        Some(x) => r matches Err(e) && e@ == x,
        None => r matches Ok(row) && row_of(merged(stored, payload), row),
    }
}

/// The column holds what was given, without the white space around it, or
/// else what was stored; what is blank is stored as none.
pub open spec fn given_or_kept(
    given: Option<String>,
    kept: Option<Seq<char>>,
    column: Option<String>,
) -> bool {
    column_is(
        if given is Some {
            Some(given->0@)
        } else {
            kept
        },
        column,
    )
}

/// A change of the settings stores what it names and keeps the rest, each in
/// its own column, unless the settings that it makes are refused.
pub proof fn changes_are_stored(
    stored: Map<Seq<char>, Option<Seq<char>>>,
    payload: AppConfigRequest,
    r: Result<SettingsRow, HttpError>,
)
    requires
        is_saved(stored, payload, r),
    ensures
        r is Ok <==> config_refusal(merged(stored, payload)) is None,
        r matches Err(e) ==> Some(e@) == config_refusal(merged(stored, payload)),
        r matches Ok(row) ==> {
            &&& given_or_kept(payload.bot_token, setting(stored, "BOT_TOKEN"@), row.bot_token)
            &&& given_or_kept(
                payload.channel_name,
                setting(stored, "CHANNEL_NAME"@),
                row.channel_name,
            )
            &&& given_or_kept(payload.base_url, setting(stored, "BASE_URL"@), row.base_url)
            &&& given_or_kept(
                payload.picgo_api_key,
                setting(stored, "PICGO_API_KEY"@),
                row.picgo_api_key,
            )
        },
{
    if let Ok(row) = r {
        columns_are_their_settings(merged(stored, payload), row);
        lemma_change_is_stored(stored, payload, "BOT_TOKEN"@, payload.bot_token, row.bot_token);
        lemma_change_is_stored(
            stored,
            payload,
            "CHANNEL_NAME"@,
            payload.channel_name,
            row.channel_name,
        );
        lemma_change_is_stored(stored, payload, "BASE_URL"@, payload.base_url, row.base_url);
        lemma_change_is_stored(
            stored,
            payload,
            "PICGO_API_KEY"@,
            payload.picgo_api_key,
            row.picgo_api_key,
        );
    }
}

proof fn lemma_change_is_stored(
    stored: Map<Seq<char>, Option<Seq<char>>>,
    payload: AppConfigRequest,
    name: Seq<char>,
    given: Option<String>,
    column: Option<String>,
)
    requires
        (name == "BOT_TOKEN"@ && given == payload.bot_token) || (name == "CHANNEL_NAME"@ && given
            == payload.channel_name) || (name == "BASE_URL"@ && given == payload.base_url) || (name
            == "PICGO_API_KEY"@ && given == payload.picgo_api_key),
        column_is(setting(merged(stored, payload), name), column),
    ensures
        given_or_kept(given, setting(stored, name), column),
{
    lemma_setting_names();
    if let Some(value) = given {
        mentioned_settings_change(stored, payload, name, value);
        lemma_trimmed(value@);
        trimming_cuts_white_space_alone(value@);
        trimming_cuts_white_space_alone(trimmed(value@));
    } else {
        unmentioned_settings_stay(stored, payload, name);
    }
}

/// `r` is what the settings page is told of the settings.
pub open spec fn tells(
    settings: Map<Seq<char>, Option<Seq<char>>>,
    oidc: OidcSettings,
    r: AppConfigView,
) -> bool {
    &&& r.bot_token_set == (or_empty(setting(settings, "BOT_TOKEN"@)).len() > 0)
    &&& r.channel_name@ == or_empty(setting(settings, "CHANNEL_NAME"@))
    &&& r.base_url@ == or_empty(setting(settings, "BASE_URL"@))
    &&& r.picgo_api_key_set == (or_empty(setting(settings, "PICGO_API_KEY"@)).len() > 0)
    &&& r.oidc_configured == oidc.configured()
    &&& r.oidc_issuer_url@ == or_empty(opt_view(oidc.issuer_url))
    &&& r.oidc_client_id@ == or_empty(opt_view(oidc.client_id))
}

/// The settings page is told the channel and the address as they are, and of
/// the token and the key only whether there are any.
pub proof fn secrets_are_not_told(
    settings: Map<Seq<char>, Option<Seq<char>>>,
    oidc: OidcSettings,
    r: AppConfigView,
)
    requires
        tells(settings, oidc, r),
    ensures
        r.bot_token_set <==> (setting(settings, "BOT_TOKEN"@) matches Some(t) && t.len() > 0),
        r.picgo_api_key_set <==> (setting(settings, "PICGO_API_KEY"@) matches Some(k) && k.len()
            > 0),
        setting(settings, "CHANNEL_NAME"@) matches Some(c) ==> r.channel_name@ == c,
        setting(settings, "CHANNEL_NAME"@) is None ==> r.channel_name@.len() == 0,
        setting(settings, "BASE_URL"@) matches Some(u) ==> r.base_url@ == u,
        setting(settings, "BASE_URL"@) is None ==> r.base_url@.len() == 0,
        oidc.issuer_url matches Some(u) ==> r.oidc_issuer_url@ == u@,
        oidc.issuer_url is None ==> r.oidc_issuer_url@.len() == 0,
        oidc.client_id matches Some(c) ==> r.oidc_client_id@ == c@,
        oidc.client_id is None ==> r.oidc_client_id@.len() == 0,
        r.oidc_configured <==> oidc.issuer_url is Some && !all_space(oidc.issuer_url->0@)
            && oidc.client_id is Some && !all_space(oidc.client_id->0@) && oidc.client_secret
            is Some && !all_space(oidc.client_secret->0@),
{
    logins_need_all_three(oidc);
}

} // verus!

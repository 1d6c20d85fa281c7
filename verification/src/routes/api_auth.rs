//! Logging in with OpenID Connect, and out again.
//!
//! A login starts with a redirect to the provider and ends with a callback
//! from it. The functions check, build and decide; talking to the provider
//! and to the database is left to the caller, who reports how it went.
use vstd::prelude::*;
use vstd::string::*;
use vstd::utf8::*;

use crate::auth::COOKIE_NAME;
use crate::auth::CookiePolicy;
use crate::auth::OIDC_LOGIN_STATE_TTL_SECS;
use crate::auth::build_clear_cookie;
use crate::auth::build_cookie;
use crate::auth::cookie_text;
use crate::auth::generate_session_token;
use crate::auth::is_internal_path;
use crate::auth::is_local_path;
use crate::auth::is_lower_hex;
use crate::auth::logins_lead_to_local_pages;
use crate::auth::normalize_path_for_redirect;
use crate::auth::redirect_target;
use crate::config::OidcSettings;
use crate::config::Settings;
use crate::config::first_of;
use crate::database::AuthSession;
use crate::database::LoginRow;
use crate::database::LoginStateView;
use crate::database::LoginTableEvent;
use crate::database::OidcLoginState;
use crate::database::found_logins_are_open;
use crate::database::is_open_login;
use crate::database::login_found;
use crate::database::login_state_view;
use crate::database::login_table;
use crate::error::HttpError;
use crate::error::HttpErrorView;
use crate::error::http_error;
use crate::error::refusal;
use crate::middleware::auth::encoded_text_is_plain;
use crate::middleware::auth::encoded_text_is_unique;
use crate::middleware::auth::leads;
use crate::middleware::headers::HeaderField;
use crate::middleware::headers::RequestHeaders;
use crate::middleware::headers::cookie_of;
use crate::middleware::headers::extract_cookie;
use crate::middleware::headers::first_entry;
use crate::middleware::headers::first_listed;
use crate::middleware::headers::forwarded_proto;
use crate::middleware::headers::host_of;
use crate::middleware::headers::proto_of;
use crate::middleware::headers::request_host;
use crate::middleware::headers::schemes_of_clients;
use crate::outside::is_issuer_url;
use crate::outside::is_redirect_url;
use crate::outside::issuer_url_accepted;
use crate::outside::percent_bytes;
use crate::outside::percent_encode;
use crate::outside::redirect_url_accepted;
use crate::text::all_space;
use crate::text::blank;
use crate::text::contains;
use crate::text::holds;
use crate::text::is_blank;
use crate::text::is_space;
use crate::text::join;
use crate::text::join3;
use crate::text::lemma_next_char_is;
use crate::text::next_char;
use crate::text::opt_copy;
use crate::text::opt_str_view;
use crate::text::opt_view;
use crate::text::repeated;
use crate::text::same;
use crate::text::trailing_characters_go;
use crate::text::trim;
use crate::text::trim_end_matches;
use crate::text::trimmed;
use crate::text::trimming_cuts_white_space_alone;
use crate::text::trimming_gives_the_text;
use crate::text::views;
use crate::text::what_is_held_is_inside;
use crate::text::without_trailing;

verus! {

/// The client used HTTPS, as the first proxy reports it.
pub open spec fn client_used_https(headers: RequestHeaders) -> bool {
    match headers.x_forwarded_proto.value() {
        Some(v) => first_listed(v) == "https"@,
        None => false,
    }
}

/// Whether the client used HTTPS.
pub fn is_https(headers: &RequestHeaders) -> (r: bool)
    ensures
        r == client_used_https(*headers),
{
    match headers.x_forwarded_proto.text() {
        Some(v) => same(first_entry(v.as_str()).as_str(), "https"),
        None => false,
    }
}

/// The login page with an error message and its code.
pub open spec fn error_page(message: Seq<char>, code: Seq<char>) -> Seq<char> {
    "/login?error="@ + percent_bytes(encode_utf8(message)) + "&code="@ + percent_bytes(
        encode_utf8(code),
    )
}

/// The login page with an error message and its code.
pub fn redirect_error(message: &str, code: &str) -> (r: String)
    ensures
        r@ == error_page(message@, code@),
{
    let head: String = join3("/login?error=", percent_encode(message).as_str(), "&code=");
    join(head.as_str(), percent_encode(code).as_str())
}

/// The refusal where users cannot log in.
pub open spec fn not_configured() -> HttpErrorView {
    refusal(503, "OIDC 未配置"@, "oidc_not_configured"@)
}

/// How users log in, if they can.
pub fn oidc_settings(settings: &OidcSettings) -> (r: Result<OidcSettings, HttpError>)
    ensures
        if settings.configured() {
            r matches Ok(o) && opt_view(o.issuer_url) == opt_view(settings.issuer_url)
                && opt_view(o.client_id) == opt_view(settings.client_id) && opt_view(
                o.client_secret,
            ) == opt_view(settings.client_secret)
        } else {
            r matches Err(e) && e@ == not_configured()
        },
{
    if settings.is_configured() {
        Ok(settings.copy())
    } else {
        Err(http_error(503, "OIDC 未配置", "oidc_not_configured"))
    }
}

/// Where the provider sends users back to: below the public address of the
/// site. Where that is blank, below the address that the request was sent to.
pub open spec fn callback_url(base_url: Seq<char>, headers: RequestHeaders) -> Option<Seq<char>> {
    if !blank(base_url) {
        Some(without_trailing(trimmed(base_url), '/') + "/api/auth/callback"@)
    } else {
        match host_of(headers) {
            Some(h) => if holds(h, "/"@) {
                None
            } else {
                Some(proto_of(headers) + "://"@ + h + "/api/auth/callback"@)
            },
            None => None,
        }
    }
}

/// Where the provider sends users back to.
pub fn oidc_redirect_url(base_url: &str, headers: &RequestHeaders) -> (r: Result<
    String,
    HttpError,
>)
    ensures
        match callback_url(base_url@, *headers) {
            Some(u) => r matches Ok(s) && s@ == u,
            None => r matches Err(e) && e@ == refusal(
                400,
                "请求缺少 Host，无法生成 OIDC callback"@,
                "missing_host"@,
            ),
        },
{
    if !is_blank(base_url) {
        let base: String = trim_end_matches(trim(base_url).as_str(), '/');
        return Ok(join(base.as_str(), "/api/auth/callback"));
    }
    match request_host(headers) {
        Some(h) if !contains(h.as_str(), "/") => {
            let origin: String = join3(forwarded_proto(headers).as_str(), "://", h.as_str());
            Ok(join(origin.as_str(), "/api/auth/callback"))
        },
        _ => Err(http_error(400, "请求缺少 Host，无法生成 OIDC callback", "missing_host")),
    }
}

/// What the client of the provider is made of.
#[derive(Debug)]
pub struct OidcClientConfig {
    pub issuer: String,
    pub client_id: String,
    pub client_secret: Option<String>,
    pub redirect_url: String,
}

/// The contents of an `OidcClientConfig`.
pub struct OidcClientView {
    pub issuer: Seq<char>,
    pub client_id: Seq<char>,
    pub client_secret: Option<Seq<char>>,
    pub redirect_url: Seq<char>,
}

impl View for OidcClientConfig {
    type V = OidcClientView;

    open spec fn view(&self) -> OidcClientView {
        OidcClientView {
            issuer: self.issuer@,
            client_id: self.client_id@,
            client_secret: opt_view(self.client_secret),
            redirect_url: self.redirect_url@,
        }
    }
}

/// The client that complete settings make.
pub open spec fn client_view(settings: OidcSettings, redirect_url: Seq<char>) -> OidcClientView {
    OidcClientView {
        issuer: settings.issuer_url->0@,
        client_id: settings.client_id->0@,
        client_secret: opt_view(settings.client_secret),
        redirect_url,
    }
}

/// Why there is no client for the provider, if there is none; `issuer_ok`
/// says whether the issuer is an address.
pub open spec fn client_refusal(settings: OidcSettings, issuer_ok: bool) -> Option<HttpErrorView> {
    if settings.issuer_url is None {
        Some(refusal(503, "OIDC issuer 未配置"@, "oidc_not_configured"@))
    } else if settings.client_id is None {
        Some(refusal(503, "OIDC client_id 未配置"@, "oidc_not_configured"@))
    } else if !issuer_ok {
        Some(refusal(503, "OIDC issuer URL 无效"@, "oidc_invalid_config"@))
    } else {
        None
    }
}

/// `r` is the client for these settings, or why there is none.
pub open spec fn client_is(
    settings: OidcSettings,
    issuer_ok: bool,
    redirect_url: Seq<char>,
    r: Result<OidcClientConfig, HttpError>,
) -> bool {
    match client_refusal(settings, issuer_ok) {
        Some(e) => r matches Err(x) && x@ == e,
        None => r matches Ok(c) && c@ == client_view(settings, redirect_url),
    }
}

/// The client for these settings and this redirect address, if there is one.
pub open spec fn client_of(
    settings: OidcSettings,
    issuer_ok: bool,
    redirect_url: Option<Seq<char>>,
) -> Option<OidcClientView> {
    match redirect_url {
        Some(u) => if client_refusal(settings, issuer_ok) is None {
            Some(client_view(settings, u))
        } else {
            None
        },
        None => None,
    }
}

/// The issuer of the settings is an address.
pub open spec fn issuer_accepted(settings: OidcSettings) -> bool {
    match settings.issuer_url {
        Some(u) => issuer_url_accepted(u@),
        None => false,
    }
}

/// The client for these settings, given whether the issuer is an address.
pub fn client_config(settings: &OidcSettings, issuer_ok: bool, redirect_url: String) -> (r: Result<
    OidcClientConfig,
    HttpError,
>)
    ensures
        client_is(*settings, issuer_ok, redirect_url@, r),
{
    let issuer: String = match &settings.issuer_url {
        Some(u) => String::from_str(u.as_str()),
        None => return Err(http_error(503, "OIDC issuer 未配置", "oidc_not_configured")),
    };
    let client_id: String = match &settings.client_id {
        Some(c) => String::from_str(c.as_str()),
        None => return Err(http_error(503, "OIDC client_id 未配置", "oidc_not_configured")),
    };
    if !issuer_ok {
        return Err(http_error(503, "OIDC issuer URL 无效", "oidc_invalid_config"));
    }
    Ok(
        OidcClientConfig {
            issuer,
            client_id,
            client_secret: opt_copy(&settings.client_secret),
            redirect_url,
        },
    )
}

/// Whether the issuer of the settings is an address.
pub fn issuer_is_url(settings: &OidcSettings) -> (r: bool)
    ensures
        r == issuer_accepted(*settings),
{
    match &settings.issuer_url {
        Some(u) => is_issuer_url(u.as_str()),
        None => false,
    }
}

/// The client for these settings, before its provider is asked anything.
pub fn oidc_client(settings: &OidcSettings, redirect_url: String) -> (r: Result<
    OidcClientConfig,
    HttpError,
>)
    ensures
        client_is(*settings, issuer_accepted(*settings), redirect_url@, r),
{
    client_config(settings, issuer_is_url(settings), redirect_url)
}

/// Why a client is of no use, if it is not: its provider could not be
/// discovered, or its redirect address is none.
pub open spec fn discovery_refusal(discovered: bool, redirect_ok: bool) -> Option<HttpErrorView> {
    if !discovered {
        Some(refusal(502, "OIDC discovery 失败"@, "oidc_discovery_failed"@))
    } else if !redirect_ok {
        Some(refusal(503, "OIDC redirect URL 无效"@, "oidc_invalid_config"@))
    } else {
        None
    }
}

/// Whether a client is of use, given whether its provider was discovered and
/// whether its redirect address is one.
pub fn client_ready(discovered: bool, redirect_ok: bool) -> (r: Result<(), HttpError>)
    ensures
        match discovery_refusal(discovered, redirect_ok) {
            Some(e) => r matches Err(x) && x@ == e,
            None => r is Ok,
        },
{
    if !discovered {
        Err(http_error(502, "OIDC discovery 失败", "oidc_discovery_failed"))
    } else if !redirect_ok {
        Err(http_error(503, "OIDC redirect URL 无效", "oidc_invalid_config"))
    } else {
        Ok(())
    }
}

impl OidcClientConfig {
    /// Whether the client is of use once its provider was asked.
    pub fn discovered(&self, discovered: bool) -> (r: Result<(), HttpError>)
        ensures
            match discovery_refusal(discovered, redirect_url_accepted(self.redirect_url@)) {
                Some(e) => r matches Err(x) && x@ == e,
                None => r is Ok,
            },
    {
        client_ready(discovered, is_redirect_url(self.redirect_url.as_str()))
    }
}

/// A user, as the provider describes them.
#[derive(Debug)]
pub struct OidcUser {
    pub subject: String,
    pub username: Option<String>,
    pub email: Option<String>,
    pub groups: Vec<String>,
}

/// The contents of an `OidcUser`.
#[verifier::ext_equal]
pub struct OidcUserView {
    pub subject: Seq<char>,
    pub username: Option<Seq<char>>,
    pub email: Option<Seq<char>>,
    pub groups: Seq<Seq<char>>,
}

impl View for OidcUser {
    type V = OidcUserView;

    open spec fn view(&self) -> OidcUserView {
        OidcUserView {
            subject: self.subject@,
            username: opt_view(self.username),
            email: opt_view(self.email),
            groups: views(self.groups@),
        }
    }
}

/// What an ID token claims.
#[derive(Debug)]
pub struct IdTokenClaims {
    pub subject: String,
    pub preferred_username: Option<String>,
    pub name: Option<String>,
    pub email: Option<String>,
}

/// What the provider adds about a user.
#[derive(Debug)]
pub struct UserInfo {
    pub preferred_username: Option<String>,
    pub name: Option<String>,
    pub email: Option<String>,
    pub groups: Vec<String>,
}

/// The user that an ID token names: by the preferred user name, else by the
/// name.
pub open spec fn claimed_user(claims: IdTokenClaims) -> OidcUserView {
    OidcUserView {
        subject: claims.subject@,
        username: first_of(opt_view(claims.preferred_username), opt_view(claims.name)),
        email: opt_view(claims.email),
        groups: Seq::empty(),
    }
}

/// The user that an ID token names.
pub fn user_from_id_token_claims(claims: IdTokenClaims) -> (r: OidcUser)
    ensures
        r@ == claimed_user(claims),
{
    let username: Option<String> = match claims.preferred_username {
        Some(u) => Some(u),
        None => claims.name,
    };
    let r: OidcUser = OidcUser {
        subject: claims.subject,
        username,
        email: claims.email,
        groups: Vec::new(),
    };
    proof {
        assert(r@ =~= claimed_user(claims));
    }
    r
}

/// The user with what the provider adds: it fills in a missing name and email
/// address, and it alone knows the groups.
pub open spec fn merged_user(user: OidcUserView, info: UserInfo) -> OidcUserView {
    OidcUserView {
        subject: user.subject,
        username: first_of(
            user.username,
            first_of(opt_view(info.preferred_username), opt_view(info.name)),
        ),
        email: first_of(user.email, opt_view(info.email)),
        groups: views(info.groups@),
    }
}

fn either(a: Option<String>, b: Option<String>) -> (r: Option<String>)
    ensures
        opt_view(r) == first_of(opt_view(a), opt_view(b)),
{
    match a {
        Some(s) => Some(s),
        None => b,
    }
}

/// The user with what the provider adds.
pub fn merge_user_info(user: OidcUser, info: UserInfo) -> (r: OidcUser)
    ensures
        r@ == merged_user(user@, info),
{
    OidcUser {
        subject: user.subject,
        username: either(user.username, either(info.preferred_username, info.name)),
        email: either(user.email, info.email),
        groups: info.groups,
    }
}

/// A login that is about to start.
#[derive(Debug)]
pub struct LoginStart {
    pub client: OidcClientConfig,
    /// Where the login leads.
    pub next_path: String,
}

/// `r` is the start of a login, or why there is none; `issuer_ok` says whether
/// the issuer is an address.
pub open spec fn login_starts(
    settings: Settings,
    headers: RequestHeaders,
    next: Option<Seq<char>>,
    issuer_ok: bool,
    r: Result<LoginStart, HttpError>,
) -> bool {
    if !settings.oidc.configured() {
        r matches Err(e) && e@ == not_configured()
    } else {
        match callback_url(settings.base_url@, headers) {
            None => r matches Err(e) && e@ == refusal(
                400,
                "请求缺少 Host，无法生成 OIDC callback"@,
                "missing_host"@,
            ),
            Some(u) => match client_refusal(settings.oidc, issuer_ok) {
                Some(x) => r matches Err(e) && e@ == x,
                None => {
                    &&& r is Ok
                    &&& r->Ok_0.client@ == client_view(settings.oidc, u)
                    &&& r->Ok_0.next_path@ == redirect_target(next)
                },
            },
        }
    }
}

/// Starts a login, given whether the issuer is an address.
pub fn login_start_with(
    settings: &Settings,
    headers: &RequestHeaders,
    next: Option<&str>,
    issuer_ok: bool,
) -> (r: Result<LoginStart, HttpError>)
    ensures
        login_starts(*settings, *headers, opt_str_view(next), issuer_ok, r),
{
    let oidc: OidcSettings = match oidc_settings(&settings.oidc) {
        Ok(o) => o,
        Err(e) => return Err(e),
    };
    let redirect_url: String = match oidc_redirect_url(settings.base_url.as_str(), headers) {
        Ok(u) => u,
        Err(e) => return Err(e),
    };
    match client_config(&oidc, issuer_ok, redirect_url) {
        Ok(client) => Ok(LoginStart { client, next_path: normalize_path_for_redirect(next) }),
        Err(e) => Err(e),
    }
}

/// Starts a login: the client for the provider, and where the login leads.
pub fn login_start(settings: &Settings, headers: &RequestHeaders, next: Option<&str>) -> (r: Result<
    LoginStart,
    HttpError,
>)
    ensures
        login_starts(*settings, *headers, opt_str_view(next), issuer_accepted(settings.oidc), r),
{
    login_start_with(settings, headers, next, issuer_is_url(&settings.oidc))
}

/// What is saved of a login that started, for the callback: under the state,
/// the nonce, the PKCE verifier and where the login leads, for ten minutes.
pub fn login_row(start: &LoginStart, state: String, nonce: String, pkce_verifier: String) -> (r:
    LoginRow)
    ensures
        r.state@ == state@,
        r.nonce@ == nonce@,
        r.pkce_verifier@ == pkce_verifier@,
        opt_view(r.next_path) == Some(start.next_path@),
        r.ttl_secs == OIDC_LOGIN_STATE_TTL_SECS,
{
    LoginRow {
        state,
        nonce,
        pkce_verifier,
        next_path: Some(String::from_str(start.next_path.as_str())),
        ttl_secs: OIDC_LOGIN_STATE_TTL_SECS,
    }
}

/// Where a login that started goes: to the provider, if its state could be
/// saved.
pub fn login_redirect(saved: bool, auth_url: String) -> (r: Result<String, HttpError>)
    ensures
        if saved {
            r matches Ok(u) && u@ == auth_url@
        } else {
            r matches Err(e) && e@ == refusal(500, "服务器错误"@, "state_save_failed"@)
        },
{
    if saved {
        Ok(auth_url)
    } else {
        Err(http_error(500, "服务器错误", "state_save_failed"))
    }
}

/// The scopes that a login asks for.
pub fn login_scopes() -> (r: Vec<String>)
    ensures
        views(r@) == seq!["profile"@, "email"@, "groups"@],
{
    let r: Vec<String> = vec![
        String::from_str("profile"),
        String::from_str("email"),
        String::from_str("groups"),
    ];
    proof {
        assert(views(r@) =~= seq!["profile"@, "email"@, "groups"@]);
    }
    r
}

/// What a callback waits for.
#[derive(Debug, Clone, Copy, PartialEq, Eq, Structural)]
pub enum CallbackPhase {
    /// The stored state of the login.
    State,
    /// The discovery of the provider.
    Client,
    /// The request for the tokens.
    TokenRequest,
    /// The tokens.
    Token,
    /// The claims of the ID token.
    Claims,
    /// The request for what the provider knows of the user.
    InfoRequest,
    /// What the provider knows of the user.
    Info,
    /// That the session is saved.
    Session,
    /// Nothing.
    Done,
}

/// What happened to a callback.
#[derive(Debug)]
pub enum CallbackEvent {
    /// The stored state was taken; it may be missing, or reading it failed.
    StateTaken(Result<Option<OidcLoginState>, String>),
    /// The client is ready for use, or not.
    ClientReady(bool),
    /// The request for the tokens could be made, or not.
    TokenRequestMade(bool),
    /// The tokens came, with or without an ID token, or did not come.
    TokenCame(Option<bool>),
    /// The claims of the ID token hold, or they do not.
    ClaimsRead(Option<IdTokenClaims>),
    /// The request for the user could be made, or not.
    InfoRequestMade(bool),
    /// What the provider knows of the user came, or not.
    InfoCame(Option<UserInfo>),
    /// The session was saved, or not.
    SessionSaved(bool),
}

/// What to do next for a callback.
#[derive(Debug)]
pub enum CallbackAction {
    /// Take the stored state of the login.
    TakeState { state: String },
    /// Discover the provider.
    Discover,
    /// Make the request for the tokens.
    RequestTokens { code: String },
    /// Send it, with the verifier of the login.
    SendTokenRequest { pkce_verifier: String },
    /// Check the ID token against the nonce of the login.
    CheckClaims { nonce: String },
    /// Make the request for the user with this subject.
    RequestInfo { subject: String },
    /// Send it.
    SendInfoRequest,
    /// Save a session.
    SaveSession {
        token: String,
        subject: String,
        username: Option<String>,
        email: Option<String>,
        ttl_secs: i64,
    },
    /// The user is logged in: set the cookie and redirect.
    Finish { set_cookie: String, location: String },
    /// The login failed: redirect.
    Fail { location: String },
}

/// What a `CallbackAction` says.
pub enum CallbackActionView {
    TakeState { state: Seq<char> },
    Discover,
    RequestTokens { code: Seq<char> },
    SendTokenRequest { pkce_verifier: Seq<char> },
    CheckClaims { nonce: Seq<char> },
    RequestInfo { subject: Seq<char> },
    SendInfoRequest,
    SaveSession {
        token: Seq<char>,
        subject: Seq<char>,
        username: Option<Seq<char>>,
        email: Option<Seq<char>>,
        ttl_secs: i64,
    },
    Finish { set_cookie: Seq<char>, location: Seq<char> },
    Fail { location: Seq<char> },
}

impl View for CallbackAction {
    type V = CallbackActionView;

    open spec fn view(&self) -> CallbackActionView {
        match self {
            CallbackAction::TakeState { state } => CallbackActionView::TakeState { state: state@ },
            CallbackAction::Discover => CallbackActionView::Discover,
            CallbackAction::RequestTokens { code } => CallbackActionView::RequestTokens {
                code: code@,
            },
            CallbackAction::SendTokenRequest { pkce_verifier } =>
            CallbackActionView::SendTokenRequest { pkce_verifier: pkce_verifier@ },
            CallbackAction::CheckClaims { nonce } => CallbackActionView::CheckClaims {
                nonce: nonce@,
            },
            CallbackAction::RequestInfo { subject } => CallbackActionView::RequestInfo {
                subject: subject@,
            },
            CallbackAction::SendInfoRequest => CallbackActionView::SendInfoRequest,
            CallbackAction::SaveSession { token, subject, username, email, ttl_secs } =>
            CallbackActionView::SaveSession {
                token: token@,
                subject: subject@,
                username: opt_view(*username),
                email: opt_view(*email),
                ttl_secs: *ttl_secs,
            },
            CallbackAction::Finish { set_cookie, location } => CallbackActionView::Finish {
                set_cookie: set_cookie@,
                location: location@,
            },
            CallbackAction::Fail { location } => CallbackActionView::Fail { location: location@ },
        }
    }
}

/// The state of a callback.
pub struct CallbackModel {
    pub phase: CallbackPhase,
    /// The code that the provider sent.
    pub code: Seq<char>,
    /// Where the provider sends users back to, if that is known.
    pub redirect_url: Option<Seq<char>>,
    /// The client of the provider, if the settings make one.
    pub client: Option<OidcClientView>,
    /// The client used HTTPS.
    pub secure: bool,
    pub policy: CookiePolicy,
    /// The stored state of the login.
    pub login: Option<LoginStateView>,
    /// The user.
    pub user: Option<OidcUserView>,
    /// The token of the session.
    pub token: Option<Seq<char>>,
}

/// A callback that is over, without success.
pub open spec fn login_failed(m: CallbackModel, message: Seq<char>, code: Seq<char>) -> (
    CallbackModel,
    CallbackActionView,
) {
    (
        CallbackModel { phase: CallbackPhase::Done, ..m },
        CallbackActionView::Fail { location: error_page(message, code) },
    )
}

/// The event is one that the callback waits for.
pub open spec fn expected(phase: CallbackPhase, event: CallbackEvent) -> bool {
    match phase {
        CallbackPhase::State => event is StateTaken,
        CallbackPhase::Client => event is ClientReady,
        CallbackPhase::TokenRequest => event is TokenRequestMade,
        CallbackPhase::Token => event is TokenCame,
        CallbackPhase::Claims => event is ClaimsRead,
        CallbackPhase::InfoRequest => event is InfoRequestMade,
        CallbackPhase::Info => event is InfoCame,
        CallbackPhase::Session => event is SessionSaved,
        CallbackPhase::Done => false,
    }
}

/// What follows an event, with `token` as the token of a new session.
pub open spec fn callback_step(m: CallbackModel, event: CallbackEvent, token: Seq<char>) -> (
    CallbackModel,
    CallbackActionView,
) {
    match event {
        CallbackEvent::StateTaken(Err(_)) => login_failed(m, "服务器错误"@, "state_read_failed"@),
        CallbackEvent::StateTaken(Ok(None)) => login_failed(
            m,
            "OIDC 登录状态已失效"@,
            "oidc_state_invalid"@,
        ),
        CallbackEvent::StateTaken(Ok(Some(s))) => {
            let n = CallbackModel { login: Some(login_state_view(s)), ..m };
            if m.redirect_url is None {
                login_failed(n, "请求缺少 Host"@, "missing_host"@)
            } else if m.client is None {
                login_failed(n, "OIDC 配置不可用"@, "oidc_client_failed"@)
            } else {
                (
                    CallbackModel { phase: CallbackPhase::Client, ..n },
                    CallbackActionView::Discover,
                )
            }
        },
        CallbackEvent::ClientReady(ok) => if ok {
            (
                CallbackModel { phase: CallbackPhase::TokenRequest, ..m },
                CallbackActionView::RequestTokens { code: m.code },
            )
        } else {
            login_failed(m, "OIDC 配置不可用"@, "oidc_client_failed"@)
        },
        CallbackEvent::TokenRequestMade(ok) => match m.login {
            Some(l) if ok => (
                CallbackModel { phase: CallbackPhase::Token, ..m },
                CallbackActionView::SendTokenRequest { pkce_verifier: l.pkce_verifier },
            ),
            _ => login_failed(m, "OIDC token endpoint 未配置"@, "oidc_token_endpoint_missing"@),
        },
        CallbackEvent::TokenCame(None) => login_failed(
            m,
            "OIDC 换取令牌失败"@,
            "oidc_token_exchange_failed"@,
        ),
        CallbackEvent::TokenCame(Some(has_id_token)) => match m.login {
            Some(l) if has_id_token => (
                CallbackModel { phase: CallbackPhase::Claims, ..m },
                CallbackActionView::CheckClaims { nonce: l.nonce },
            ),
            _ => login_failed(m, "OIDC 响应缺少 ID Token"@, "oidc_missing_id_token"@),
        },
        CallbackEvent::ClaimsRead(None) => login_failed(
            m,
            "OIDC 登录验证失败"@,
            "oidc_claims_invalid"@,
        ),
        CallbackEvent::ClaimsRead(Some(c)) => (
            CallbackModel {
                phase: CallbackPhase::InfoRequest,
                user: Some(claimed_user(c)),
                ..m
            },
            CallbackActionView::RequestInfo { subject: c.subject@ },
        ),
        CallbackEvent::InfoRequestMade(ok) => if ok {
            (
                CallbackModel { phase: CallbackPhase::Info, ..m },
                CallbackActionView::SendInfoRequest,
            )
        } else {
            login_failed(m, "OIDC UserInfo endpoint 不可用"@, "oidc_userinfo_unavailable"@)
        },
        CallbackEvent::InfoCame(info) => match (info, m.user) {
            (Some(i), Some(u)) => {
                let merged = merged_user(u, i);
                (
                    CallbackModel {
                        phase: CallbackPhase::Session,
                        user: Some(merged),
                        token: Some(token),
                        ..m
                    },
                    CallbackActionView::SaveSession {
                        token,
                        subject: merged.subject,
                        username: merged.username,
                        email: merged.email,
                        ttl_secs: m.policy.max_age_secs as i64,
                    },
                )
            },
            _ => login_failed(m, "OIDC UserInfo 请求失败"@, "oidc_userinfo_failed"@),
        },
        CallbackEvent::SessionSaved(ok) => match (m.token, m.login) {
            (Some(t), Some(l)) if ok => (
                CallbackModel { phase: CallbackPhase::Done, ..m },
                CallbackActionView::Finish {
                    set_cookie: cookie_text(t, m.secure, m.policy),
                    location: redirect_target(l.next_path),
                },
            ),
            _ => login_failed(m, "服务器错误"@, "session_save_failed"@),
        },
    }
}

impl CallbackModel {
    /// What the phase says of the rest.
    pub open spec fn wf(self) -> bool {
        match self.phase {
            CallbackPhase::State => self.login is None && self.user is None && self.token is None,
            CallbackPhase::Client | CallbackPhase::TokenRequest | CallbackPhase::Token
            | CallbackPhase::Claims => self.login is Some && self.redirect_url is Some
                && self.user is None && self.token is None,
            CallbackPhase::InfoRequest | CallbackPhase::Info => self.login is Some
                && self.redirect_url is Some && self.user is Some && self.token is None,
            CallbackPhase::Session => self.login is Some && self.redirect_url is Some
                && self.user is Some && self.token is Some,
            CallbackPhase::Done => true,
        }
    }
}

/// `m` is a callback with this code and this state at its beginning, and `a`
/// what to do first; `issuer_ok` says whether the issuer is an address.
pub open spec fn callback_begins(
    settings: Settings,
    headers: RequestHeaders,
    policy: CookiePolicy,
    code: Seq<char>,
    state: Seq<char>,
    issuer_ok: bool,
    m: CallbackModel,
    a: CallbackActionView,
) -> bool {
    let url = callback_url(settings.base_url@, headers);
    &&& m.code == code
    &&& m.redirect_url == url
    &&& m.client == client_of(settings.oidc, issuer_ok, url)
    &&& m.secure == client_used_https(headers)
    &&& m.policy == policy
    &&& m.login is None
    &&& m.user is None
    &&& m.token is None
    &&& if settings.oidc.configured() {
        m.phase == CallbackPhase::State && a == (CallbackActionView::TakeState { state })
    } else {
        m.phase == CallbackPhase::Done && a == (CallbackActionView::Fail {
            location: error_page("OIDC 未配置"@, "oidc_not_configured"@),
        })
    }
}

/// A callback from the provider.
#[derive(Debug)]
pub struct LoginCallback {
    phase: CallbackPhase,
    code: String,
    redirect_url: Option<String>,
    client: Option<OidcClientConfig>,
    secure: bool,
    policy: CookiePolicy,
    login: Option<OidcLoginState>,
    user: Option<OidcUser>,
    token: Option<String>,
}

impl View for LoginCallback {
    type V = CallbackModel;

    closed spec fn view(&self) -> CallbackModel {
        CallbackModel {
            phase: self.phase,
            code: self.code@,
            redirect_url: opt_view(self.redirect_url),
            client: match self.client {
                Some(c) => Some(c@),
                None => None,
            },
            secure: self.secure,
            policy: self.policy,
            login: match self.login {
                Some(s) => Some(login_state_view(s)),
                None => None,
            },
            user: match self.user {
                Some(u) => Some(u@),
                None => None,
            },
            token: opt_view(self.token),
        }
    }
}

impl LoginCallback {
    /// Begins with what the provider sent, given whether the issuer is an
    /// address.
    pub fn start_with(
        settings: &Settings,
        headers: &RequestHeaders,
        policy: CookiePolicy,
        code: String,
        state: String,
        issuer_ok: bool,
    ) -> (r: (Self, CallbackAction))
        ensures
            r.0@.wf(),
            callback_begins(*settings, *headers, policy, code@, state@, issuer_ok, r.0@, r.1@),
    {
        let redirect_url: Option<String> = match oidc_redirect_url(
            settings.base_url.as_str(),
            headers,
        ) {
            Ok(u) => Some(u),
            Err(_) => None,
        };
        let client: Option<OidcClientConfig> = match &redirect_url {
            Some(u) => match client_config(
                &settings.oidc,
                issuer_ok,
                String::from_str(u.as_str()),
            ) {
                Ok(c) => Some(c),
                Err(_) => None,
            },
            None => None,
        };
        let configured: bool = settings.oidc.is_configured();
        let callback: LoginCallback = LoginCallback {
            phase: if configured {
                CallbackPhase::State
            } else {
                CallbackPhase::Done
            },
            code,
            redirect_url,
            client,
            secure: is_https(headers),
            policy,
            login: None,
            user: None,
            token: None,
        };
        let action: CallbackAction = if configured {
            CallbackAction::TakeState { state }
        } else {
            CallbackAction::Fail { location: redirect_error("OIDC 未配置", "oidc_not_configured") }
        };
        (callback, action)
    }

    /// Begins with what the provider sent: the code and the state.
    pub fn login_callback(
        settings: &Settings,
        headers: &RequestHeaders,
        policy: CookiePolicy,
        code: String,
        state: String,
    ) -> (r: (Self, CallbackAction))
        ensures
            r.0@.wf(),
            callback_begins(
                *settings,
                *headers,
                policy,
                code@,
                state@,
                issuer_accepted(settings.oidc),
                r.0@,
                r.1@,
            ),
    {
        let issuer_ok: bool = issuer_is_url(&settings.oidc);
        LoginCallback::start_with(settings, headers, policy, code, state, issuer_ok)
    }

    /// What the callback waits for.
    pub fn phase(&self) -> (r: CallbackPhase)
        ensures
            r == self@.phase,
    {
        self.phase
    }

    /// What the client of the provider is made of, if the settings make one.
    pub fn client(&self) -> (r: Option<&OidcClientConfig>)
        ensures
            match r {
                Some(c) => self@.client == Some(c@),
                None => self@.client is None,
            },
    {
        self.client.as_ref()
    }

    fn fail(&mut self, message: &str, code: &str) -> (r: CallbackAction)
        ensures
            final(self)@.wf(),
            (final(self)@, r@) == login_failed(old(self)@, message@, code@),
    {
        self.phase = CallbackPhase::Done;
        CallbackAction::Fail { location: redirect_error(message, code) }
    }

    /// Takes an event and says what to do, with `token` as the token of a new
    /// session.
    pub fn step_with(&mut self, event: CallbackEvent, token: String) -> (r: CallbackAction)
        requires
            old(self)@.wf(),
            expected(old(self)@.phase, event),
        ensures
            final(self)@.wf(),
            (final(self)@, r@) == callback_step(old(self)@, event, token@),
    {
        match event {
            CallbackEvent::StateTaken(taken) => match taken {
                Err(_) => self.fail("服务器错误", "state_read_failed"),
                Ok(None) => self.fail("OIDC 登录状态已失效", "oidc_state_invalid"),
                Ok(Some(s)) => {
                    self.login = Some(s);
                    if self.redirect_url.is_none() {
                        self.fail("请求缺少 Host", "missing_host")
                    } else if self.client.is_none() {
                        self.fail("OIDC 配置不可用", "oidc_client_failed")
                    } else {
                        self.phase = CallbackPhase::Client;
                        CallbackAction::Discover
                    }
                },
            },
            CallbackEvent::ClientReady(ok) => {
                if ok {
                    self.phase = CallbackPhase::TokenRequest;
                    CallbackAction::RequestTokens { code: String::from_str(self.code.as_str()) }
                } else {
                    self.fail("OIDC 配置不可用", "oidc_client_failed")
                }
            },
            CallbackEvent::TokenRequestMade(ok) => {
                if ok {
                    if let Some(l) = &self.login {
                        let pkce_verifier: String = String::from_str(l.pkce_verifier.as_str());
                        self.phase = CallbackPhase::Token;
                        return CallbackAction::SendTokenRequest { pkce_verifier };
                    }
                }
                self.fail("OIDC token endpoint 未配置", "oidc_token_endpoint_missing")
            },
            CallbackEvent::TokenCame(came) => match came {
                None => self.fail("OIDC 换取令牌失败", "oidc_token_exchange_failed"),
                Some(has_id_token) => {
                    if has_id_token {
                        if let Some(l) = &self.login {
                            let nonce: String = String::from_str(l.nonce.as_str());
                            self.phase = CallbackPhase::Claims;
                            return CallbackAction::CheckClaims { nonce };
                        }
                    }
                    self.fail("OIDC 响应缺少 ID Token", "oidc_missing_id_token")
                },
            },
            CallbackEvent::ClaimsRead(claims) => match claims {
                None => self.fail("OIDC 登录验证失败", "oidc_claims_invalid"),
                Some(c) => {
                    let user: OidcUser = user_from_id_token_claims(c);
                    let subject: String = String::from_str(user.subject.as_str());
                    self.user = Some(user);
                    self.phase = CallbackPhase::InfoRequest;
                    CallbackAction::RequestInfo { subject }
                },
            },
            CallbackEvent::InfoRequestMade(ok) => {
                if ok {
                    self.phase = CallbackPhase::Info;
                    CallbackAction::SendInfoRequest
                } else {
                    self.fail("OIDC UserInfo endpoint 不可用", "oidc_userinfo_unavailable")
                }
            },
            CallbackEvent::InfoCame(info) => match info {
                None => self.fail("OIDC UserInfo 请求失败", "oidc_userinfo_failed"),
                Some(i) => self.user_known(i, token),
            },
            CallbackEvent::SessionSaved(ok) => {
                if ok {
                    if let Some(t) = &self.token {
                        if let Some(l) = &self.login {
                            let next: Option<&str> = match &l.next_path {
                                Some(p) => Some(p.as_str()),
                                None => None,
                            };
                            let location: String = normalize_path_for_redirect(next);
                            let set_cookie: String = build_cookie(
                                t.as_str(),
                                self.secure,
                                &self.policy,
                            );
                            self.phase = CallbackPhase::Done;
                            return CallbackAction::Finish { set_cookie, location };
                        }
                    }
                }
                self.fail("服务器错误", "session_save_failed")
            },
        }
    }

    /// Takes the outcome of the discovery of the provider. The client is ready
    /// if the provider was discovered and the redirect address is one.
    pub fn discovered(&mut self, found: bool) -> (r: CallbackAction)
        requires
            old(self)@.wf(),
            old(self)@.phase == CallbackPhase::Client,
        ensures
            final(self)@.wf(),
            (final(self)@, r@) == callback_step(
                old(self)@,
                CallbackEvent::ClientReady(
                    found && redirect_url_accepted(old(self)@.redirect_url->0),
                ),
                Seq::empty(),
            ),
    {
        let redirect_ok: bool = match &self.redirect_url {
            Some(u) => is_redirect_url(u.as_str()),
            None => false,
        };
        let ready: bool = client_ready(found, redirect_ok).is_ok();
        self.step_with(CallbackEvent::ClientReady(ready), String::new())
    }

    fn user_known(&mut self, info: UserInfo, token: String) -> (r: CallbackAction)
        requires
            old(self)@.wf(),
            old(self)@.phase == CallbackPhase::Info,
        ensures
            final(self)@.wf(),
            (final(self)@, r@) == callback_step(
                old(self)@,
                CallbackEvent::InfoCame(Some(info)),
                token@,
            ),
    {
        let mut known: Option<OidcUser> = None;
        std::mem::swap(&mut known, &mut self.user);
        match known {
            Some(u) => {
                let user: OidcUser = merge_user_info(u, info);
                let action: CallbackAction = CallbackAction::SaveSession {
                    token: String::from_str(token.as_str()),
                    subject: String::from_str(user.subject.as_str()),
                    username: opt_copy(&user.username),
                    email: opt_copy(&user.email),
                    ttl_secs: self.policy.max_age_secs as i64,
                };
                self.user = Some(user);
                self.token = Some(token);
                self.phase = CallbackPhase::Session;
                action
            },
            None => self.fail("OIDC UserInfo 请求失败", "oidc_userinfo_failed"),
        }
    }

    /// Takes an event and says what to do. A new session gets a random token.
    pub fn step(&mut self, event: CallbackEvent) -> (r: CallbackAction)
        requires
            old(self)@.wf(),
            expected(old(self)@.phase, event),
        ensures
            final(self)@.wf(),
            exists|token: Seq<char>|
                is_session_token(token) && (final(self)@, r@) == #[trigger] callback_step(
                    old(self)@,
                    event,
                    token,
                ),
    {
        let token: String = generate_session_token();
        self.step_with(event, token)
    }
}

/// A text that a session token can be: 64 hexadecimal digits.
pub open spec fn is_session_token(t: Seq<char>) -> bool {
    &&& t.len() == 64
    &&& forall|i: int| 0 <= i < t.len() ==> is_lower_hex(#[trigger] t[i])
}

/// The state of a callback after a row of events.
pub open spec fn callback_after(
    m: CallbackModel,
    events: Seq<CallbackEvent>,
    token: Seq<char>,
) -> CallbackModel
    decreases events.len(),
{
    if events.len() == 0 {
        m
    } else {
        callback_step(callback_after(m, events.drop_last(), token), events.last(), token).0
    }
}

/// Every event of the row is one that the callback waits for.
pub open spec fn all_expected(m: CallbackModel, events: Seq<CallbackEvent>, token: Seq<char>) -> bool
    decreases events.len(),
{
    if events.len() == 0 {
        true
    } else {
        &&& all_expected(m, events.drop_last(), token)
        &&& expected(callback_after(m, events.drop_last(), token).phase, events.last())
    }
}

/// How many checks are behind a callback in this phase.
pub open spec fn checks_behind(phase: CallbackPhase) -> int {
    match phase {
        CallbackPhase::State => 0,
        CallbackPhase::Client => 1,
        CallbackPhase::TokenRequest => 2,
        CallbackPhase::Token => 3,
        CallbackPhase::Claims => 4,
        CallbackPhase::InfoRequest => 5,
        CallbackPhase::Info => 6,
        CallbackPhase::Session => 7,
        CallbackPhase::Done => 8,
    }
}

/// The event at place `i` of a login is the one that belongs there, and it
/// went well.
pub open spec fn went_well(i: int, event: CallbackEvent) -> bool {
    if i == 0 {
        event matches CallbackEvent::StateTaken(Ok(Some(_)))
    } else if i == 1 {
        event == CallbackEvent::ClientReady(true)
    } else if i == 2 {
        event == CallbackEvent::TokenRequestMade(true)
    } else if i == 3 {
        event == CallbackEvent::TokenCame(Some(true))
    } else if i == 4 {
        event matches CallbackEvent::ClaimsRead(Some(_))
    } else if i == 5 {
        event == CallbackEvent::InfoRequestMade(true)
    } else {
        event matches CallbackEvent::InfoCame(Some(_))
    }
}

/// A callback gets as far as its checks went well: while it is not over, the
/// events so far are the checks in order, each of which went well, and what it
/// knows of the login and of the user is what they reported.
pub proof fn callback_passes_its_checks_in_order(
    m: CallbackModel,
    events: Seq<CallbackEvent>,
    token: Seq<char>,
)
    requires
        m.wf(),
        m.phase == CallbackPhase::State,
        all_expected(m, events, token),
        callback_after(m, events, token).phase != CallbackPhase::Done,
    ensures
        events.len() == checks_behind(callback_after(m, events, token).phase),
        forall|i: int| 0 <= i < events.len() ==> went_well(i, #[trigger] events[i]),
        events.len() > 0 ==> callback_after(m, events, token).login == Some(
            login_state_view(events[0]->StateTaken_0->Ok_0->0),
        ),
        5 <= events.len() <= 6 ==> callback_after(m, events, token).user == Some(
            claimed_user(events[4]->ClaimsRead_0->0),
        ),
        events.len() == 7 ==> callback_after(m, events, token).user == Some(
            merged_user(claimed_user(events[4]->ClaimsRead_0->0), events[6]->InfoCame_0->0),
        ),
    decreases events.len(),
{
    if events.len() > 0 {
        let rest = events.drop_last();
        let before = callback_after(m, rest, token);
        assert(before.phase != CallbackPhase::Done);
        callback_passes_its_checks_in_order(m, rest, token);
        let last = events.last();
        assert(last == events[rest.len() as int]);
        assert(went_well(rest.len() as int, last));
        assert forall|i: int| 0 <= i < events.len() implies went_well(i, #[trigger] events[i]) by {
            if i < rest.len() {
                assert(rest[i] == events[i]);
            }
        }
    }
}

/// A session is saved only for the subject of an ID token that was checked
/// against the nonce of a stored login, after every other check went well.
pub proof fn sessions_belong_to_checked_logins(
    m: CallbackModel,
    events: Seq<CallbackEvent>,
    last: CallbackEvent,
    token: Seq<char>,
)
    requires
        m.wf(),
        m.phase == CallbackPhase::State,
        all_expected(m, events.push(last), token),
        callback_step(callback_after(m, events, token), last, token).1 is SaveSession,
    ensures
        events.len() == 6,
        forall|i: int| 0 <= i < 6 ==> went_well(i, #[trigger] events[i]),
        went_well(6, last),
        callback_step(callback_after(m, events, token), last, token).1->SaveSession_subject
            == events[4]->ClaimsRead_0->0.subject@,
{
    assert(events.push(last).drop_last() =~= events);
    let before = callback_after(m, events, token);
    assert(before.phase != CallbackPhase::Done);
    callback_passes_its_checks_in_order(m, events, token);
}

/// A callback whose state was never saved, is too old or was used before,
/// whether that callback succeeded or failed, is refused: it leads to the
/// login page with an error, and is over, so that no token is asked for and no
/// session is saved. `taken` is what the table of logins, with all that
/// happened to it, gives for the state.
pub proof fn stale_logins_are_refused(
    settings: Settings,
    headers: RequestHeaders,
    policy: CookiePolicy,
    code: Seq<char>,
    state: Seq<char>,
    issuer_ok: bool,
    history: Seq<LoginTableEvent>,
    now: int,
    taken: Option<OidcLoginState>,
    m: CallbackModel,
    a: CallbackActionView,
    token: Seq<char>,
)
    requires
        settings.oidc.configured(),
        callback_begins(settings, headers, policy, code, state, issuer_ok, m, a),
        forall|i: int| !#[trigger] is_open_login(history, state, now, i),
        login_found(login_table(history), state, now) == match taken {
            Some(s) => Some(login_state_view(s)),
            None => None,
        },
    ensures
        a == (CallbackActionView::TakeState { state }),
        ({
            let end = callback_step(m, CallbackEvent::StateTaken(Ok(taken)), token);
            &&& end.1 == (CallbackActionView::Fail {
                location: error_page("OIDC 登录状态已失效"@, "oidc_state_invalid"@),
            })
            &&& end.0.token is None
            &&& forall|event: CallbackEvent| !#[trigger] expected(end.0.phase, event)
        }),
{
    found_logins_are_open(history, state, now);
}

/// A login that succeeds leads to a page of this site.
pub proof fn successful_logins_stay_here(m: CallbackModel, event: CallbackEvent, token: Seq<char>)
    requires
        callback_step(m, event, token).1 is Finish,
    ensures
        is_local_path(callback_step(m, event, token).1->Finish_location),
        !is_internal_path(callback_step(m, event, token).1->Finish_location),
{
    match m.login {
        Some(l) => {
            logins_lead_to_local_pages(l.next_path);
        },
        None => {},
    }
}

/// What logging out does.
#[derive(Debug)]
pub struct Logout {
    /// The session to delete.
    pub session: Option<String>,
    pub set_cookie: String,
    pub message: String,
}

/// Logs out: deletes the session of the cookie, and the cookie.
pub fn logout(headers: &RequestHeaders) -> (r: Logout)
    ensures
        opt_view(r.session) == cookie_of(*headers, COOKIE_NAME@),
        r.set_cookie@ == COOKIE_NAME@ + "=; HttpOnly; SameSite=Strict; Path=/; Max-Age=0"@,
        r.message@ == "已退出登录"@,
{
    Logout {
        session: extract_cookie(headers, COOKIE_NAME),
        set_cookie: build_clear_cookie(),
        message: String::from_str("已退出登录"),
    }
}

/// Who is logged in.
#[derive(Debug)]
pub struct SessionAnswer {
    pub authenticated: bool,
    pub user: Option<AuthSession>,
}

/// Who is logged in, by the session that was found.
pub fn session(found: Option<AuthSession>) -> (r: SessionAnswer)
    ensures
        r.authenticated == (found is Some),
        r.user == found,
{
    SessionAnswer { authenticated: found.is_some(), user: found }
}

/// Users come back to the public address of the site, whatever request
/// started the login: white space around the address and slashes behind it do
/// not count.
pub proof fn logins_come_back_to_the_public_address(
    a: Seq<char>,
    site: Seq<char>,
    slashes: nat,
    b: Seq<char>,
    headers: RequestHeaders,
)
    requires
        all_space(a),
        all_space(b),
        site.len() > 0,
        !is_space(site[0]),
        !is_space(site.last()),
        site.last() != '/',
    ensures
        callback_url(a + (site + repeated('/', slashes)) + b, headers) == Some(
            site + "/api/auth/callback"@,
        ),
{
    let s = site + repeated('/', slashes);
    assert(s[0] == site[0]);
    if slashes > 0 {
        assert(s.last() == '/');
    } else {
        assert(s =~= site);
    }
    trimming_gives_the_text(a, s, b);
    trailing_characters_go(site, '/', slashes);
}

/// Without a public address, users come back to the host that they used, with
/// the scheme that they used. Without a host, or with one that holds a slash,
/// there is nowhere to come back to.
pub proof fn logins_come_back_to_the_host(base_url: Seq<char>, headers: RequestHeaders)
    requires
        all_space(base_url),
    ensures
        host_of(headers) matches Some(h) && !h.contains('/') ==> callback_url(base_url, headers)
            == Some(
            (if headers.x_forwarded_proto matches HeaderField::Text(v) && first_listed(v@)
                == "https"@ {
                "https://"@
            } else {
                "http://"@
            }) + host_of(headers)->0 + "/api/auth/callback"@,
        ),
        host_of(headers) matches Some(h) && h.contains('/') ==> callback_url(
            base_url,
            headers,
        ) is None,
        host_of(headers) is None ==> callback_url(base_url, headers) is None,
{
    trimming_cuts_white_space_alone(base_url);
    schemes_of_clients(headers);
    reveal_strlit("http");
    reveal_strlit("https");
    reveal_strlit("://");
    reveal_strlit("http://");
    reveal_strlit("https://");
    reveal_strlit("/");
    assert("/"@ =~= seq!['/']);
    assert("http"@ + "://"@ =~= "http://"@);
    assert("https"@ + "://"@ =~= "https://"@);
    if let Some(h) = host_of(headers) {
        what_is_held_is_inside(h, "/"@);
        if holds(h, "/"@) {
            let (x, y) = choose|x: Seq<char>, y: Seq<char>| h == #[trigger] (x + "/"@ + y);
            assert(h[x.len() as int] == '/');
        }
        if h.contains('/') {
            let i = choose|i: int| 0 <= i < h.len() && h[i] == '/';
            assert(h =~= h.take(i) + "/"@ + h.skip(i + 1));
        }
    }
}

/// The cookie of a login is one for HTTPS alone if and only if the first proxy
/// says that the client used it.
pub proof fn https_is_what_the_first_proxy_says(headers: RequestHeaders)
    ensures
        client_used_https(headers) <==> (headers.x_forwarded_proto matches HeaderField::Text(v)
            && first_listed(v@) == "https"@),
{
}

proof fn lemma_error_page(message: Seq<char>, code: Seq<char>)
    ensures
        next_char(error_page(message, code), '&', 0) == 13 + percent_bytes(
            encode_utf8(message),
        ).len(),
{
    reveal_strlit("/login?error=");
    reveal_strlit("&code=");
    let p = percent_bytes(encode_utf8(message));
    let s = error_page(message, code);
    encoded_text_is_plain(encode_utf8(message));
    let n = 13 + p.len();
    assert forall|j: int| 0 <= j < n implies s[j] != '&' by {
        if j < 13 {
            assert(s[j] == "/login?error="@[j]);
        } else {
            assert(s[j] == p[j - 13]);
        }
    }
    assert(s[n as int] == "&code="@[0]);
    lemma_next_char_is(s, '&', 0, n as int);
}

/// The login page shows what went wrong: different messages or codes make
/// different pages.
pub proof fn error_pages_tell_what_went_wrong(
    message: Seq<char>,
    code: Seq<char>,
    other_message: Seq<char>,
    other_code: Seq<char>,
)
    requires
        error_page(message, code) == error_page(other_message, other_code),
    ensures
        message == other_message,
        code == other_code,
        leads("/login?error="@, error_page(message, code)),
{
    reveal_strlit("/login?error=");
    reveal_strlit("&code=");
    lemma_error_page(message, code);
    lemma_error_page(other_message, other_code);
    let s = error_page(message, code);
    let p = percent_bytes(encode_utf8(message));
    let q = percent_bytes(encode_utf8(other_message));
    let n = 13 + p.len() as int;
    assert(p =~= s.subrange(13, n));
    assert(q =~= error_page(other_message, other_code).subrange(13, n));
    encoded_text_is_unique(encode_utf8(message), encode_utf8(other_message));
    let x = percent_bytes(encode_utf8(code));
    let y = percent_bytes(encode_utf8(other_code));
    assert(x =~= s.skip(n + 6));
    assert(y =~= error_page(other_message, other_code).skip(n + 6));
    encoded_text_is_unique(encode_utf8(code), encode_utf8(other_code));
    encode_utf8_decode_utf8(message);
    encode_utf8_decode_utf8(other_message);
    encode_utf8_decode_utf8(code);
    encode_utf8_decode_utf8(other_code);
    assert(s =~= "/login?error="@ + (p + "&code="@ + x));
}

/// There is a client for a provider if and only if its issuer is set and an
/// address, and the client has an identifier; what is wrong is said, the first
/// thing first.
pub proof fn clients_need_issuer_and_identifier(settings: OidcSettings, issuer_ok: bool)
    ensures
        client_refusal(settings, issuer_ok) is None <==> settings.issuer_url is Some
            && settings.client_id is Some && issuer_ok,
        client_refusal(settings, issuer_ok) matches Some(e) ==> e.status == 503 && (e.code
            == "oidc_not_configured"@ <==> settings.issuer_url is None || settings.client_id is None)
            && (e.code == "oidc_invalid_config"@ <==> settings.issuer_url is Some
            && settings.client_id is Some),
        settings.issuer_url is None ==> client_refusal(settings, issuer_ok)->0.message
            == "OIDC issuer 未配置"@,
        settings.issuer_url is Some && settings.client_id is None ==> client_refusal(
            settings,
            issuer_ok,
        )->0.message == "OIDC client_id 未配置"@,
        settings.issuer_url is Some && settings.client_id is Some && !issuer_ok ==> client_refusal(
            settings,
            issuer_ok,
        )->0.message == "OIDC issuer URL 无效"@,
{
    reveal_strlit("oidc_not_configured");
    reveal_strlit("oidc_invalid_config");
    assert("oidc_not_configured"@[5] == 'n');
    assert("oidc_invalid_config"@[5] == 'i');
}

/// A client is of use if and only if its provider was discovered and its
/// redirect address is one.
pub proof fn clients_of_use(discovered: bool, redirect_ok: bool)
    ensures
        discovery_refusal(discovered, redirect_ok) is None <==> discovered && redirect_ok,
        !discovered ==> (discovery_refusal(discovered, redirect_ok) matches Some(e) && e.status
            == 502 && e.code == "oidc_discovery_failed"@ && e.message == "OIDC discovery 失败"@),
        discovered && !redirect_ok ==> (discovery_refusal(discovered, redirect_ok) matches Some(e)
            && e.status == 503 && e.code == "oidc_invalid_config"@ && e.message
            == "OIDC redirect URL 无效"@),
{
}

/// A login starts if and only if users can log in, there is somewhere to come
/// back to, and there is a client; the client is that of the settings. A
/// callback that begins knows the same client.
pub proof fn logins_start_with_the_settings(
    settings: Settings,
    headers: RequestHeaders,
    next: Option<Seq<char>>,
    issuer_ok: bool,
    r: Result<LoginStart, HttpError>,
)
    requires
        login_starts(settings, headers, next, issuer_ok, r),
    ensures
        r is Ok <==> settings.oidc.configured() && callback_url(
            settings.base_url@,
            headers,
        ) is Some && settings.oidc.issuer_url is Some && settings.oidc.client_id is Some
            && issuer_ok,
        r matches Ok(start) ==> start.client@.issuer == settings.oidc.issuer_url->0@
            && start.client@.client_id == settings.oidc.client_id->0@ && start.client@.client_secret
            == opt_view(settings.oidc.client_secret) && Some(start.client@.redirect_url)
            == callback_url(settings.base_url@, headers) && start.next_path@ == redirect_target(
            next,
        ),
        r matches Ok(start) ==> client_of(
            settings.oidc,
            issuer_ok,
            callback_url(settings.base_url@, headers),
        ) == Some(start.client@),
        !settings.oidc.configured() ==> (r matches Err(e) && e@.status == 503 && e@.code
            == "oidc_not_configured"@ && e@.message == "OIDC 未配置"@),
        settings.oidc.configured() && callback_url(settings.base_url@, headers) is None ==> (
        r matches Err(e) && e@.status == 400 && e@.code == "missing_host"@),
{
    clients_need_issuer_and_identifier(settings.oidc, issuer_ok);
}

/// A user is known by the preferred name before any other, by the ID token
/// before what the provider adds, and by the provider alone in the groups. The
/// subject is always that of the ID token.
pub proof fn users_are_known_by_their_token(claims: IdTokenClaims, info: UserInfo)
    ensures
        ({
            let user = merged_user(claimed_user(claims), info);
            &&& user.subject == claims.subject@
            &&& claims.preferred_username is Some ==> user.username == Some(
                claims.preferred_username->0@,
            )
            &&& claims.preferred_username is None && claims.name is Some ==> user.username == Some(
                claims.name->0@,
            )
            &&& claims.preferred_username is None && claims.name is None
                && info.preferred_username is Some ==> user.username == Some(
                info.preferred_username->0@,
            )
            &&& claims.preferred_username is None && claims.name is None
                && info.preferred_username is None && info.name is Some ==> user.username == Some(
                info.name->0@,
            )
            &&& user.username is None <==> claims.preferred_username is None && claims.name is None
                && info.preferred_username is None && info.name is None
            &&& claims.email is Some ==> user.email == Some(claims.email->0@)
            &&& claims.email is None && info.email is Some ==> user.email == Some(info.email->0@)
            &&& user.email is None <==> claims.email is None && info.email is None
            &&& user.groups.len() == info.groups@.len()
            &&& forall|i: int|
                0 <= i < info.groups@.len() ==> #[trigger] user.groups[i] == info.groups@[i]@
        }),
{
}

/// A login in which every step goes well: each step asks for the next one,
/// with what the ones before brought, and in the end the user has a session
/// under the token, for as long as its cookie lasts, and is led to where the
/// login was to lead.
pub proof fn logins_that_go_well_end_with_a_session(
    m: CallbackModel,
    login: OidcLoginState,
    claims: IdTokenClaims,
    info: UserInfo,
    token: Seq<char>,
)
    requires
        m.wf(),
        m.phase == CallbackPhase::State,
        m.redirect_url is Some,
        m.client is Some,
    ensures
        ({
            let s0 = callback_step(m, CallbackEvent::StateTaken(Ok(Some(login))), token);
            let s1 = callback_step(s0.0, CallbackEvent::ClientReady(true), token);
            let s2 = callback_step(s1.0, CallbackEvent::TokenRequestMade(true), token);
            let s3 = callback_step(s2.0, CallbackEvent::TokenCame(Some(true)), token);
            let s4 = callback_step(s3.0, CallbackEvent::ClaimsRead(Some(claims)), token);
            let s5 = callback_step(s4.0, CallbackEvent::InfoRequestMade(true), token);
            let s6 = callback_step(s5.0, CallbackEvent::InfoCame(Some(info)), token);
            let s7 = callback_step(s6.0, CallbackEvent::SessionSaved(true), token);
            let user = merged_user(claimed_user(claims), info);
            &&& s0.0.phase == CallbackPhase::Client && s0.1 == CallbackActionView::Discover
            &&& s1.0.phase == CallbackPhase::TokenRequest && s1.1
                == (CallbackActionView::RequestTokens { code: m.code })
            &&& s2.0.phase == CallbackPhase::Token && s2.1
                == (CallbackActionView::SendTokenRequest { pkce_verifier: login.pkce_verifier@ })
            &&& s3.0.phase == CallbackPhase::Claims && s3.1 == (CallbackActionView::CheckClaims {
                nonce: login.nonce@,
            })
            &&& s4.0.phase == CallbackPhase::InfoRequest && s4.1
                == (CallbackActionView::RequestInfo { subject: claims.subject@ })
            &&& s5.0.phase == CallbackPhase::Info && s5.1 == CallbackActionView::SendInfoRequest
            &&& s6.0.phase == CallbackPhase::Session && s6.1 == (CallbackActionView::SaveSession {
                token,
                subject: claims.subject@,
                username: user.username,
                email: user.email,
                ttl_secs: m.policy.max_age_secs as i64,
            })
            &&& s7.0.phase == CallbackPhase::Done && s7.1 == (CallbackActionView::Finish {
                set_cookie: cookie_text(token, m.secure, m.policy),
                location: redirect_target(opt_view(login.next_path)),
            })
        }),
{
}

/// A login is over when a step fails, and the login page says which one.
pub proof fn failed_logins_say_why(
    m: CallbackModel,
    login: OidcLoginState,
    reason: String,
    token: Seq<char>,
)
    ensures
        fails_with(
            callback_step(m, CallbackEvent::StateTaken(Err(reason)), token),
            "服务器错误"@,
            "state_read_failed"@,
        ),
        fails_with(
            callback_step(m, CallbackEvent::StateTaken(Ok(None)), token),
            "OIDC 登录状态已失效"@,
            "oidc_state_invalid"@,
        ),
        m.redirect_url is None ==> fails_with(
            callback_step(m, CallbackEvent::StateTaken(Ok(Some(login))), token),
            "请求缺少 Host"@,
            "missing_host"@,
        ),
        m.redirect_url is Some && m.client is None ==> fails_with(
            callback_step(m, CallbackEvent::StateTaken(Ok(Some(login))), token),
            "OIDC 配置不可用"@,
            "oidc_client_failed"@,
        ),
        fails_with(
            callback_step(m, CallbackEvent::ClientReady(false), token),
            "OIDC 配置不可用"@,
            "oidc_client_failed"@,
        ),
        fails_with(
            callback_step(m, CallbackEvent::TokenRequestMade(false), token),
            "OIDC token endpoint 未配置"@,
            "oidc_token_endpoint_missing"@,
        ),
        fails_with(
            callback_step(m, CallbackEvent::TokenCame(None), token),
            "OIDC 换取令牌失败"@,
            "oidc_token_exchange_failed"@,
        ),
        fails_with(
            callback_step(m, CallbackEvent::TokenCame(Some(false)), token),
            "OIDC 响应缺少 ID Token"@,
            "oidc_missing_id_token"@,
        ),
        fails_with(
            callback_step(m, CallbackEvent::ClaimsRead(None), token),
            "OIDC 登录验证失败"@,
            "oidc_claims_invalid"@,
        ),
        fails_with(
            callback_step(m, CallbackEvent::InfoRequestMade(false), token),
            "OIDC UserInfo endpoint 不可用"@,
            "oidc_userinfo_unavailable"@,
        ),
        fails_with(
            callback_step(m, CallbackEvent::InfoCame(None), token),
            "OIDC UserInfo 请求失败"@,
            "oidc_userinfo_failed"@,
        ),
        fails_with(
            callback_step(m, CallbackEvent::SessionSaved(false), token),
            "服务器错误"@,
            "session_save_failed"@,
        ),
{
}

/// The login is over after this step, and the login page shows the message and
/// the code.
pub open spec fn fails_with(
    step: (CallbackModel, CallbackActionView),
    message: Seq<char>,
    code: Seq<char>,
) -> bool {
    step.0.phase == CallbackPhase::Done && step.1 == (CallbackActionView::Fail {
        location: "/login?error="@ + percent_bytes(encode_utf8(message)) + "&code="@
            + percent_bytes(encode_utf8(code)),
    })
}

/// A callback begins by asking for the stored login of its state, and knows
/// its code, its site, its client and its cookies. Where users cannot log in,
/// it is over at once.
pub proof fn callbacks_begin_with_their_state(
    settings: Settings,
    headers: RequestHeaders,
    policy: CookiePolicy,
    code: Seq<char>,
    state: Seq<char>,
    issuer_ok: bool,
    m: CallbackModel,
    a: CallbackActionView,
)
    requires
        callback_begins(settings, headers, policy, code, state, issuer_ok, m, a),
    ensures
        settings.oidc.configured() ==> m.phase == CallbackPhase::State && m.wf() && a
            == (CallbackActionView::TakeState { state }),
        !settings.oidc.configured() ==> fails_with(
            (m, a),
            "OIDC 未配置"@,
            "oidc_not_configured"@,
        ),
        m.code == code,
        m.policy == policy,
        m.redirect_url == callback_url(settings.base_url@, headers),
        m.client is Some <==> m.redirect_url is Some && settings.oidc.issuer_url is Some
            && settings.oidc.client_id is Some && issuer_ok,
        m.client matches Some(c) ==> c.issuer == settings.oidc.issuer_url->0@ && c.client_id
            == settings.oidc.client_id->0@ && c.client_secret == opt_view(
            settings.oidc.client_secret,
        ) && Some(c.redirect_url) == m.redirect_url,
        m.secure <==> (headers.x_forwarded_proto matches HeaderField::Text(v) && first_listed(v@)
            == "https"@),
{
}

} // verus!

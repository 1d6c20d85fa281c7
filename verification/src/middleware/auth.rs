//! Who may do what: every request passes here before its route.
//!
//! A request that changes something has to come from a page of this site.
//! Static files, shared content and the login itself are open to everyone;
//! everything else needs a session, or for uploads the PicGo key.
use vstd::prelude::*;
use vstd::string::*;
use vstd::utf8::*;

use crate::auth::COOKIE_NAME;
use crate::auth::CookiePolicy;
use crate::auth::build_cookie;
use crate::auth::cookie_text;
use crate::database::session_found;
use crate::database::visits_keep_a_session_alive;
use crate::error::HttpError;
use crate::error::HttpErrorView;
use crate::error::http_error;
use crate::error::refusal;
use crate::middleware::headers::HeaderField;
use crate::middleware::headers::RequestHeaders;
use crate::middleware::headers::cookie_among;
use crate::middleware::headers::cookie_in;
use crate::middleware::headers::cookie_of;
use crate::middleware::headers::extract_cookie;
use crate::middleware::headers::first_listed;
use crate::middleware::headers::forwarded_proto;
use crate::middleware::headers::host_of;
use crate::middleware::headers::proto_of;
use crate::middleware::headers::request_host;
use crate::middleware::headers::schemes_of_clients;
use crate::outside::percent_byte;
use crate::outside::percent_bytes;
use crate::outside::percent_encode;
use crate::text::all_space;
use crate::text::before;
use crate::text::beginnings_are_in_front;
use crate::text::begins;
use crate::text::behind;
use crate::text::chars_of;
use crate::text::contains;
use crate::text::endings_are_behind;
use crate::text::ends;
use crate::text::ends_with;
use crate::text::find;
use crate::text::find_from;
use crate::text::holds;
use crate::text::is_space;
use crate::text::join;
use crate::text::join3;
use crate::text::lemma_find_from;
use crate::text::lemma_next_char;
use crate::text::lemma_next_char_is;
use crate::text::lemma_next_char_none;
use crate::text::lemma_trim_nothing;
use crate::text::lemma_trimmed;
use crate::text::next_char;
use crate::text::occurs_at;
use crate::text::opt_str_view;
use crate::text::opt_view;
use crate::text::pieces;
use crate::text::position;
use crate::text::repeated;
use crate::text::same;
use crate::text::split_from;
use crate::text::starts_with;
use crate::text::text_of;
use crate::text::trailing_characters_go;
use crate::text::trim;
use crate::text::trim_end_matches;
use crate::text::trim_front;
use crate::text::trimmed;
use crate::text::trimming_cuts_white_space_alone;
use crate::text::trimming_gives_the_text;
use crate::text::what_is_held_is_inside;
use crate::text::without_trailing;

verus! {

/// The request accepts HTML: it is one of a browser for a page.
pub open spec fn accepts_html(headers: RequestHeaders) -> bool {
    match headers.accept.value() {
        Some(v) => holds(v, "text/html"@),
        None => false,
    }
}

/// Whether the request accepts HTML.
pub fn wants_html(headers: &RequestHeaders) -> (r: bool)
    ensures
        r == accepts_html(*headers),
{
    match headers.accept.text() {
        Some(v) => contains(v.as_str(), "text/html"),
        None => false,
    }
}

/// The path is the entry or lies below it. The entry `/` is the front page
/// alone.
pub open spec fn lies_under(path: Seq<char>, entry: Seq<char>) -> bool {
    if entry == "/"@ {
        path == "/"@
    } else if ends(entry, "/"@) {
        begins(path, entry)
    } else {
        path == entry || begins(path, entry + "/"@)
    }
}

/// Whether the path is the entry or lies below it.
pub fn path_matches_public_entry(path: &str, public_entry: &str) -> (r: bool)
    ensures
        r == lies_under(path@, public_entry@),
{
    if same(public_entry, "/") {
        same(path, "/")
    } else if ends_with(public_entry, "/") {
        starts_with(path, public_entry)
    } else {
        same(path, public_entry) || starts_with(path, join(public_entry, "/").as_str())
    }
}

/// The path in percent-encoding.
pub fn percent_encode_path(path: &str) -> (r: String)
    ensures
        r@ == percent_bytes(encode_utf8(path@)),
{
    percent_encode(path)
}

/// The request came in over HTTPS, as the proxy reports it.
pub open spec fn over_https(headers: RequestHeaders) -> bool {
    headers.x_forwarded_proto.value() == Some("https"@)
}

/// Whether the request came in over HTTPS.
pub fn is_https(headers: &RequestHeaders) -> (r: bool)
    ensures
        r == over_https(*headers),
{
    match headers.x_forwarded_proto.text() {
        Some(v) => same(v.as_str(), "https"),
        None => false,
    }
}

/// The methods that only read.
pub open spec fn only_reads(method: Seq<char>) -> bool {
    method == "GET"@ || method == "HEAD"@ || method == "OPTIONS"@ || method == "TRACE"@
}

/// Whether a request with this method may change something.
pub fn is_state_changing(method: &str) -> (r: bool)
    ensures
        r == !only_reads(method@),
{
    !(same(method, "GET") || same(method, "HEAD") || same(method, "OPTIONS") || same(
        method,
        "TRACE",
    ))
}

/// The origin of the pages of this site, as the client sees it.
pub open spec fn own_origin(headers: RequestHeaders) -> Option<Seq<char>> {
    match host_of(headers) {
        Some(h) => Some(proto_of(headers) + "://"@ + h),
        None => None,
    }
}

/// The origin of the pages of this site, as the client sees it.
pub fn expected_origin(headers: &RequestHeaders) -> (r: Option<String>)
    ensures
        opt_view(r) == own_origin(*headers),
{
    match request_host(headers) {
        Some(h) => Some(join3(forwarded_proto(headers).as_str(), "://", h.as_str())),
        None => None,
    }
}

/// An origin without white space around it and without slashes behind it, if
/// it is one of the web.
pub open spec fn web_origin(value: Seq<char>) -> Option<Seq<char>> {
    let v = without_trailing(trimmed(value), '/');
    if begins(v, "http://"@) || begins(v, "https://"@) {
        Some(v)
    } else {
        None
    }
}

/// An origin in the form in which origins are held against each other.
pub fn normalize_origin(value: &str) -> (r: Option<String>)
    ensures
        opt_view(r) == web_origin(value@),
{
    let v: String = trim_end_matches(trim(value).as_str(), '/');
    if starts_with(v.as_str(), "http://") || starts_with(v.as_str(), "https://") {
        Some(v)
    } else {
        None
    }
}

/// The origin of the page with the address `value`: all of it up to the first
/// slash behind the scheme.
pub open spec fn page_origin(value: Seq<char>) -> Option<Seq<char>> {
    let v = trimmed(value);
    match find_from(v, "://"@, 0) {
        Some(i) => web_origin(v.subrange(0, next_char(v, '/', i + 3))),
        None => None,
    }
}

/// The origin of the page that a request comes from.
pub fn referer_origin(value: &str) -> (r: Option<String>)
    ensures
        opt_view(r) == page_origin(value@),
{
    let v: Vec<char> = chars_of(trim(value).as_str());
    let mark: Vec<char> = chars_of("://");
    proof {
        reveal_strlit("://");
        assert(mark@.len() == 3);
    }
    match find(&v, &mark) {
        Some(i) => {
            assert(i + 3 <= v.len());
            let end: usize = position(&v, '/', i + 3);
            normalize_origin(text_of(&v, 0, end).as_str())
        },
        None => None,
    }
}

/// A request that changes something comes from a page of this site, or from a
/// client that is no browser and says nothing of where it comes from.
pub open spec fn same_origin(headers: RequestHeaders) -> bool {
    match own_origin(headers) {
        None => false,
        Some(own) => match headers.origin.value() {
            Some(o) => web_origin(o) == Some(own),
            None => match headers.referer.value() {
                Some(p) => page_origin(p) == Some(own),
                None => true,
            },
        },
    }
}

fn is_origin(found: &Option<String>, own: &str) -> (r: bool)
    ensures
        r == (opt_view(*found) == Some(own@)),
{
    match found {
        Some(f) => same(f.as_str(), own),
        None => false,
    }
}

/// Whether a request that changes something may come from where it comes
/// from.
pub fn csrf_origin_allowed(headers: &RequestHeaders) -> (r: bool)
    ensures
        r == same_origin(*headers),
{
    let own: String = match expected_origin(headers) {
        Some(o) => o,
        None => return false,
    };
    if let Some(o) = headers.origin.text() {
        return is_origin(&normalize_origin(o.as_str()), own.as_str());
    }
    if let Some(p) = headers.referer.text() {
        return is_origin(&referer_origin(p.as_str()), own.as_str());
    }
    true
}

/// How a request without a session is turned away.
#[derive(Debug)]
pub enum Denial {
    /// To the login page, which leads back afterwards.
    Login { location: String },
    /// With an error.
    Error(HttpError),
}

/// What a `Denial` says.
pub enum DenialView {
    Login { location: Seq<char> },
    Error(HttpErrorView),
}

impl View for Denial {
    type V = DenialView;

    open spec fn view(&self) -> DenialView {
        match self {
            Denial::Login { location } => DenialView::Login { location: location@ },
            Denial::Error(e) => DenialView::Error(e@),
        }
    }
}

/// Browsers are led to the login page and clients of the API get an error.
pub open spec fn denial(path: Seq<char>, html: bool) -> DenialView {
    if html && !begins(path, "/api/"@) {
        DenialView::Login { location: "/login?next="@ + percent_bytes(encode_utf8(path)) }
    } else {
        DenialView::Error(refusal(401, "需要登录"@, "unauthorized"@))
    }
}

/// How a request without a session is turned away: browsers are led to the
/// login page, clients of the API get an error.
pub fn redirect_or_401(path: &str, accept_html: bool) -> (r: Denial)
    ensures
        r@ == denial(path@, accept_html),
{
    if accept_html && !starts_with(path, "/api/") {
        Denial::Login { location: join("/login?next=", percent_encode_path(path).as_str()) }
    } else {
        Denial::Error(http_error(401, "需要登录", "unauthorized"))
    }
}

/// The refusal of a request from another site.
pub open spec fn csrf_refusal() -> HttpErrorView {
    refusal(403, "请求来源不匹配"@, "csrf_failed"@)
}

/// The refusal of a request from another site.
pub fn reject_csrf() -> (r: HttpError)
    ensures
        r@ == csrf_refusal(),
{
    http_error(403, "请求来源不匹配", "csrf_failed")
}

/// Files that belong to the site itself.
pub open spec fn is_static(path: Seq<char>) -> bool {
    begins(path, "/static/"@) || begins(path, "/assets/"@) || begins(path, "/favicon"@) || begins(
        path,
        "/robots.txt"@,
    )
}

/// Shared content: downloads and share pages. Guests reach it without an
/// account, whether or not users can log in.
pub open spec fn is_shared(path: Seq<char>) -> bool {
    begins(path, "/d/"@) || begins(path, "/share/"@)
}

/// What has to be reachable to log in.
pub open spec fn is_login(path: Seq<char>) -> bool {
    ||| lies_under(path, "/api/health"@)
    ||| lies_under(path, "/api/auth/login"@)
    ||| lies_under(path, "/api/auth/callback"@)
    ||| lies_under(path, "/api/auth/oidc/callback"@)
    ||| lies_under(path, "/api/auth/logout"@)
    ||| path == "/login"@
    ||| path == "/pwd"@
    ||| path == "/welcome"@
}

/// Paths that are open to everyone.
pub open spec fn is_open(path: Seq<char>) -> bool {
    is_static(path) || is_shared(path) || is_login(path)
}

/// Whether the path is open to everyone.
pub fn is_public_path(path: &str) -> (r: bool)
    ensures
        r == is_open(path@),
{
    starts_with(path, "/static/") || starts_with(path, "/assets/") || starts_with(path, "/favicon")
        || starts_with(path, "/robots.txt") || starts_with(path, "/d/") || starts_with(
        path,
        "/share/",
    ) || path_matches_public_entry(path, "/api/health") || path_matches_public_entry(
        path,
        "/api/auth/login",
    ) || path_matches_public_entry(path, "/api/auth/callback") || path_matches_public_entry(
        path,
        "/api/auth/oidc/callback",
    ) || path_matches_public_entry(path, "/api/auth/logout") || same(path, "/login") || same(
        path,
        "/pwd",
    ) || same(path, "/welcome")
}

/// The request is an upload that carries the PicGo key. Without a key in the
/// settings there is none to carry.
pub open spec fn has_upload_key(
    method: Seq<char>,
    path: Seq<char>,
    headers: RequestHeaders,
    key: Option<Seq<char>>,
) -> bool {
    &&& method == "POST"@
    &&& path == "/api/upload"@
    &&& key is Some
    &&& key->0.len() > 0
    &&& headers.x_api_key.value() == key
}

/// Whether the request is an upload that carries the PicGo key.
pub fn upload_key_matches(
    method: &str,
    path: &str,
    headers: &RequestHeaders,
    picgo_api_key: Option<&str>,
) -> (r: bool)
    ensures
        r == has_upload_key(method@, path@, *headers, opt_str_view(picgo_api_key)),
{
    match picgo_api_key {
        Some(key) => match headers.x_api_key.text() {
            Some(given) => !key.is_empty() && same(given.as_str(), key) && same(method, "POST")
                && same(path, "/api/upload"),
            None => false,
        },
        None => false,
    }
}

/// What happens to a request before its route.
#[derive(Debug)]
pub enum Access {
    /// It comes from another site and is refused.
    Reject(HttpError),
    /// It goes to its route.
    Pass,
    /// It carries this session token, which has to be looked up.
    CheckSession { token: String },
    /// It is turned away.
    Deny(Denial),
}

/// What an `Access` says.
pub enum AccessView {
    Reject(HttpErrorView),
    Pass,
    CheckSession { token: Seq<char> },
    Deny(DenialView),
}

impl View for Access {
    type V = AccessView;

    open spec fn view(&self) -> AccessView {
        match self {
            Access::Reject(e) => AccessView::Reject(e@),
            Access::Pass => AccessView::Pass,
            Access::CheckSession { token } => AccessView::CheckSession { token: token@ },
            Access::Deny(d) => AccessView::Deny(d@),
        }
    }
}

/// What happens to a request before its route, given whether users can log in
/// and the PicGo key.
pub open spec fn access(
    method: Seq<char>,
    path: Seq<char>,
    headers: RequestHeaders,
    oidc_configured: bool,
    key: Option<Seq<char>>,
) -> AccessView {
    if !only_reads(method) && !same_origin(headers) {
        AccessView::Reject(csrf_refusal())
    } else if is_open(path) {
        AccessView::Pass
    } else if !oidc_configured {
        if path == "/"@ || path == "/api/app-config"@ {
            AccessView::Pass
        } else {
            AccessView::Deny(denial(path, accepts_html(headers)))
        }
    } else if has_upload_key(method, path, headers, key) {
        AccessView::Pass
    } else {
        match cookie_of(headers, COOKIE_NAME@) {
            Some(token) => if token.len() > 0 {
                AccessView::CheckSession { token }
            } else {
                AccessView::Deny(denial(path, accepts_html(headers)))
            },
            None => AccessView::Deny(denial(path, accepts_html(headers))),
        }
    }
}

/// What happens to a request before its route. As long as users cannot log
/// in, only the front page and the reading of the configuration are added to
/// what is open to everyone.
pub fn auth_middleware(
    method: &str,
    path: &str,
    headers: &RequestHeaders,
    oidc_configured: bool,
    picgo_api_key: Option<&str>,
) -> (r: Access)
    ensures
        r@ == access(method@, path@, *headers, oidc_configured, opt_str_view(picgo_api_key)),
{
    if is_state_changing(method) && !csrf_origin_allowed(headers) {
        return Access::Reject(reject_csrf());
    }
    if is_public_path(path) {
        return Access::Pass;
    }
    if !oidc_configured {
        if same(path, "/") || same(path, "/api/app-config") {
            return Access::Pass;
        }
        return Access::Deny(redirect_or_401(path, wants_html(headers)));
    }
    if upload_key_matches(method, path, headers, picgo_api_key) {
        return Access::Pass;
    }
    match extract_cookie(headers, COOKIE_NAME) {
        Some(token) => {
            if token.as_str().is_empty() {
                Access::Deny(redirect_or_401(path, wants_html(headers)))
            } else {
                Access::CheckSession { token }
            }
        },
        None => Access::Deny(redirect_or_401(path, wants_html(headers))),
    }
}

/// The answer to a request with a session carries its cookie anew: when a
/// page is loaded and when the API is only read. Pages and readings are
/// frequent enough to keep the cookie fresh; a call that changes something
/// leaves it alone.
pub open spec fn refreshes(method: Seq<char>, path: Seq<char>) -> bool {
    !begins(path, "/api/"@) || method == "GET"@ || method == "HEAD"@
}

/// Whether the answer to a request with a session carries its cookie anew.
pub fn refreshes_cookie(method: &str, path: &str) -> (r: bool)
    ensures
        r == refreshes(method@, path@),
{
    !starts_with(path, "/api/") || same(method, "GET") || same(method, "HEAD")
}

/// What happens to a request once its session was looked up.
#[derive(Debug)]
pub enum SessionAccess {
    /// It goes to its route, and its answer carries this cookie, if any.
    Pass { set_cookie: Option<String> },
    /// It is turned away.
    Deny(Denial),
}

/// What a `SessionAccess` says.
pub enum SessionAccessView {
    Pass { set_cookie: Option<Seq<char>> },
    Deny(DenialView),
}

impl View for SessionAccess {
    type V = SessionAccessView;

    open spec fn view(&self) -> SessionAccessView {
        match self {
            SessionAccess::Pass { set_cookie } => SessionAccessView::Pass {
                set_cookie: opt_view(*set_cookie),
            },
            SessionAccess::Deny(d) => SessionAccessView::Deny(d@),
        }
    }
}

/// What happens to a request whose session token was looked up.
pub open spec fn session_access(
    method: Seq<char>,
    path: Seq<char>,
    headers: RequestHeaders,
    token: Seq<char>,
    found: bool,
    policy: CookiePolicy,
) -> SessionAccessView {
    if found {
        SessionAccessView::Pass {
            set_cookie: if refreshes(method, path) {
                Some(cookie_text(token, over_https(headers), policy))
            } else {
                None
            },
        }
    } else {
        SessionAccessView::Deny(denial(path, accepts_html(headers)))
    }
}

/// What happens to a request whose session token was looked up. The cookie
/// slides: it is issued anew on page loads and on readings of the API, so
/// that its age begins again.
pub fn check_session(
    method: &str,
    path: &str,
    headers: &RequestHeaders,
    token: &str,
    found: bool,
    policy: &CookiePolicy,
) -> (r: SessionAccess)
    ensures
        r@ == session_access(method@, path@, *headers, token@, found, *policy),
{
    if found {
        let set_cookie: Option<String> = if refreshes_cookie(method, path) {
            Some(build_cookie(token, is_https(headers), policy))
        } else {
            None
        };
        SessionAccess::Pass { set_cookie }
    } else {
        SessionAccess::Deny(redirect_or_401(path, wants_html(headers)))
    }
}

/// A call of the API that may change something sets no session cookie beside
/// what its route sets. So a route that clears the cookie, as a reset of the
/// settings does, logs the user out.
pub proof fn writes_of_the_api_leave_the_cookie(
    method: Seq<char>,
    path: Seq<char>,
    headers: RequestHeaders,
    token: Seq<char>,
    found: bool,
    policy: CookiePolicy,
)
    requires
        !only_reads(method),
        begins(path, "/api/"@),
    ensures
        match session_access(method, path, headers, token, found, policy) {
            SessionAccessView::Pass { set_cookie } => found && set_cookie is None,
            SessionAccessView::Deny(_) => !found,
        },
{
}

/// Who comes back before the age of the session is over is let through, for
/// ever: if a session begins at `start`, and each of the requests at the times
/// `visits` and the one at `now` follow the one before in less than that age,
/// then the request at `now` reaches its route. Given is that the table of
/// sessions finds a session as `session_found` describes.
pub proof fn visitors_stay_logged_in(
    method: Seq<char>,
    path: Seq<char>,
    headers: RequestHeaders,
    key: Option<Seq<char>>,
    token: Seq<char>,
    start: int,
    visits: Seq<int>,
    now: int,
    policy: CookiePolicy,
)
    requires
        only_reads(method) || same_origin(headers),
        !is_open(path),
        !has_upload_key(method, path, headers, key),
        token.len() > 0,
        cookie_of(headers, COOKIE_NAME@) == Some(token),
        policy.max_age_secs > 0,
        visits.len() > 0 ==> visits[0] < start + policy.max_age_secs,
        forall|i: int|
            0 < i < visits.len() ==> #[trigger] visits[i] < visits[i - 1] + policy.max_age_secs,
        now < (if visits.len() > 0 {
            visits.last()
        } else {
            start
        }) + policy.max_age_secs,
    ensures
        access(method, path, headers, true, key) == (AccessView::CheckSession { token }),
        session_access(
            method,
            path,
            headers,
            token,
            session_found(
                start + policy.max_age_secs,
                visits,
                policy.max_age_secs as int,
                now,
            ),
            policy,
        ) is Pass,
{
    visits_keep_a_session_alive(start, visits, policy.max_age_secs as int);
}

/// A request that changes something and does not come from a page of this
/// site is refused, wherever it goes and whatever it carries.
pub proof fn writes_from_other_sites_are_refused(
    method: Seq<char>,
    path: Seq<char>,
    headers: RequestHeaders,
    oidc_configured: bool,
    key: Option<Seq<char>>,
)
    requires
        !only_reads(method),
        !same_origin(headers),
    ensures
        access(method, path, headers, oidc_configured, key) == AccessView::Reject(csrf_refusal()),
{
}

/// A request whose origin is not the site's own is no request of the site,
/// whatever page it names.
pub proof fn foreign_origins_are_not_ours(headers: RequestHeaders, own: Seq<char>, origin: Seq<char>)
    requires
        own_origin(headers) == Some(own),
        headers.origin.value() == Some(origin),
        web_origin(origin) != Some(own),
    ensures
        !same_origin(headers),
{
}

/// Shared content is open to every request that reads, with or without a
/// session, and whether or not users can log in.
pub proof fn shared_content_is_open(
    method: Seq<char>,
    path: Seq<char>,
    headers: RequestHeaders,
    oidc_configured: bool,
    key: Option<Seq<char>>,
)
    requires
        only_reads(method),
        is_shared(path),
    ensures
        access(method, path, headers, oidc_configured, key) == AccessView::Pass,
{
}

/// Where users can log in, a request goes to a path that is not open to
/// everyone only by its session or, for uploads, by the PicGo key.
pub proof fn closed_paths_need_a_session(
    method: Seq<char>,
    path: Seq<char>,
    headers: RequestHeaders,
    key: Option<Seq<char>>,
)
    requires
        !is_open(path),
        !has_upload_key(method, path, headers, key),
    ensures
        access(method, path, headers, true, key) != AccessView::Pass,
        access(method, path, headers, true, key) is CheckSession ==> cookie_of(
            headers,
            COOKIE_NAME@,
        ) == Some(access(method, path, headers, true, key)->token),
{
}

/// As long as users cannot log in, nothing that is closed can be reached but
/// the front page and the configuration; above all no session and no key
/// opens anything.
pub proof fn first_run_opens_two_pages(
    method: Seq<char>,
    path: Seq<char>,
    headers: RequestHeaders,
    key: Option<Seq<char>>,
)
    requires
        !is_open(path),
        path != "/"@,
        path != "/api/app-config"@,
    ensures
        access(method, path, headers, false, key) is Reject || access(
            method,
            path,
            headers,
            false,
            key,
        ) is Deny,
{
}

/// A client of the API is never led to the login page.
pub proof fn api_clients_are_not_redirected(path: Seq<char>, html: bool)
    requires
        begins(path, "/api/"@),
    ensures
        denial(path, html) is Error,
{
}

/// A visible ASCII character, as a header may hold it.
pub open spec fn is_visible(c: char) -> bool {
    '!' <= c <= '~'
}

/// Percent-encoding leaves visible ASCII characters alone, and no ampersand
/// or slash, so that it stands in a header and in a query.
pub proof fn encoded_text_is_plain(bytes: Seq<u8>)
    ensures
        forall|i: int|
            0 <= i < percent_bytes(bytes).len() ==> is_visible(#[trigger] percent_bytes(bytes)[i])
                && percent_bytes(bytes)[i] != '&' && percent_bytes(bytes)[i] != '/',
    decreases bytes.len(),
{
    if bytes.len() > 0 {
        encoded_text_is_plain(bytes.drop_last());
        let rest = percent_bytes(bytes.drop_last());
        let b = bytes.last();
        let last = percent_byte(b);
        assert forall|i: int| 0 <= i < percent_bytes(bytes).len() implies is_visible(
            #[trigger] percent_bytes(bytes)[i],
        ) && percent_bytes(bytes)[i] != '&' && percent_bytes(bytes)[i] != '/' by {
            if i < rest.len() {
                assert(percent_bytes(bytes)[i] == rest[i]);
            } else {
                assert(percent_bytes(bytes)[i] == last[i - rest.len()]);
            }
        }
    }
}

proof fn lemma_percent_front(b: u8, bytes: Seq<u8>)
    ensures
        percent_bytes(seq![b] + bytes) == percent_byte(b) + percent_bytes(bytes),
    decreases bytes.len(),
{
    let all = seq![b] + bytes;
    if bytes.len() == 0 {
        assert(all.drop_last() =~= Seq::<u8>::empty());
        assert(percent_bytes(all.drop_last()) =~= Seq::<char>::empty());
        assert(percent_bytes(all) =~= percent_byte(b) + percent_bytes(bytes));
    } else {
        lemma_percent_front(b, bytes.drop_last());
        assert(all.drop_last() =~= seq![b] + bytes.drop_last());
        assert(percent_bytes(all) =~= percent_byte(b) + percent_bytes(bytes));
    }
}

proof fn lemma_percent_byte(a: u8, b: u8, x: Seq<char>, y: Seq<char>)
    requires
        percent_byte(a) + x == percent_byte(b) + y,
    ensures
        a == b,
        x == y,
{
    let s = percent_byte(a) + x;
    assert(s[0] == percent_byte(a)[0]);
    assert(s[0] == percent_byte(b)[0]);
    if percent_byte(a).len() == 3 && percent_byte(b).len() == 3 {
        assert(s[1] == percent_byte(a)[1]);
        assert(s[1] == percent_byte(b)[1]);
        assert(s[2] == percent_byte(a)[2]);
        assert(s[2] == percent_byte(b)[2]);
    }
    assert(a == b);
    let n = percent_byte(a).len() as int;
    assert(x =~= s.skip(n));
    assert(y =~= (percent_byte(b) + y).skip(n));
}

/// Percent-encoding loses nothing: different bytes are encoded differently.
/// So a login leads back to the page that was asked for, and the links of two
/// files are those of one file only if their names are the same.
pub proof fn encoded_text_is_unique(a: Seq<u8>, b: Seq<u8>)
    requires
        percent_bytes(a) == percent_bytes(b),
    ensures
        a == b,
    decreases a.len(),
{
    if a.len() == 0 {
        if b.len() > 0 {
            assert(b =~= seq![b[0]] + b.drop_first());
            lemma_percent_front(b[0], b.drop_first());
            assert(percent_bytes(b).len() > 0);
        }
        assert(a =~= b);
    } else if b.len() == 0 {
        assert(a =~= seq![a[0]] + a.drop_first());
        lemma_percent_front(a[0], a.drop_first());
        assert(percent_bytes(a).len() > 0);
    } else {
        let x = a.drop_first();
        let y = b.drop_first();
        assert(a =~= seq![a[0]] + x);
        assert(b =~= seq![b[0]] + y);
        lemma_percent_front(a[0], x);
        lemma_percent_front(b[0], y);
        lemma_percent_byte(a[0], b[0], percent_bytes(x), percent_bytes(y));
        encoded_text_is_unique(x, y);
    }
}

/// A cookie as a browser sends it back.
spec fn session_pair(token: Seq<char>) -> Seq<char> {
    COOKIE_NAME@ + "="@ + token
}

/// `pair` is one part of a cookie header, and gives the token.
spec fn is_part_for(pair: Seq<char>, token: Seq<char>) -> bool {
    &&& !pair.contains(';')
    &&& pair.len() > 0
    &&& !is_space(pair[0])
    &&& trimmed(pair) == pair
    &&& pair.contains('=')
    &&& before(pair, '=') == COOKIE_NAME@
    &&& behind(pair, '=') == token
}

proof fn lemma_session_pair(token: Seq<char>)
    requires
        !token.contains(';'),
        token.len() > 0 ==> !is_space(token.last()),
    ensures
        is_part_for(session_pair(token), token),
{
    reveal_strlit("tgstate_session");
    reveal_strlit("=");
    let name = COOKIE_NAME@;
    let pair = session_pair(token);
    assert forall|j: int| 0 <= j < pair.len() implies pair[j] != ';' by {
        if j > name.len() {
            assert(pair[j] == token[j - name.len() - 1]);
            assert(token.contains(token[j - name.len() - 1]));
        }
    }
    assert(pair[0] == 't');
    if token.len() > 0 {
        assert(pair.last() == token.last());
    } else {
        assert(pair.last() == '=');
    }
    lemma_trim_nothing(pair);
    assert(pair[name.len() as int] == '=');
    assert(pair.contains('='));
    lemma_next_char_is(pair, '=', 0, name.len() as int);
    assert(before(pair, '=') =~= name);
    assert(behind(pair, '=') =~= token);
}

proof fn lemma_cookie_keeps_pair(token: Seq<char>, is_https: bool, policy: CookiePolicy)
    requires
        !session_pair(token).contains(';'),
    ensures
        before(cookie_text(token, is_https, policy), ';') == session_pair(token),
{
    reveal_strlit("; HttpOnly; SameSite=Strict; Path=/; Max-Age=");
    let pair = session_pair(token);
    let n = pair.len() as int;
    let whole = cookie_text(token, is_https, policy);
    assert(whole[n] == ';');
    assert forall|j: int| 0 <= j < n implies whole[j] != ';' by {
        assert(whole[j] == pair[j]);
        assert(pair.contains(pair[j]));
    }
    lemma_next_char_is(whole, ';', 0, n);
    assert(before(whole, ';') =~= pair);
}

proof fn lemma_lone_part(pair: Seq<char>, token: Seq<char>)
    requires
        is_part_for(pair, token),
    ensures
        cookie_in(pair, COOKIE_NAME@) == Some(token),
{
    assert forall|j: int| 0 <= j < pair.len() implies pair[j] != ';' by {
        assert(pair.contains(pair[j]));
    }
    lemma_next_char_none(pair, ';', 0);
    assert(pair.subrange(0, pair.len() as int) =~= pair);
    assert(pieces(pair, ';') =~= seq![pair]);
}

proof fn lemma_second_part(other: Seq<char>, pair: Seq<char>)
    requires
        !other.contains(';'),
        !pair.contains(';'),
        pair.len() > 0,
        !is_space(pair[0]),
    ensures
        pieces(other + "; "@ + pair, ';') == seq![other, seq![' '] + pair],
        trimmed(seq![' '] + pair) == trimmed(pair),
{
    reveal_strlit("; ");
    let header = other + "; "@ + pair;
    let m = other.len() as int;
    assert(header[m] == ';');
    assert forall|j: int| 0 <= j < m implies header[j] != ';' by {
        assert(header[j] == other[j]);
        assert(other.contains(other[j]));
    }
    lemma_next_char_is(header, ';', 0, m);
    assert(header.subrange(0, m) =~= other);
    assert forall|j: int| m + 1 <= j < header.len() implies header[j] != ';' by {
        if j > m + 1 {
            assert(header[j] == pair[j - m - 2]);
            assert(pair.contains(pair[j - m - 2]));
        }
    }
    lemma_next_char_none(header, ';', m + 1);
    let spaced = seq![' '] + pair;
    assert(header.subrange(m + 1, header.len() as int) =~= spaced);
    assert(split_from(header, ';', m + 1) =~= seq![spaced]);
    assert(pieces(header, ';') =~= seq![other, spaced]);
    assert(spaced.drop_first() =~= pair);
    assert(trim_front(pair) == pair);
}

/// The session cookie reads back: what a browser keeps of a cookie that was
/// set, sent back alone or behind another cookie, gives the token again.
pub proof fn session_cookies_read_back(
    token: Seq<char>,
    is_https: bool,
    policy: CookiePolicy,
    other: Seq<char>,
)
    requires
        !token.contains(';'),
        token.len() > 0 ==> !is_space(token.last()),
        !other.contains(';'),
        !(trimmed(other).contains('=') && before(trimmed(other), '=') == COOKIE_NAME@),
    ensures
        ({
            let pair = before(cookie_text(token, is_https, policy), ';');
            &&& cookie_in(pair, COOKIE_NAME@) == Some(token)
            &&& cookie_in(other + "; "@ + pair, COOKIE_NAME@) == Some(token)
        }),
{
    let pair = session_pair(token);
    lemma_session_pair(token);
    lemma_cookie_keeps_pair(token, is_https, policy);
    lemma_lone_part(pair, token);
    lemma_second_part(other, pair);
    let parts = seq![other, seq![' '] + pair];
    assert(parts.drop_first() =~= seq![seq![' '] + pair]);
    assert(cookie_among(parts.drop_first(), COOKIE_NAME@) == Some(token));
    assert(cookie_among(parts, COOKIE_NAME@) == Some(token));
}

/// A request accepts HTML if `text/html` stands anywhere in what it accepts.
pub proof fn pages_are_asked_for_anywhere(headers: RequestHeaders)
    ensures
        accepts_html(headers) <==> (headers.accept matches HeaderField::Text(v) && exists|
            a: Seq<char>,
            b: Seq<char>,
        |
            v@ == #[trigger] (a + "text/html"@ + b)),
        over_https(headers) <==> (headers.x_forwarded_proto matches HeaderField::Text(v) && v@
            == "https"@),
{
    if headers.accept is Text {
        what_is_held_is_inside(headers.accept->0@, "text/html"@);
    }
}

/// `path` is `front` with something, or nothing, behind it.
pub open spec fn leads(front: Seq<char>, path: Seq<char>) -> bool {
    exists|rest: Seq<char>| path == #[trigger] (front + rest)
}

/// A path lies under an entry if it is the entry, or the entry, a slash and
/// more. Only the front page lies under `/`.
pub proof fn paths_lie_under_their_entries(path: Seq<char>, entry: Seq<char>)
    requires
        entry.len() > 0,
    ensures
        entry.last() != '/' ==> (lies_under(path, entry) <==> path == entry || leads(
            entry + seq!['/'],
            path,
        )),
        entry.last() == '/' && entry.len() > 1 ==> (lies_under(path, entry) <==> leads(
            entry,
            path,
        )),
        entry.last() == '/' && entry.len() == 1 ==> (lies_under(path, entry) <==> path
            == seq!['/']),
{
    reveal_strlit("/");
    assert("/"@ =~= seq!['/']);
    endings_are_behind(entry, "/"@);
    if entry.last() == '/' {
        assert(entry =~= entry.drop_last() + "/"@);
        if entry.len() == 1 {
            assert(entry =~= "/"@);
        }
        beginnings_are_in_front(path, entry);
    } else {
        if ends(entry, "/"@) {
            let rest = choose|rest: Seq<char>| entry == #[trigger] (rest + "/"@);
            assert(entry.last() == '/');
        }
        beginnings_are_in_front(path, entry + "/"@);
    }
}

/// The paths that are open to everyone: the files of the site, shared content
/// and what a login needs. There are no others.
pub proof fn these_paths_are_open(path: Seq<char>)
    ensures
        is_open(path) <==> {
            ||| leads("/static/"@, path)
            ||| leads("/assets/"@, path)
            ||| leads("/favicon"@, path)
            ||| leads("/robots.txt"@, path)
            ||| leads("/d/"@, path)
            ||| leads("/share/"@, path)
            ||| path == "/api/health"@ || leads("/api/health"@ + seq!['/'], path)
            ||| path == "/api/auth/login"@ || leads("/api/auth/login"@ + seq!['/'], path)
            ||| path == "/api/auth/callback"@ || leads("/api/auth/callback"@ + seq!['/'], path)
            ||| path == "/api/auth/oidc/callback"@ || leads(
                "/api/auth/oidc/callback"@ + seq!['/'],
                path,
            )
            ||| path == "/api/auth/logout"@ || leads("/api/auth/logout"@ + seq!['/'], path)
            ||| path == "/login"@
            ||| path == "/pwd"@
            ||| path == "/welcome"@
        },
{
    beginnings_are_in_front(path, "/static/"@);
    beginnings_are_in_front(path, "/assets/"@);
    beginnings_are_in_front(path, "/favicon"@);
    beginnings_are_in_front(path, "/robots.txt"@);
    beginnings_are_in_front(path, "/d/"@);
    beginnings_are_in_front(path, "/share/"@);
    reveal_strlit("/api/health");
    reveal_strlit("/api/auth/login");
    reveal_strlit("/api/auth/callback");
    reveal_strlit("/api/auth/oidc/callback");
    reveal_strlit("/api/auth/logout");
    paths_lie_under_their_entries(path, "/api/health"@);
    paths_lie_under_their_entries(path, "/api/auth/login"@);
    paths_lie_under_their_entries(path, "/api/auth/callback"@);
    paths_lie_under_their_entries(path, "/api/auth/oidc/callback"@);
    paths_lie_under_their_entries(path, "/api/auth/logout"@);
}

/// The methods that only read are these four, and every other may change
/// something.
pub proof fn four_methods_only_read(method: Seq<char>)
    ensures
        only_reads(method) <==> seq!["GET"@, "HEAD"@, "OPTIONS"@, "TRACE"@].contains(method),
{
    let all = seq!["GET"@, "HEAD"@, "OPTIONS"@, "TRACE"@];
    assert(all[0] == "GET"@ && all[1] == "HEAD"@ && all[2] == "OPTIONS"@ && all[3] == "TRACE"@);
    if all.contains(method) {
        let i = choose|i: int| 0 <= i < all.len() && all[i] == method;
        assert(i == 0 || i == 1 || i == 2 || i == 3);
    }
}

/// The origin of the site is scheme and host of the request, as the client
/// used them. A request without a host has none.
pub proof fn origins_are_scheme_and_host(headers: RequestHeaders)
    ensures
        host_of(headers) is None ==> own_origin(headers) is None && !same_origin(headers),
        host_of(headers) matches Some(host) ==> own_origin(headers) == Some(
            (if headers.x_forwarded_proto matches HeaderField::Text(v) && first_listed(v@)
                == "https"@ {
                "https://"@
            } else {
                "http://"@
            }) + host,
        ),
{
    schemes_of_clients(headers);
    reveal_strlit("http");
    reveal_strlit("https");
    reveal_strlit("://");
    reveal_strlit("http://");
    reveal_strlit("https://");
    assert("http"@ + "://"@ =~= "http://"@);
    assert("https"@ + "://"@ =~= "https://"@);
}

/// An origin with white space around it and slashes behind it is the origin,
/// if it is one of the web; what is none of the web is no origin.
pub proof fn origins_are_cut_to_size(a: Seq<char>, origin: Seq<char>, slashes: nat, b: Seq<char>)
    requires
        all_space(a),
        all_space(b),
        origin.len() > 0,
        !is_space(origin[0]),
        !is_space(origin.last()),
        origin.last() != '/',
    ensures
        leads("http://"@, origin) || leads("https://"@, origin) ==> web_origin(
            a + (origin + repeated('/', slashes)) + b,
        ) == Some(origin),
        !leads("http://"@, origin) && !leads("https://"@, origin) ==> web_origin(
            a + (origin + repeated('/', slashes)) + b,
        ) is None,
{
    let s = origin + repeated('/', slashes);
    assert(s[0] == origin[0]);
    if slashes > 0 {
        assert(s.last() == '/');
    } else {
        assert(s =~= origin);
    }
    trimming_gives_the_text(a, s, b);
    trailing_characters_go(origin, '/', slashes);
    beginnings_are_in_front(origin, "http://"@);
    beginnings_are_in_front(origin, "https://"@);
}

proof fn lemma_no_mark_before(scheme: Seq<char>, rest: Seq<char>)
    requires
        scheme == "http"@ || scheme == "https"@,
    ensures
        find_from(scheme + "://"@ + rest, "://"@, 0) == Some(scheme.len() as int),
{
    reveal_strlit("http");
    reveal_strlit("https");
    reveal_strlit("://");
    let v = scheme + "://"@ + rest;
    let n = scheme.len() as int;
    assert(v.subrange(n, n + 3) =~= "://"@);
    assert(occurs_at(v, "://"@, n));
    lemma_find_from(v, "://"@, 0);
    let i = find_from(v, "://"@, 0)->0;
    if i < n {
        assert(v.subrange(i, i + 3)[0] == v[i]);
        assert(v[i] == scheme[i]);
    }
}

/// The origin of a page is the part of its address before the first slash
/// behind the scheme, whatever follows.
pub proof fn origins_of_pages(
    a: Seq<char>,
    scheme: Seq<char>,
    host: Seq<char>,
    page: Seq<char>,
    b: Seq<char>,
)
    requires
        all_space(a),
        all_space(b),
        scheme == "http"@ || scheme == "https"@,
        host.len() > 0,
        !host.contains('/'),
        !is_space(host.last()),
        page.len() > 0 ==> page[0] == '/' && !is_space(page.last()),
    ensures
        page_origin(a + (scheme + "://"@ + host + page) + b) == Some(scheme + "://"@ + host),
{
    reveal_strlit("http");
    reveal_strlit("https");
    reveal_strlit("://");
    reveal_strlit("http://");
    reveal_strlit("https://");
    let own = scheme + "://"@ + host;
    let v = own + page;
    let n = scheme.len() as int + 3;
    assert(v[0] == 'h');
    assert(own.last() == host.last());
    assert(host.contains(host.last()));
    if page.len() > 0 {
        assert(v.last() == page.last());
    } else {
        assert(v.last() == host.last());
    }
    trimming_gives_the_text(a, v, b);
    assert(v =~= scheme + "://"@ + (host + page));
    lemma_no_mark_before(scheme, host + page);
    assert forall|j: int| n <= j < own.len() implies v[j] != '/' by {
        assert(v[j] == host[j - n]);
        assert(host.contains(host[j - n]));
    }
    if page.len() > 0 {
        assert(v[own.len() as int] == '/');
        lemma_next_char_is(v, '/', n, own.len() as int);
    } else {
        lemma_next_char_none(v, '/', n);
    }
    assert(v.subrange(0, own.len() as int) =~= own);
    assert(Seq::<char>::empty() + (own + repeated('/', 0)) + Seq::<char>::empty() =~= own);
    if scheme == "http"@ {
        assert(own =~= "http://"@ + host);
    } else {
        assert(own =~= "https://"@ + host);
    }
    assert(leads("http://"@, own) || leads("https://"@, own));
    origins_are_cut_to_size(Seq::empty(), own, 0, Seq::empty());
}

/// A page of the site may change something: its requests name the site as
/// their origin, or the page as the one they come from. So may a client that
/// names neither.
pub proof fn own_pages_may_write(headers: RequestHeaders, host: Seq<char>, page: Seq<char>)
    requires
        host_of(headers) == Some(host),
        host.len() > 0,
        !host.contains('/'),
        !is_space(host.last()),
        page.len() > 0 ==> page[0] == '/' && !is_space(page.last()),
    ensures
        headers.origin matches HeaderField::Text(o) && Some(o@) == own_origin(headers)
            ==> same_origin(headers),
        !(headers.origin is Text) && (headers.referer matches HeaderField::Text(p) && p@
            == own_origin(headers)->0 + page) ==> same_origin(headers),
        !(headers.origin is Text) && !(headers.referer is Text) ==> same_origin(headers),
{
    schemes_of_clients(headers);
    reveal_strlit("http");
    reveal_strlit("https");
    reveal_strlit("://");
    reveal_strlit("http://");
    reveal_strlit("https://");
    let scheme = proto_of(headers);
    let own = scheme + "://"@ + host;
    let none = Seq::<char>::empty();
    origins_of_pages(none, scheme, host, page, none);
    assert(none + (own + page) + none =~= own + page);
    assert(own[0] == 'h');
    assert(own.last() == host.last());
    assert(host.contains(host.last()));
    if scheme == "http"@ {
        assert(own =~= "http://"@ + host);
    } else {
        assert(own =~= "https://"@ + host);
    }
    assert(leads("http://"@, own) || leads("https://"@, own));
    origins_are_cut_to_size(none, own, 0, none);
    assert(none + (own + repeated('/', 0)) + none =~= own);
}

/// A request that may change something names no other origin than that of the
/// site, with at most white space and slashes around it.
pub proof fn only_own_origins_may_write(headers: RequestHeaders, origin: Seq<char>)
    requires
        headers.origin.value() == Some(origin),
        same_origin(headers),
    ensures
        exists|a: Seq<char>, own: Seq<char>, slashes: nat, b: Seq<char>|
            own_origin(headers) == Some(own) && all_space(a) && all_space(b) && origin
                == #[trigger] (a + (own + repeated('/', slashes)) + b),
{
    let own = own_origin(headers)->0;
    trimming_cuts_white_space_alone(origin);
    let t = trimmed(origin);
    let (a, b) = choose|a: Seq<char>, b: Seq<char>|
        all_space(a) && all_space(b) && origin == #[trigger] (a + t + b);
    let n = lemma_slashes_behind(t);
    assert(origin == a + (own + repeated('/', n)) + b);
}

proof fn lemma_slashes_behind(s: Seq<char>) -> (n: nat)
    ensures
        s == without_trailing(s, '/') + repeated('/', n),
    decreases s.len(),
{
    if s.len() > 0 && s.last() == '/' {
        let n = lemma_slashes_behind(s.drop_last());
        assert(without_trailing(s, '/') == without_trailing(s.drop_last(), '/'));
        assert(repeated('/', n + 1) =~= repeated('/', n).push('/'));
        assert(s =~= s.drop_last().push('/'));
        assert(s =~= without_trailing(s, '/') + repeated('/', n + 1));
        n + 1
    } else {
        assert(s =~= s + repeated('/', 0));
        0
    }
}

/// A request that may change something and names only the page that it comes
/// from names one of the site: its address is the origin of the site, with
/// nothing behind it or a slash or white space.
pub proof fn only_own_pages_may_write(headers: RequestHeaders, page: Seq<char>)
    requires
        !(headers.origin is Text),
        headers.referer.value() == Some(page),
        same_origin(headers),
    ensures
        own_origin(headers) matches Some(own) && leads(own, trimmed(page)) && (trimmed(page).len()
            > own.len() ==> trimmed(page)[own.len() as int] == '/' || is_space(
            trimmed(page)[own.len() as int],
        )),
{
    reveal_strlit("://");
    let own = own_origin(headers)->0;
    let v = trimmed(page);
    lemma_trimmed(page);
    lemma_find_from(v, "://"@, 0);
    let i = find_from(v, "://"@, 0)->0;
    lemma_next_char(v, '/', i + 3);
    let e = next_char(v, '/', i + 3);
    let s = v.subrange(0, e);
    trimming_cuts_white_space_alone(s);
    let t = trimmed(s);
    let (a, b) = choose|a: Seq<char>, b: Seq<char>|
        all_space(a) && all_space(b) && s == #[trigger] (a + t + b);
    if a.len() > 0 {
        assert(is_space(a[0]));
        assert(s[0] == a[0]);
        assert(v[0] == s[0]);
    }
    let n = lemma_slashes_behind(t);
    assert(t == own + repeated('/', n));
    assert(v =~= own + v.skip(own.len() as int)) by {
        assert forall|j: int| 0 <= j < own.len() implies v[j] == own[j] by {
            assert(s[j] == t[j]);
            assert(t[j] == own[j]);
        }
    }
    let m = own.len() as int;
    if v.len() > m {
        if m < t.len() {
            assert(t[m] == '/');
            assert(s[m] == t[m]);
        } else if m < e {
            assert(s[m] == b[m - t.len()]);
            assert(is_space(b[m - t.len()]));
        }
    }
}

/// A request without a session is led to the login page if it is one of a
/// browser for a page, and the page that it asked for stands in the address;
/// every other gets an error.
pub proof fn browsers_are_led_to_the_login(path: Seq<char>, html: bool)
    ensures
        html && !leads("/api/"@, path) ==> denial(path, html) == (DenialView::Login {
            location: "/login?next="@ + percent_bytes(encode_utf8(path)),
        }),
        !html || leads("/api/"@, path) ==> (denial(path, html) matches DenialView::Error(e)
            && e.status == 401 && e.code == "unauthorized"@ && e.message == "需要登录"@),
{
    beginnings_are_in_front(path, "/api/"@);
}

/// A request that only reads, or comes from the site, reaches what is open to
/// everyone; without a way to log in it also reaches the front page and the
/// configuration. A request that may change something and comes from
/// elsewhere is refused.
pub proof fn open_paths_are_reached(
    method: Seq<char>,
    path: Seq<char>,
    headers: RequestHeaders,
    oidc_configured: bool,
    key: Option<Seq<char>>,
)
    ensures
        ({
            let r = access(method, path, headers, oidc_configured, key);
            let reads = method == "GET"@ || method == "HEAD"@ || method == "OPTIONS"@ || method
                == "TRACE"@;
            &&& is_open(path) && (reads || same_origin(headers)) ==> r == AccessView::Pass
            &&& !oidc_configured && (path == "/"@ || path == "/api/app-config"@) && (reads
                || same_origin(headers)) ==> r == AccessView::Pass
            &&& r is Reject <==> !reads && !same_origin(headers)
            &&& r matches AccessView::Reject(e) ==> e.status == 403 && e.code == "csrf_failed"@
                && e.message == "请求来源不匹配"@
        }),
{
}

/// Where users can log in, an upload of the site or of a client that is no
/// browser passes by the key of the settings; a missing or an empty key is
/// none, and no other request passes by it.
pub proof fn uploads_pass_by_the_key(
    method: Seq<char>,
    path: Seq<char>,
    headers: RequestHeaders,
    key: Option<Seq<char>>,
)
    requires
        !is_open(path),
        same_origin(headers),
    ensures
        access(method, path, headers, true, key) == AccessView::Pass <==> method == "POST"@ && path
            == "/api/upload"@ && (headers.x_api_key matches HeaderField::Text(given) && given@.len()
            > 0 && Some(given@) == key),
{
}

/// Where users can log in, a request for what is closed is looked up by the
/// session cookie that it carries, and turned away if it carries none or an
/// empty one.
pub proof fn closed_paths_ask_for_the_session(
    method: Seq<char>,
    path: Seq<char>,
    headers: RequestHeaders,
    key: Option<Seq<char>>,
)
    requires
        !is_open(path),
        !has_upload_key(method, path, headers, key),
        only_reads(method) || same_origin(headers),
    ensures
        ({
            let r = access(method, path, headers, true, key);
            let cookie = cookie_of(headers, "tgstate_session"@);
            &&& cookie is Some && cookie->0.len() > 0 ==> r == (AccessView::CheckSession {
                token: cookie->0,
            })
            &&& cookie is None || cookie->0.len() == 0 ==> r == AccessView::Deny(
                denial(path, accepts_html(headers)),
            )
        }),
{
}

/// A request with a session passes, and one whose session is gone is turned
/// away. Its answer carries the cookie anew unless it is a call of the API
/// that does more than read.
pub proof fn sessions_let_requests_pass(
    method: Seq<char>,
    path: Seq<char>,
    headers: RequestHeaders,
    token: Seq<char>,
    policy: CookiePolicy,
)
    ensures
        ({
            let fresh = cookie_text(
                token,
                headers.x_forwarded_proto matches HeaderField::Text(v) && v@ == "https"@,
                policy,
            );
            let read = method == "GET"@ || method == "HEAD"@;
            let pass = session_access(method, path, headers, token, true, policy);
            &&& read || !leads("/api/"@, path) ==> pass == (SessionAccessView::Pass {
                set_cookie: Some(fresh),
            })
            &&& !read && leads("/api/"@, path) ==> pass == (SessionAccessView::Pass {
                set_cookie: None,
            })
            &&& session_access(method, path, headers, token, false, policy)
                == SessionAccessView::Deny(denial(path, accepts_html(headers)))
        }),
{
    beginnings_are_in_front(path, "/api/"@);
}

} // verus!

//! Session tokens, session cookies, and where a login may lead.
use vstd::prelude::*;
use vstd::string::*;

use crate::config::EnvVars;
use crate::constants::SESSION_MAX_AGE_SECS;
use crate::decimal::decimal;
use crate::decimal::decimal_u64;
use crate::decimal::is_digit;
use crate::decimal::lemma_decimal;
use crate::decimal::number;
use crate::decimal::numbers_have_no_zeros_in_front;
use crate::decimal::parse_u32;
use crate::outside::hex_bytes;
use crate::outside::hex_encode;
use crate::outside::random_bytes;
use crate::text::all_space;
use crate::text::ascii_lower;
use crate::text::begins;
use crate::text::contains;
use crate::text::ends;
use crate::text::holds;
use crate::text::is_space;
use crate::text::join;
use crate::text::join3;
use crate::text::lemma_trimmed;
use crate::text::occurs_at;
use crate::text::opt_str_view;
use crate::text::same;
use crate::text::starts_with;
use crate::text::to_ascii_lowercase;
use crate::text::trim;
use crate::text::trimmed;
use crate::text::trimming_gives_the_text;

verus! {

/// The name of the session cookie.
pub const COOKIE_NAME: &'static str = "tgstate_session";

/// How long a login may take, in seconds.
pub const OIDC_LOGIN_STATE_TTL_SECS: i64 = 600;

/// The number of random bytes in a session token.
pub const SESSION_TOKEN_BYTES: usize = 32;

/// A lower-case hexadecimal digit.
pub open spec fn is_lower_hex(c: char) -> bool {
    ||| '0' <= c <= '9'
    ||| 'a' <= c <= 'f'
}

/// Hexadecimal text has two digits for each byte, all of them lower-case.
pub proof fn lemma_hex_bytes(bytes: Seq<u8>)
    ensures
        hex_bytes(bytes).len() == 2 * bytes.len(),
        forall|i: int| 0 <= i < hex_bytes(bytes).len() ==> is_lower_hex(#[trigger] hex_bytes(bytes)[i]),
    decreases bytes.len(),
{
    if bytes.len() > 0 {
        lemma_hex_bytes(bytes.drop_last());
    }
}

/// Different bytes give different hexadecimal text.
pub proof fn hex_text_is_unique(a: Seq<u8>, b: Seq<u8>)
    requires
        hex_bytes(a) == hex_bytes(b),
    ensures
        a == b,
    decreases a.len(),
{
    lemma_hex_bytes(a);
    lemma_hex_bytes(b);
    if a.len() > 0 {
        let x = hex_bytes(a);
        let y = hex_bytes(b);
        let n = x.len();
        assert(x.take(n - 2) =~= hex_bytes(a.drop_last()));
        assert(y.take(n - 2) =~= hex_bytes(b.drop_last()));
        hex_text_is_unique(a.drop_last(), b.drop_last());
        assert(x[n - 2] == y[n - 2]);
        assert(x[n - 1] == y[n - 1]);
        assert(a.last() == b.last());
        assert(a =~= a.drop_last().push(a.last()));
        assert(b =~= b.drop_last().push(b.last()));
    } else {
        assert(a =~= b);
    }
}

/// A token made of these bytes: their hexadecimal text.
pub fn token_from_bytes(bytes: &Vec<u8>) -> (r: String)
    ensures
        r@ == hex_bytes(bytes@),
{
    hex_encode(bytes)
}

/// A new session token: 32 random bytes as 64 hexadecimal digits. The token
/// is stored on the server and set as the session cookie after a login.
pub fn generate_session_token() -> (r: String)
    ensures
        r@.len() == 64,
        forall|i: int| 0 <= i < r@.len() ==> is_lower_hex(#[trigger] r@[i]),
        exists|bytes: Seq<u8>| bytes.len() == SESSION_TOKEN_BYTES && r@ == #[trigger] hex_bytes(bytes),
{
    let bytes: Vec<u8> = random_bytes(SESSION_TOKEN_BYTES);
    proof {
        lemma_hex_bytes(bytes@);
    }
    token_from_bytes(&bytes)
}

/// The words that switch something on: `1`, `true`, `yes` and `on`, in any
/// case and with white space around them.
pub open spec fn truthy(s: Seq<char>) -> bool {
    let t = ascii_lower(trimmed(s));
    t == "1"@ || t == "true"@ || t == "yes"@ || t == "on"@
}

/// Whether the word switches something on.
pub fn parse_truthy(s: &str) -> (r: bool)
    ensures
        r == truthy(s@),
{
    let t: String = to_ascii_lowercase(trim(s).as_str());
    let t: &str = t.as_str();
    same(t, "1") || same(t, "true") || same(t, "yes") || same(t, "on")
}

/// The variable is set to a word that switches something on.
pub open spec fn switched_on(env: EnvVars, name: Seq<char>) -> bool {
    match env.value(name) {
        Some(v) => truthy(v),
        None => false,
    }
}

/// Whether the variable switches something on.
pub fn env_switch(env: &EnvVars, name: &str) -> (r: bool)
    ensures
        r == switched_on(*env, name@),
{
    match env.get(name) {
        Some(v) => parse_truthy(v.as_str()),
        None => false,
    }
}

/// Whether `COOKIE_SECURE` marks every session cookie `Secure`.
pub fn cookie_secure_override(env: &EnvVars) -> (r: bool)
    ensures
        r == switched_on(*env, "COOKIE_SECURE"@),
{
    env_switch(env, "COOKIE_SECURE")
}

/// The session age that a text sets, if it is a positive number that fits in
/// 32 bits; else the default.
pub open spec fn max_age_of(v: Option<Seq<char>>) -> u32 {
    match v {
        Some(s) => match number(trimmed(s), false) {
            Some(n) => if 0 < n <= u32::MAX {
                n as u32
            } else {
                SESSION_MAX_AGE_SECS
            },
            None => SESSION_MAX_AGE_SECS,
        },
        None => SESSION_MAX_AGE_SECS,
    }
}

/// How long a session lasts, in seconds: `SESSION_MAX_AGE_SECS` in the
/// environment, or the default.
pub fn session_max_age_secs(env: &EnvVars) -> (r: u32)
    ensures
        r == max_age_of(env.value("SESSION_MAX_AGE_SECS"@)),
        r > 0,
{
    match env.get("SESSION_MAX_AGE_SECS") {
        Some(s) => match parse_u32(trim(s.as_str()).as_str()) {
            Some(n) => if n > 0 {
                n
            } else {
                SESSION_MAX_AGE_SECS
            },
            None => SESSION_MAX_AGE_SECS,
        },
        None => SESSION_MAX_AGE_SECS,
    }
}

/// What the environment says on session cookies.
#[derive(Debug, Clone, Copy)]
pub struct CookiePolicy {
    /// Every session cookie is `Secure`, whatever the request.
    pub secure_override: bool,
    /// How long a session lasts, in seconds.
    pub max_age_secs: u32,
}

impl CookiePolicy {
    /// The policy that the environment sets.
    pub fn from_env(env: &EnvVars) -> (r: Self)
        ensures
            r.secure_override == switched_on(*env, "COOKIE_SECURE"@),
            r.max_age_secs == max_age_of(env.value("SESSION_MAX_AGE_SECS"@)),
            r.max_age_secs > 0,
    {
        CookiePolicy {
            secure_override: cookie_secure_override(env),
            max_age_secs: session_max_age_secs(env),
        }
    }
}

/// The session cookie that holds `value`.
pub open spec fn cookie_text(value: Seq<char>, is_https: bool, policy: CookiePolicy) -> Seq<char> {
    COOKIE_NAME@ + "="@ + value + "; HttpOnly; SameSite=Strict; Path=/; Max-Age="@ + decimal(
        policy.max_age_secs as nat,
    ) + if is_https || policy.secure_override {
        "; Secure"@
    } else {
        ""@
    }
}

/// A session cookie with its security flags. It is `Secure` on a request over
/// HTTPS, and always where the policy says so.
pub fn build_cookie(value: &str, is_https: bool, policy: &CookiePolicy) -> (r: String)
    ensures
        r@ == cookie_text(value@, is_https, *policy),
{
    let secure: &str = if is_https || policy.secure_override {
        "; Secure"
    } else {
        ""
    };
    let pair: String = join3(COOKIE_NAME, "=", value);
    let age: String = decimal_u64(policy.max_age_secs as u64);
    let flags: String = join3(
        pair.as_str(),
        "; HttpOnly; SameSite=Strict; Path=/; Max-Age=",
        age.as_str(),
    );
    join(flags.as_str(), secure)
}

/// Every session cookie is kept from scripts and from requests of other
/// sites, and it is `Secure` wherever the request or the policy says so.
pub proof fn session_cookies_are_hardened(value: Seq<char>, is_https: bool, policy: CookiePolicy)
    ensures
        holds(cookie_text(value, is_https, policy), "; HttpOnly; SameSite=Strict; Path=/; Max-Age="@),
        is_https || policy.secure_override ==> ends(
            cookie_text(value, is_https, policy),
            "; Secure"@,
        ),
{
    let text = cookie_text(value, is_https, policy);
    let pair = COOKIE_NAME@ + "="@ + value;
    let flags = "; HttpOnly; SameSite=Strict; Path=/; Max-Age="@;
    let n = pair.len() as int;
    assert(text.subrange(n, n + flags.len()) =~= flags);
    assert(occurs_at(text, flags, n));
    if is_https || policy.secure_override {
        let mark = "; Secure"@;
        assert(text.subrange(text.len() - mark.len(), text.len() as int) =~= mark);
    }
}

/// A cookie that clears the session.
pub fn build_clear_cookie() -> (r: String)
    ensures
        r@ == COOKIE_NAME@ + "=; HttpOnly; SameSite=Strict; Path=/; Max-Age=0"@,
{
    join(COOKIE_NAME, "=; HttpOnly; SameSite=Strict; Path=/; Max-Age=0")
}

/// A path on this site: it begins with one slash, not with two, and holds no
/// scheme.
pub open spec fn is_local_path(path: Seq<char>) -> bool {
    &&& begins(path, "/"@)
    &&& !begins(path, "//"@)
    &&& !holds(path, "://"@)
}

/// A path that belongs to logging in, to the API or to static files.
pub open spec fn is_internal_path(path: Seq<char>) -> bool {
    ||| path == "/login"@
    ||| path == "/pwd"@
    ||| path == "/logout"@
    ||| begins(path, "/api/"@)
    ||| begins(path, "/static/"@)
    ||| begins(path, "/assets/"@)
}

/// Where a login that was asked to lead to `input` does lead.
pub open spec fn redirect_target(input: Option<Seq<char>>) -> Seq<char> {
    let path = trimmed(
        match input {
            Some(s) => s,
            None => "/"@,
        },
    );
    if !is_local_path(path) || is_internal_path(path) {
        "/"@
    } else {
        path
    }
}

/// Where a login may lead: the path that was asked for if it is a page of
/// this site, else the front page.
pub fn normalize_path_for_redirect(input: Option<&str>) -> (r: String)
    ensures
        r@ == redirect_target(opt_str_view(input)),
{
    let path: String = match input {
        Some(s) => trim(s),
        None => trim("/"),
    };
    let p: &str = path.as_str();
    if !starts_with(p, "/") || starts_with(p, "//") || contains(p, "://") {
        return String::from_str("/");
    }
    if same(p, "/login") || same(p, "/pwd") || same(p, "/logout") || starts_with(p, "/api/")
        || starts_with(p, "/static/") || starts_with(p, "/assets/") {
        String::from_str("/")
    } else {
        path
    }
}

proof fn lemma_root_path()
    ensures
        is_local_path("/"@),
        !is_internal_path("/"@),
        trimmed("/"@) == "/"@,
{
    reveal_strlit("/");
    reveal_strlit("//");
    reveal_strlit("://");
    reveal_strlit("/login");
    reveal_strlit("/pwd");
    reveal_strlit("/logout");
    reveal_strlit("/api/");
    reveal_strlit("/static/");
    reveal_strlit("/assets/");
    let root = "/"@;
    assert(root.subrange(0, 1) =~= root);
    assert("/login"@.len() == 6);
    assert("/pwd"@.len() == 4);
    assert("/logout"@.len() == 7);
    assert forall|i: int| !occurs_at(root, "://"@, i) by {}
}

/// A login always leads to a page of this site that is no part of logging in,
/// of the API or of the static files, whatever it was asked to lead to.
pub proof fn logins_lead_to_local_pages(input: Option<Seq<char>>)
    ensures
        is_local_path(redirect_target(input)),
        !is_internal_path(redirect_target(input)),
{
    lemma_root_path();
}

/// A path that a login leads to once is one that it leads to again.
pub proof fn redirect_targets_are_stable(input: Option<Seq<char>>)
    ensures
        redirect_target(Some(redirect_target(input))) == redirect_target(input),
{
    lemma_root_path();
    match input {
        Some(s) => {
            lemma_trimmed(s);
        },
        None => {},
    }
}

/// The four words switch on, with white space around them and in capitals or
/// not; no other word does.
pub proof fn four_words_switch_on(a: Seq<char>, word: Seq<char>, b: Seq<char>)
    requires
        all_space(a),
        all_space(b),
        word.len() > 0 ==> !is_space(word[0]) && !is_space(word.last()),
    ensures
        truthy(a + word + b) <==> seq![
            seq!['1'],
            seq!['t', 'r', 'u', 'e'],
            seq!['y', 'e', 's'],
            seq!['o', 'n'],
        ].contains(ascii_lower(word)),
{
    trimming_gives_the_text(a, word, b);
    reveal_strlit("1");
    reveal_strlit("true");
    reveal_strlit("yes");
    reveal_strlit("on");
    assert("1"@ =~= seq!['1']);
    assert("true"@ =~= seq!['t', 'r', 'u', 'e']);
    assert("yes"@ =~= seq!['y', 'e', 's']);
    assert("on"@ =~= seq!['o', 'n']);
    let words = seq![
        seq!['1'],
        seq!['t', 'r', 'u', 'e'],
        seq!['y', 'e', 's'],
        seq!['o', 'n'],
    ];
    assert(words[0] == "1"@ && words[1] == "true"@ && words[2] == "yes"@ && words[3] == "on"@);
}

/// A variable that is not set switches nothing on.
pub proof fn unset_variables_switch_nothing_on(env: EnvVars, name: Seq<char>)
    ensures
        env.value(name) is None ==> !switched_on(env, name),
        env.value(name) matches Some(v) ==> switched_on(env, name) == truthy(v),
{
}

/// Every positive number of seconds that fits in 32 bits can be set, written
/// in decimal with white space around it; what is no such number leaves the
/// age of seven days.
pub proof fn session_ages_can_be_set(a: Seq<char>, n: nat, b: Seq<char>, other: Seq<char>)
    requires
        all_space(a),
        all_space(b),
    ensures
        0 < n <= u32::MAX ==> max_age_of(Some(a + decimal(n) + b)) == n,
        n == 0 || n > u32::MAX ==> max_age_of(Some(a + decimal(n) + b)) == 604_800,
        number(trimmed(other), false) is None ==> max_age_of(Some(other)) == 604_800,
        max_age_of(None) == 604_800,
{
    numbers_have_no_zeros_in_front(n);
    lemma_decimal(n);
    let d = decimal(n);
    assert(is_digit(d[0]));
    assert(is_digit(d[d.len() - 1]));
    trimming_gives_the_text(a, d, b);
}

/// A session cookie begins with its name and its value and says how long it
/// lasts; a cookie over HTTPS is the one without it, marked `Secure`, and no
/// other is.
pub proof fn cookies_say_what_they_are(value: Seq<char>, policy: CookiePolicy)
    ensures
        ({
            let plain = cookie_text(
                value,
                false,
                CookiePolicy { secure_override: false, ..policy },
            );
            &&& begins(plain, "tgstate_session="@ + value + seq![';'])
            &&& ends(plain, "; Max-Age="@ + decimal(policy.max_age_secs as nat))
            &&& plain.len() == 16 + value.len() + 45 + decimal(policy.max_age_secs as nat).len()
            &&& cookie_text(value, true, policy) == plain + "; Secure"@
            &&& cookie_text(value, false, CookiePolicy { secure_override: true, ..policy })
                == plain + "; Secure"@
        }),
{
    reveal_strlit("tgstate_session");
    reveal_strlit("tgstate_session=");
    reveal_strlit("=");
    reveal_strlit("; HttpOnly; SameSite=Strict; Path=/; Max-Age=");
    reveal_strlit("; Max-Age=");
    reveal_strlit("");
    let plain = cookie_text(value, false, CookiePolicy { secure_override: false, ..policy });
    let flags = "; HttpOnly; SameSite=Strict; Path=/; Max-Age="@;
    let age = decimal(policy.max_age_secs as nat);
    let head = "tgstate_session="@ + value + seq![';'];
    assert(plain.subrange(0, head.len() as int) =~= head);
    let tail = "; Max-Age="@ + age;
    assert(plain.subrange(plain.len() - tail.len(), plain.len() as int) =~= tail);
    assert(cookie_text(value, true, policy) =~= plain + "; Secure"@);
    assert(cookie_text(value, false, CookiePolicy { secure_override: true, ..policy }) =~= plain
        + "; Secure"@);
}

/// A page of the site that is asked for is where the login leads, whatever the
/// page and with white space around it or not: a path that begins with one
/// slash, names no scheme, and is no part of logging in, of the API or of the
/// static files.
pub proof fn logins_lead_to_the_page_asked_for(a: Seq<char>, path: Seq<char>, b: Seq<char>)
    requires
        all_space(a),
        all_space(b),
        path.len() > 0,
        path[0] == '/',
        path.len() > 1 ==> path[1] != '/',
        !is_space(path.last()),
        !holds(path, "://"@),
        path != "/login"@,
        path != "/pwd"@,
        path != "/logout"@,
        !begins(path, "/api/"@),
        !begins(path, "/static/"@),
        !begins(path, "/assets/"@),
    ensures
        redirect_target(Some(a + path + b)) == path,
{
    reveal_strlit("/");
    reveal_strlit("//");
    trimming_gives_the_text(a, path, b);
    assert(path.subrange(0, 1) =~= "/"@);
    assert(!begins(path, "//"@)) by {
        if begins(path, "//"@) {
            assert(path.subrange(0, 2)[1] == path[1]);
        }
    }
}

/// Any other wish leads to the front page: none at all, another site, a path
/// of the API, of the static files or of logging in.
pub proof fn other_wishes_lead_to_the_front_page(input: Option<Seq<char>>)
    ensures
        redirect_target(None) == seq!['/'],
        input matches Some(s) && (trimmed(s).len() == 0 || trimmed(s)[0] != '/' || begins(
            trimmed(s),
            "//"@,
        ) || holds(trimmed(s), "://"@) || trimmed(s) == "/login"@ || trimmed(s) == "/pwd"@
            || trimmed(s) == "/logout"@ || begins(trimmed(s), "/api/"@) || begins(
            trimmed(s),
            "/static/"@,
        ) || begins(trimmed(s), "/assets/"@)) ==> redirect_target(input) == seq!['/'],
{
    reveal_strlit("/");
    assert("/"@ =~= seq!['/']);
    lemma_root_path();
    if let Some(s) = input {
        let t = trimmed(s);
        if begins(t, "/"@) {
            assert(t.subrange(0, 1)[0] == t[0]);
        }
    }
}

/// The age of a session is any number of seconds above none that fits in 32
/// bits, however it is written; everything else leaves a week.
pub proof fn session_ages_are_numbers(text: Seq<char>)
    ensures
        number(trimmed(text), false) matches Some(n) && 0 < n < 0x1_0000_0000 ==> max_age_of(
            Some(text),
        ) == number(trimmed(text), false)->0,
        !(number(trimmed(text), false) matches Some(n) && 0 < n < 0x1_0000_0000) ==> max_age_of(
            Some(text),
        ) == 7 * 24 * 60 * 60,
        OIDC_LOGIN_STATE_TTL_SECS == 10 * 60,
        SESSION_TOKEN_BYTES == 32,
{
}

} // verus!

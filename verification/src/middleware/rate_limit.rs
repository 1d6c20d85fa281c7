//! Rate limits: how many requests an address may make in a window of time.
//!
//! Times are nanoseconds on a clock that never runs backwards.
use std::collections::HashMap;
use std::hash::Hash;
use vstd::prelude::*;
use vstd::std_specs::hash::*;
use vstd::std_specs::iter::IteratorSpec;
use vstd::string::*;

use crate::auth::env_switch;
use crate::auth::switched_on;
use crate::config::EnvVars;
use crate::constants::RATE_LIMIT_API_MAX;
use crate::constants::RATE_LIMIT_CLEANUP_INTERVAL_SECS;
use crate::constants::RATE_LIMIT_DOWNLOAD_MAX;
use crate::constants::RATE_LIMIT_LOGIN_MAX;
use crate::constants::RATE_LIMIT_MAX_ENTRIES;
use crate::constants::RATE_LIMIT_UPLOAD_MAX;
use crate::constants::RATE_LIMIT_WINDOW_SECS;
use crate::error::HttpError;
use crate::error::HttpErrorView;
use crate::error::http_error;
use crate::error::refusal;
use crate::middleware::auth::leads;
use crate::middleware::headers::HeaderField;
use crate::middleware::headers::RequestHeaders;
use crate::middleware::headers::first_entries_stand_before_the_comma;
use crate::middleware::headers::first_entry;
use crate::middleware::headers::first_listed;
use crate::text::all_space;
use crate::text::beginnings_are_in_front;
use crate::text::begins;
use crate::text::is_space;
use crate::text::opt_view;
use crate::text::starts_with;
use crate::text::trim;
use crate::text::trimmed;
use crate::text::trimming_gives_the_text;

verus! {

broadcast use group_hash_axioms;

/// Nanoseconds in a second.
pub const NANOS: u64 = 1_000_000_000;

/// The address of a client.
#[derive(Debug, Clone, Copy, PartialEq, Eq, Structural)]
pub enum IpKey {
    V4(u32),
    V6(u128),
}

/// The requests of an address in its current window.
#[derive(Debug, Clone, Copy)]
pub struct RateEntry {
    pub count: u32,
    pub window_start: u64,
}

/// The time from `start` to `now`.
pub open spec fn elapsed(now: u64, start: u64) -> int {
    if now >= start {
        now - start
    } else {
        0
    }
}

/// The time from `start` to `now`.
fn since(now: u64, start: u64) -> (r: u64)
    ensures
        r == elapsed(now, start),
{
    if now >= start {
        now - start
    } else {
        0
    }
}

/// The entries whose window is not over.
pub open spec fn live<K>(m: Map<K, RateEntry>, now: u64, window: u64) -> Map<K, RateEntry> {
    Map::new(
        |k: K| m.dom().contains(k) && elapsed(now, m[k].window_start) < window,
        |k: K| m[k],
    )
}

/// The entries whose window is not over.
fn keep_live<K: Copy + Eq + Hash>(m: &HashMap<K, RateEntry>, now: u64, window: u64) -> (r: HashMap<
    K,
    RateEntry,
>)
    requires
        obeys_key_model::<K>(),
    ensures
        r@ == live(m@, now, window),
{
    let mut out: HashMap<K, RateEntry> = HashMap::new();
    let ghost all = m.keys().remaining().unref();
    let ghost kept = live(m@, now, window);
    for k in it: m.keys()
        invariant
            obeys_key_model::<K>(),
            it.seq().unref() == all,
            all.to_set() == m@.dom(),
            kept == live(m@, now, window),
            forall|x: K| #[trigger] out@.dom().contains(x) ==> kept.dom().contains(x),
            forall|x: K| #[trigger] out@.dom().contains(x) ==> out@[x] == m@[x],
            forall|j: int|
                0 <= j < it.index() && kept.dom().contains(#[trigger] all[j])
                    ==> out@.dom().contains(all[j]),
    {
        proof {
            assert(all[it.index() as int] == *k);
            assert(all.to_set().contains(*k));
        }
        if let Some(e) = m.get(k) {
            if since(now, e.window_start) < window {
                out.insert(*k, *e);
            }
        }
    }
    proof {
        assert forall|x: K| kept.dom().contains(x) implies #[trigger] out@.dom().contains(x) by {
            assert(all.to_set().contains(x));
            let j = choose|j: int| 0 <= j < all.len() && all[j] == x;
            assert(kept.dom().contains(all[j]));
        }
        assert(out@ =~= kept);
    }
    out
}

/// The addresses that made requests of one sort.
pub struct Bucket {
    pub v4: HashMap<u32, RateEntry>,
    pub v6: HashMap<u128, RateEntry>,
}

/// The entries of a bucket.
#[verifier::ext_equal]
pub struct BucketView {
    pub v4: Map<u32, RateEntry>,
    pub v6: Map<u128, RateEntry>,
}

impl View for Bucket {
    type V = BucketView;

    open spec fn view(&self) -> BucketView {
        BucketView { v4: self.v4@, v6: self.v6@ }
    }
}

impl BucketView {
    /// The number of entries.
    pub open spec fn size(self) -> nat {
        self.v4.len() + self.v6.len()
    }

    /// The entry of an address.
    pub open spec fn entry(self, ip: IpKey) -> Option<RateEntry> {
        match ip {
            IpKey::V4(a) => if self.v4.dom().contains(a) {
                Some(self.v4[a])
            } else {
                None
            },
            IpKey::V6(a) => if self.v6.dom().contains(a) {
                Some(self.v6[a])
            } else {
                None
            },
        }
    }

    /// The bucket with this entry for the address.
    pub open spec fn put(self, ip: IpKey, e: RateEntry) -> BucketView {
        match ip {
            IpKey::V4(a) => BucketView { v4: self.v4.insert(a, e), v6: self.v6 },
            IpKey::V6(a) => BucketView { v4: self.v4, v6: self.v6.insert(a, e) },
        }
    }

    /// The bucket without the entries whose window is over.
    pub open spec fn swept(self, now: u64, window: u64) -> BucketView {
        BucketView { v4: live(self.v4, now, window), v6: live(self.v6, now, window) }
    }

    /// The bucket, swept if it has grown too large.
    pub open spec fn trimmed_down(self, now: u64, window: u64) -> BucketView {
        if self.size() > RATE_LIMIT_MAX_ENTRIES {
            self.swept(now, window)
        } else {
            self
        }
    }
}

/// The entry after one more request: the first of a new window, or one more
/// in the current one.
pub open spec fn counted(e: Option<RateEntry>, now: u64, window: u64) -> RateEntry {
    match e {
        Some(e) => if elapsed(now, e.window_start) > window {
            RateEntry { count: 1, window_start: now }
        } else {
            RateEntry {
                count: if e.count < u32::MAX {
                    (e.count + 1) as u32
                } else {
                    u32::MAX
                },
                window_start: e.window_start,
            }
        },
        None => RateEntry { count: 1, window_start: now },
    }
}

/// The requests counted so far.
pub open spec fn count_of(e: Option<RateEntry>) -> u32 {
    match e {
        Some(e) => e.count,
        None => 0,
    }
}

/// The request begins a new window.
pub open spec fn renews(e: Option<RateEntry>, now: u64, window: u64) -> bool {
    e matches Some(e) && elapsed(now, e.window_start) > window
}

/// A request of an address: what becomes of the bucket, and whether the
/// request is allowed. A bucket that is too large even when it is swept
/// allows nothing.
pub open spec fn checked(
    b: BucketView,
    ip: IpKey,
    now: u64,
    max_requests: u32,
    window: u64,
) -> (BucketView, bool) {
    let c = b.trimmed_down(now, window);
    if c.size() > RATE_LIMIT_MAX_ENTRIES {
        (c, false)
    } else {
        let e = counted(c.entry(ip), now, window);
        (
            c.put(ip, e),
            renews(c.entry(ip), now, window) || count_of(c.entry(ip)) < max_requests,
        )
    }
}

impl Bucket {
    /// An empty bucket.
    pub fn new() -> (r: Self)
        ensures
            r@ == (BucketView { v4: Map::empty(), v6: Map::empty() }),
    {
        Bucket { v4: HashMap::new(), v6: HashMap::new() }
    }

    fn is_over_full(&self) -> (r: bool)
        ensures
            r == (self@.size() > RATE_LIMIT_MAX_ENTRIES),
    {
        self.v4.len() as u128 + self.v6.len() as u128 > RATE_LIMIT_MAX_ENTRIES as u128
    }

    fn entry(&self, ip: IpKey) -> (r: Option<RateEntry>)
        ensures
            r == self@.entry(ip),
    {
        let found: Option<&RateEntry> = match ip {
            IpKey::V4(a) => self.v4.get(&a),
            IpKey::V6(a) => self.v6.get(&a),
        };
        match found {
            Some(e) => Some(*e),
            None => None,
        }
    }

    fn put(&mut self, ip: IpKey, e: RateEntry)
        ensures
            final(self)@ == old(self)@.put(ip, e),
    {
        match ip {
            IpKey::V4(a) => {
                self.v4.insert(a, e);
            },
            IpKey::V6(a) => {
                self.v6.insert(a, e);
            },
        }
    }

    /// Removes the entries whose window is over.
    pub fn sweep(&mut self, now: u64, window: u64)
        ensures
            final(self)@ == old(self)@.swept(now, window),
    {
        self.v4 = keep_live(&self.v4, now, window);
        self.v6 = keep_live(&self.v6, now, window);
    }

    /// Counts a request of an address and says whether it is allowed: at most
    /// `max_requests` in a window.
    pub fn check_rate(&mut self, ip: IpKey, now: u64, max_requests: u32, window: u64) -> (r: bool)
        ensures
            (final(self)@, r) == checked(old(self)@, ip, now, max_requests, window),
    {
        if self.is_over_full() {
            self.sweep(now, window);
            if self.is_over_full() {
                return false;
            }
        }
        match self.entry(ip) {
            Some(e) => {
                if since(now, e.window_start) > window {
                    self.put(ip, RateEntry { count: 1, window_start: now });
                    true
                } else {
                    let count: u32 = if e.count < u32::MAX {
                        e.count + 1
                    } else {
                        u32::MAX
                    };
                    self.put(ip, RateEntry { count, window_start: e.window_start });
                    e.count < max_requests
                }
            },
            None => {
                self.put(ip, RateEntry { count: 1, window_start: now });
                0 < max_requests
            },
        }
    }
}

/// The sorts of requests that are limited.
#[derive(Debug, Clone, Copy, PartialEq, Eq, Structural)]
pub enum Limit {
    Login,
    Upload,
    Api,
    Download,
}

/// The limit that a path falls under, if any.
pub open spec fn limit_of(path: Seq<char>) -> Option<Limit> {
    if begins(path, "/api/auth/login"@) {
        Some(Limit::Login)
    } else if begins(path, "/api/upload"@) {
        Some(Limit::Upload)
    } else if begins(path, "/api/"@) {
        Some(Limit::Api)
    } else if begins(path, "/d/"@) || begins(path, "/share/"@) {
        Some(Limit::Download)
    } else {
        None
    }
}

/// The limit that a path falls under.
pub fn limit_for(path: &str) -> (r: Option<Limit>)
    ensures
        r == limit_of(path@),
{
    if starts_with(path, "/api/auth/login") {
        Some(Limit::Login)
    } else if starts_with(path, "/api/upload") {
        Some(Limit::Upload)
    } else if starts_with(path, "/api/") {
        Some(Limit::Api)
    } else if starts_with(path, "/d/") || starts_with(path, "/share/") {
        Some(Limit::Download)
    } else {
        None
    }
}

/// The number of requests that a limit allows in a window.
pub open spec fn max_of(limit: Limit) -> u32 {
    match limit {
        Limit::Login => RATE_LIMIT_LOGIN_MAX,
        Limit::Upload => RATE_LIMIT_UPLOAD_MAX,
        Limit::Api => RATE_LIMIT_API_MAX,
        Limit::Download => RATE_LIMIT_DOWNLOAD_MAX,
    }
}

/// The window of every limit, in nanoseconds.
pub open spec fn rate_window() -> u64 {
    (RATE_LIMIT_WINDOW_SECS * NANOS) as u64
}

/// The window behind which the regular cleanup removes entries, in
/// nanoseconds.
pub open spec fn cleanup_window() -> u64 {
    (RATE_LIMIT_CLEANUP_INTERVAL_SECS * NANOS) as u64
}

/// One bucket for each limit.
pub struct RateLimiter {
    pub login: Bucket,
    pub upload: Bucket,
    pub api: Bucket,
    /// Downloads and share pages. They are open to everyone, so they need a
    /// limit of their own to keep a single client from hammering Telegram.
    pub download: Bucket,
}

/// The refusal of a request that is one too many.
pub open spec fn too_many() -> HttpErrorView {
    refusal(429, "请求过于频繁，请稍后再试"@, "rate_limited"@)
}

impl RateLimiter {
    /// A limiter that has seen no request.
    pub fn new() -> (r: Self)
        ensures
            forall|l: Limit| #[trigger]
                r.bucket(l) == (BucketView { v4: Map::empty(), v6: Map::empty() }),
    {
        RateLimiter {
            login: Bucket::new(),
            upload: Bucket::new(),
            api: Bucket::new(),
            download: Bucket::new(),
        }
    }

    /// The bucket of a limit.
    pub open spec fn bucket(self, limit: Limit) -> BucketView {
        match limit {
            Limit::Login => self.login@,
            Limit::Upload => self.upload@,
            Limit::Api => self.api@,
            Limit::Download => self.download@,
        }
    }

    /// Counts a request and refuses it if it is one too many. A request that
    /// falls under no limit is not counted.
    pub fn rate_limit_middleware(&mut self, path: &str, ip: IpKey, now: u64) -> (r: Result<
        (),
        HttpError,
    >)
        ensures
            match limit_of(path@) {
                Some(limit) => {
                    let c = checked(old(self).bucket(limit), ip, now, max_of(limit), rate_window());
                    &&& final(self).bucket(limit) == c.0
                    &&& forall|l: Limit|
                        l != limit ==> #[trigger] final(self).bucket(l) == old(self).bucket(l)
                    &&& if c.1 {
                        r is Ok
                    } else {
                        r matches Err(e) && e@ == too_many()
                    }
                },
                None => r is Ok && forall|l: Limit| #[trigger]
                    final(self).bucket(l) == old(self).bucket(l),
            },
    {
        let window: u64 = RATE_LIMIT_WINDOW_SECS * NANOS;
        let allowed: bool = match limit_for(path) {
            Some(Limit::Login) => self.login.check_rate(ip, now, RATE_LIMIT_LOGIN_MAX, window),
            Some(Limit::Upload) => self.upload.check_rate(ip, now, RATE_LIMIT_UPLOAD_MAX, window),
            Some(Limit::Api) => self.api.check_rate(ip, now, RATE_LIMIT_API_MAX, window),
            Some(Limit::Download) => self.download.check_rate(
                ip,
                now,
                RATE_LIMIT_DOWNLOAD_MAX,
                window,
            ),
            None => true,
        };
        if allowed {
            Ok(())
        } else {
            Err(http_error(429, "请求过于频繁，请稍后再试", "rate_limited"))
        }
    }
}

/// Removes what the limiter no longer needs. To be called now and then.
pub fn cleanup_expired(limiter: &mut RateLimiter, now: u64)
    ensures
        forall|l: Limit| #[trigger]
            final(limiter).bucket(l) == old(limiter).bucket(l).swept(now, cleanup_window()),
{
    let window: u64 = RATE_LIMIT_CLEANUP_INTERVAL_SECS * NANOS;
    limiter.login.sweep(now, window);
    limiter.upload.sweep(now, window);
    limiter.api.sweep(now, window);
    limiter.download.sweep(now, window);
}

/// Whether `TRUST_FORWARDED_FOR` says that the headers of a proxy name the
/// client. To be set only behind a proxy that can be trusted.
pub fn trust_forwarded_for(env: &EnvVars) -> (r: bool)
    ensures
        r == switched_on(*env, "TRUST_FORWARDED_FOR"@),
{
    env_switch(env, "TRUST_FORWARDED_FOR")
}

/// The texts that may name the client, in the order in which they count: the
/// first entry of `X-Forwarded-For`, and `X-Real-IP`. There are none unless
/// such headers are trusted.
pub fn forwarded_addresses(headers: &RequestHeaders, trusted: bool) -> (r: (
    Option<String>,
    Option<String>,
))
    ensures
        opt_view(r.0) == match headers.x_forwarded_for.value() {
            Some(v) => if trusted {
                Some(first_listed(v))
            } else {
                None
            },
            None => None,
        },
        opt_view(r.1) == match headers.x_real_ip.value() {
            Some(v) => if trusted {
                Some(trimmed(v))
            } else {
                None
            },
            None => None,
        },
        (opt_view(r.0), opt_view(r.1)) == named_clients(*headers, trusted),
{
    if !trusted {
        return (None, None);
    }
    let listed: Option<String> = match headers.x_forwarded_for.text() {
        Some(v) => Some(first_entry(v.as_str())),
        None => None,
    };
    let single: Option<String> = match headers.x_real_ip.text() {
        Some(v) => Some(trim(v.as_str())),
        None => None,
    };
    (listed, single)
}

/// The address of a client, given what the two headers name and the peer of
/// the connection.
pub open spec fn client_address(
    listed: Option<IpKey>,
    single: Option<IpKey>,
    peer: Option<IpKey>,
) -> IpKey {
    if listed is Some {
        listed->0
    } else if single is Some {
        single->0
    } else if peer is Some {
        peer->0
    } else {
        IpKey::V4(0x7f00_0001)
    }
}

/// The address of a client: what the first header names, else what the second
/// names, else the peer of the connection, else the machine itself.
pub fn extract_ip(listed: Option<IpKey>, single: Option<IpKey>, peer: Option<IpKey>) -> (r: IpKey)
    ensures
        r == match listed {
            Some(ip) => ip,
            None => match single {
                Some(ip) => ip,
                None => match peer {
                    Some(ip) => ip,
                    None => IpKey::V4(0x7f00_0001),
                },
            },
        },
        r == client_address(listed, single, peer),
{
    match listed {
        Some(ip) => ip,
        None => match single {
            Some(ip) => ip,
            None => match peer {
                Some(ip) => ip,
                None => IpKey::V4(0x7f00_0001),
            },
        },
    }
}

/// The bucket after a row of requests, each with its address and its time.
pub open spec fn bucket_after(
    b: BucketView,
    requests: Seq<(IpKey, u64)>,
    max_requests: u32,
    window: u64,
) -> BucketView
    decreases requests.len(),
{
    if requests.len() == 0 {
        b
    } else {
        let r = requests.last();
        checked(
            bucket_after(b, requests.drop_last(), max_requests, window),
            r.0,
            r.1,
            max_requests,
            window,
        ).0
    }
}

/// How many requests of `ip` in a row of requests are allowed.
pub open spec fn allowed_count(
    b: BucketView,
    requests: Seq<(IpKey, u64)>,
    ip: IpKey,
    max_requests: u32,
    window: u64,
) -> nat
    decreases requests.len(),
{
    if requests.len() == 0 {
        0
    } else {
        let rest = requests.drop_last();
        let r = requests.last();
        let n = allowed_count(b, rest, ip, max_requests, window);
        if r.0 == ip && checked(
            bucket_after(b, rest, max_requests, window),
            r.0,
            r.1,
            max_requests,
            window,
        ).1 {
            n + 1
        } else {
            n
        }
    }
}

/// The smaller of two numbers.
pub open spec fn smaller(a: int, b: int) -> int {
    if a <= b {
        a
    } else {
        b
    }
}

/// `n` requests of an address were allowed since `from`, of which at most
/// `base` belong to a window that began before.
spec fn within_limit(
    e: Option<RateEntry>,
    from: u64,
    n: nat,
    base: int,
    max_requests: u32,
) -> bool {
    match e {
        None => n <= base,
        Some(e) => if e.window_start < from {
            0 < base == max_requests && n <= max_requests && n <= e.count
        } else {
            n <= base + smaller(e.count as int, max_requests as int)
        },
    }
}

proof fn lemma_within_limit(
    b: BucketView,
    requests: Seq<(IpKey, u64)>,
    ip: IpKey,
    from: u64,
    base: int,
    max_requests: u32,
    window: u64,
)
    requires
        forall|i: int|
            0 <= i < requests.len() ==> from <= (#[trigger] requests[i]).1 < from + window,
        within_limit(b.entry(ip), from, 0, base, max_requests),
        0 <= base,
    ensures
        within_limit(
            bucket_after(b, requests, max_requests, window).entry(ip),
            from,
            allowed_count(b, requests, ip, max_requests, window),
            base,
            max_requests,
        ),
    decreases requests.len(),
{
    if requests.len() > 0 {
        let rest = requests.drop_last();
        assert forall|i: int| 0 <= i < rest.len() implies from <= (#[trigger] rest[i]).1 < from
            + window by {
            assert(rest[i] == requests[i]);
        }
        lemma_within_limit(b, rest, ip, from, base, max_requests, window);
        let r = requests.last();
        assert(r == requests[requests.len() - 1]);
        let was = bucket_after(b, rest, max_requests, window);
        let n = allowed_count(b, rest, ip, max_requests, window);
        let c = was.trimmed_down(r.1, window);
        assert(within_limit(c.entry(ip), from, n, base, max_requests));
        let after = bucket_after(b, requests, max_requests, window);
        assert(after == checked(was, r.0, r.1, max_requests, window).0);
        if c.size() <= RATE_LIMIT_MAX_ENTRIES {
            let e = counted(c.entry(r.0), r.1, window);
            if r.0 == ip {
                assert(after.entry(ip) == Some(e));
            } else {
                assert(after.entry(ip) == c.entry(ip));
            }
        }
    }
}

/// An address without requests in the bucket gets at most `max_requests`
/// through in less than a window, whatever others do meanwhile.
pub proof fn limit_holds_from_the_first_request(
    b: BucketView,
    requests: Seq<(IpKey, u64)>,
    ip: IpKey,
    from: u64,
    max_requests: u32,
    window: u64,
)
    requires
        b.entry(ip) is None,
        forall|i: int|
            0 <= i < requests.len() ==> from <= (#[trigger] requests[i]).1 < from + window,
    ensures
        allowed_count(b, requests, ip, max_requests, window) <= max_requests,
{
    lemma_within_limit(b, requests, ip, from, 0, max_requests, window);
}

/// At any time, an address gets at most twice `max_requests` through in less
/// than a window: those left of the window that it is in, and those of the
/// next.
pub proof fn limit_holds_at_any_time(
    b: BucketView,
    requests: Seq<(IpKey, u64)>,
    ip: IpKey,
    from: u64,
    max_requests: u32,
    window: u64,
)
    requires
        max_requests > 0,
        forall|i: int|
            0 <= i < requests.len() ==> from <= (#[trigger] requests[i]).1 < from + window,
    ensures
        allowed_count(b, requests, ip, max_requests, window) <= 2 * max_requests,
{
    lemma_within_limit(b, requests, ip, from, max_requests as int, max_requests, window);
}

/// The limit is no lower than it says: as long as a bucket has room, the
/// request of an address is allowed if fewer than `max_requests` were counted
/// in its window.
pub proof fn requests_below_the_limit_pass(
    b: BucketView,
    ip: IpKey,
    now: u64,
    max_requests: u32,
    window: u64,
)
    requires
        b.size() <= RATE_LIMIT_MAX_ENTRIES,
        max_requests > 0,
        b.entry(ip) matches Some(e) ==> e.count < max_requests,
    ensures
        checked(b, ip, now, max_requests, window).1,
{
}

/// How many requests of `ip` there are in a row of requests.
pub open spec fn made_count(requests: Seq<(IpKey, u64)>, ip: IpKey) -> nat
    decreases requests.len(),
{
    if requests.len() == 0 {
        0
    } else if requests.last().0 == ip {
        made_count(requests.drop_last(), ip) + 1
    } else {
        made_count(requests.drop_last(), ip)
    }
}

/// The bucket has room before each request of a row.
pub open spec fn has_room(
    b: BucketView,
    requests: Seq<(IpKey, u64)>,
    max_requests: u32,
    window: u64,
) -> bool {
    forall|k: int|
        0 <= k < requests.len() ==> (#[trigger] bucket_after(
            b,
            requests.take(k),
            max_requests,
            window,
        )).size() <= RATE_LIMIT_MAX_ENTRIES
}

/// The entry of an address that made `n` requests in a window that began at
/// `from` or later.
spec fn counts(e: Option<RateEntry>, n: nat, from: u64) -> bool {
    match e {
        None => n == 0,
        Some(e) => n > 0 && e.count == smaller(n as int, u32::MAX as int) && from
            <= e.window_start,
    }
}

proof fn lemma_counts(
    b: BucketView,
    requests: Seq<(IpKey, u64)>,
    ip: IpKey,
    from: u64,
    max_requests: u32,
    window: u64,
)
    requires
        b.entry(ip) is None,
        forall|i: int|
            0 <= i < requests.len() ==> from <= (#[trigger] requests[i]).1 <= from + window,
        has_room(b, requests, max_requests, window),
    ensures
        counts(
            bucket_after(b, requests, max_requests, window).entry(ip),
            made_count(requests, ip),
            from,
        ),
    decreases requests.len(),
{
    if requests.len() > 0 {
        let rest = requests.drop_last();
        assert forall|i: int| 0 <= i < rest.len() implies from <= (#[trigger] rest[i]).1 <= from
            + window by {
            assert(rest[i] == requests[i]);
        }
        assert forall|k: int| 0 <= k < rest.len() implies (#[trigger] bucket_after(
            b,
            rest.take(k),
            max_requests,
            window,
        )).size() <= RATE_LIMIT_MAX_ENTRIES by {
            assert(rest.take(k) =~= requests.take(k));
        }
        lemma_counts(b, rest, ip, from, max_requests, window);
        let r = requests.last();
        assert(r == requests[requests.len() - 1]);
        assert(rest =~= requests.take(requests.len() - 1));
        let was = bucket_after(b, rest, max_requests, window);
        assert(was.size() <= RATE_LIMIT_MAX_ENTRIES);
        let after = bucket_after(b, requests, max_requests, window);
        if r.0 == ip {
            assert(after.entry(ip) == Some(counted(was.entry(ip), r.1, window)));
        } else {
            assert(after.entry(ip) == was.entry(ip));
        }
    }
}

/// The limit is exact: of the requests that an address makes from its first
/// one on until a window later, the first `max_requests` pass and no other,
/// whatever others do meanwhile, as long as the bucket has room.
pub proof fn exactly_the_limit_passes(
    b: BucketView,
    requests: Seq<(IpKey, u64)>,
    ip: IpKey,
    from: u64,
    max_requests: u32,
    window: u64,
    k: int,
)
    requires
        b.entry(ip) is None,
        forall|i: int|
            0 <= i < requests.len() ==> from <= (#[trigger] requests[i]).1 <= from + window,
        has_room(b, requests, max_requests, window),
        0 <= k < requests.len(),
        requests[k].0 == ip,
    ensures
        checked(
            bucket_after(b, requests.take(k), max_requests, window),
            ip,
            requests[k].1,
            max_requests,
            window,
        ).1 <==> made_count(requests.take(k + 1), ip) <= max_requests,
{
    let before = requests.take(k);
    assert forall|i: int| 0 <= i < before.len() implies from <= (#[trigger] before[i]).1 <= from
        + window by {
        assert(before[i] == requests[i]);
    }
    assert forall|j: int| 0 <= j < before.len() implies (#[trigger] bucket_after(
        b,
        before.take(j),
        max_requests,
        window,
    )).size() <= RATE_LIMIT_MAX_ENTRIES by {
        assert(before.take(j) =~= requests.take(j));
    }
    lemma_counts(b, before, ip, from, max_requests, window);
    assert(requests.take(k + 1).drop_last() =~= before);
    assert(bucket_after(b, before, max_requests, window).size() <= RATE_LIMIT_MAX_ENTRIES);
    assert(from <= requests[k].1 <= from + window);
}

proof fn lemma_live_is_smaller<K>(m: Map<K, RateEntry>, now: u64, window: u64)
    requires
        m.dom().finite(),
    ensures
        live(m, now, window).len() <= m.len(),
{
    assert(live(m, now, window).dom().subset_of(m.dom()));
    vstd::set_lib::lemma_len_subset(live(m, now, window).dom(), m.dom());
}

/// The regular cleanup changes no decision: a later request that finds room
/// in the bucket is allowed after a cleanup if and only if it is without, and
/// leaves the same entry behind.
pub proof fn cleanup_changes_no_decision(
    b: BucketView,
    ip: IpKey,
    cleaned: u64,
    now: u64,
    max_requests: u32,
)
    requires
        b.v4.dom().finite(),
        b.v6.dom().finite(),
        b.size() <= RATE_LIMIT_MAX_ENTRIES,
        max_requests > 0,
        cleaned <= now,
    ensures
        ({
            let swept = b.swept(cleaned, cleanup_window());
            let with = checked(swept, ip, now, max_requests, rate_window());
            let without = checked(b, ip, now, max_requests, rate_window());
            &&& with.1 == without.1
            &&& with.0.entry(ip) == without.0.entry(ip)
        }),
{
    lemma_live_is_smaller(b.v4, cleaned, cleanup_window());
    lemma_live_is_smaller(b.v6, cleaned, cleanup_window());
    let swept = b.swept(cleaned, cleanup_window());
    assert(swept.size() <= RATE_LIMIT_MAX_ENTRIES);
    assert(rate_window() < cleanup_window());
}

/// The requests of one address take nothing from another.
pub proof fn addresses_are_counted_apart(
    b: BucketView,
    ip: IpKey,
    other: IpKey,
    now: u64,
    max_requests: u32,
    window: u64,
)
    requires
        ip != other,
        b.size() <= RATE_LIMIT_MAX_ENTRIES,
    ensures
        checked(b, ip, now, max_requests, window).0.entry(other) == b.entry(other),
{
}

/// The client is the one that the first header names, whatever else is known;
/// the second counts only without the first, and the peer only without both.
/// A client of whom nothing is known counts as the machine itself.
pub proof fn clients_are_known_by_the_first_name(
    ip: IpKey,
    single: Option<IpKey>,
    peer: Option<IpKey>,
)
    ensures
        client_address(Some(ip), single, peer) == ip,
        client_address(None, Some(ip), peer) == ip,
        client_address(None, None, Some(ip)) == ip,
        client_address(None, None, None) == IpKey::V4((127 * 256 * 256 * 256 + 1) as u32),
{
    assert(0x7f00_0001u32 == 127 * 256 * 256 * 256 + 1);
}

/// Logins, uploads, the rest of the API, and shared content have a limit each;
/// nothing else has one.
pub proof fn paths_have_their_limits(path: Seq<char>)
    ensures
        limit_of(path) == Some(Limit::Login) <==> leads("/api/auth/login"@, path),
        limit_of(path) == Some(Limit::Upload) <==> leads("/api/upload"@, path),
        limit_of(path) == Some(Limit::Api) <==> leads("/api/"@, path) && !leads(
            "/api/auth/login"@,
            path,
        ) && !leads("/api/upload"@, path),
        limit_of(path) == Some(Limit::Download) <==> leads("/d/"@, path) || leads(
            "/share/"@,
            path,
        ),
        limit_of(path) is None <==> !leads("/api/"@, path) && !leads("/d/"@, path) && !leads(
            "/share/"@,
            path,
        ),
{
    reveal_strlit("/api/auth/login");
    reveal_strlit("/api/upload");
    reveal_strlit("/api/");
    reveal_strlit("/d/");
    reveal_strlit("/share/");
    beginnings_are_in_front(path, "/api/auth/login"@);
    beginnings_are_in_front(path, "/api/upload"@);
    beginnings_are_in_front(path, "/api/"@);
    beginnings_are_in_front(path, "/d/"@);
    beginnings_are_in_front(path, "/share/"@);
    if begins(path, "/api/auth/login"@) {
        assert(path.subrange(0, 15)[5] == path[5]);
        assert(path.subrange(0, 15)[1] == path[1]);
        assert(path.subrange(0, 5) =~= path.subrange(0, 15).subrange(0, 5));
        assert("/api/auth/login"@.subrange(0, 5) =~= "/api/"@);
    }
    if begins(path, "/api/upload"@) {
        assert(path.subrange(0, 11)[5] == path[5]);
        assert(path.subrange(0, 11)[1] == path[1]);
        assert(path.subrange(0, 5) =~= path.subrange(0, 11).subrange(0, 5));
        assert("/api/upload"@.subrange(0, 5) =~= "/api/"@);
    }
    if begins(path, "/api/"@) {
        assert(path.subrange(0, 5)[1] == path[1]);
    }
    if begins(path, "/d/"@) {
        assert(path.subrange(0, 3)[1] == path[1]);
    }
    if begins(path, "/share/"@) {
        assert(path.subrange(0, 7)[1] == path[1]);
    }
}

/// In a minute there may be five logins of an address, ten uploads, 120 calls
/// of the rest of the API and 300 requests for shared content. Entries are
/// kept for two minutes.
pub proof fn limits_are_per_minute(limit: Limit)
    ensures
        max_of(limit) == match limit {
            Limit::Login => 5u32,
            Limit::Upload => 10u32,
            Limit::Api => 120u32,
            Limit::Download => 300u32,
        },
        rate_window() == 60 * 1_000_000_000,
        cleanup_window() == 2 * rate_window(),
        RATE_LIMIT_MAX_ENTRIES == 10_000,
{
}

/// The first request of an address, and the first one when its window is over,
/// begins a window with a count of one. Every other request raises the count
/// by one and leaves the window as it is.
pub proof fn windows_begin_with_a_request(
    b: BucketView,
    ip: IpKey,
    now: u64,
    max_requests: u32,
    window: u64,
)
    requires
        b.size() <= 10_000,
    ensures
        ({
            let (after, allowed) = checked(b, ip, now, max_requests, window);
            &&& b.entry(ip) is None ==> after.entry(ip) == Some(
                RateEntry { count: 1, window_start: now },
            ) && (allowed <==> max_requests > 0)
            &&& b.entry(ip) is Some && now > b.entry(ip)->0.window_start + window ==> after.entry(
                ip,
            ) == Some(RateEntry { count: 1, window_start: now }) && allowed
            &&& b.entry(ip) is Some && now <= b.entry(ip)->0.window_start + window ==> {
                let was = b.entry(ip)->0;
                &&& after.entry(ip) is Some
                &&& after.entry(ip)->0.window_start == was.window_start
                &&& was.count < u32::MAX ==> after.entry(ip)->0.count == was.count + 1
                &&& was.count == u32::MAX ==> after.entry(ip)->0.count == u32::MAX
                &&& allowed <==> was.count < max_requests
            }
        }),
{
}

/// A sweep keeps the entries whose window is not over, as they are, and no
/// others.
pub proof fn sweeps_keep_open_windows(b: BucketView, ip: IpKey, now: u64, window: u64)
    ensures
        b.entry(ip) is None ==> b.swept(now, window).entry(ip) is None,
        b.entry(ip) matches Some(e) && window > 0 && now < e.window_start + window ==> b.swept(
            now,
            window,
        ).entry(ip) == b.entry(ip),
        b.entry(ip) matches Some(e) && now >= e.window_start + window ==> b.swept(
            now,
            window,
        ).entry(ip) is None,
{
}

/// A bucket with more than ten thousand entries is swept before a request is
/// counted. If that does not help, the request is refused and not counted.
pub proof fn full_buckets_are_swept(
    b: BucketView,
    ip: IpKey,
    now: u64,
    max_requests: u32,
    window: u64,
)
    requires
        b.size() > 10_000,
    ensures
        b.swept(now, window).size() > 10_000 ==> checked(b, ip, now, max_requests, window) == (
            b.swept(now, window),
            false,
        ),
        b.swept(now, window).size() <= 10_000 ==> checked(b, ip, now, max_requests, window)
            == checked(b.swept(now, window), ip, now, max_requests, window),
{
}

/// A request that is one too many is told to come back later.
pub proof fn refusals_tell_of_the_limit()
    ensures
        too_many().status == 429,
        too_many().code == "rate_limited"@,
        too_many().message == "请求过于频繁，请稍后再试"@,
{
}

/// The texts that may name the client, in the order in which they count.
pub open spec fn named_clients(headers: RequestHeaders, trusted: bool) -> (
    Option<Seq<char>>,
    Option<Seq<char>>,
) {
    (
        match headers.x_forwarded_for.value() {
            Some(v) => if trusted {
                Some(first_listed(v))
            } else {
                None
            },
            None => None,
        },
        match headers.x_real_ip.value() {
            Some(v) => if trusted {
                Some(trimmed(v))
            } else {
                None
            },
            None => None,
        },
    )
}

/// Headers name the client only where they are trusted: the first entry of the
/// list, however long it is, and the single address, without white space.
pub proof fn only_trusted_headers_name_the_client(
    headers: RequestHeaders,
    a: Seq<char>,
    entry: Seq<char>,
    b: Seq<char>,
    rest: Seq<char>,
)
    requires
        all_space(a),
        all_space(b),
        !(a + entry + b).contains(','),
        entry.len() > 0 ==> !is_space(entry[0]) && !is_space(entry.last()),
    ensures
        named_clients(headers, false) == (None::<Seq<char>>, None::<Seq<char>>),
        headers.x_forwarded_for matches HeaderField::Text(v) && v@ == a + entry + b + seq![',']
            + rest ==> named_clients(headers, true).0 == Some(entry),
        headers.x_forwarded_for matches HeaderField::Text(v) && v@ == a + entry + b
            ==> named_clients(headers, true).0 == Some(entry),
        headers.x_real_ip matches HeaderField::Text(v) && v@ == a + entry + b ==> named_clients(
            headers,
            true,
        ).1 == Some(entry),
        !(headers.x_forwarded_for is Text) ==> named_clients(headers, true).0 is None,
        !(headers.x_real_ip is Text) ==> named_clients(headers, true).1 is None,
{
    first_entries_stand_before_the_comma(a, entry, b, rest);
    trimming_gives_the_text(a, entry, b);
}

} // verus!

//! The headers of a request that the service reads.
use vstd::prelude::*;
use vstd::string::*;

use crate::text::all_space;
use crate::text::before;
use crate::text::begins;
use crate::text::behind;
use crate::text::first_part;
use crate::text::is_space;
use crate::text::lemma_next_char;
use crate::text::next_char;
use crate::text::opt_view;
use crate::text::parts_around_a_character;
use crate::text::pieces;
use crate::text::same;
use crate::text::side_by_side;
use crate::text::split;
use crate::text::split_once;
use crate::text::splitting_gives_the_parts;
use crate::text::trim;
use crate::text::trimmed;
use crate::text::trimming_gives_the_text;
use crate::text::views;

verus! {

/// A header of a request.
#[derive(Debug)]
pub enum HeaderField {
    /// The request does not have it.
    Absent,
    /// Its value is no visible ASCII text.
    Opaque,
    /// Its value.
    Text(String),
}

impl HeaderField {
    /// The value, if there is one and it is text.
    pub open spec fn value(self) -> Option<Seq<char>> {
        match self {
            HeaderField::Text(s) => Some(s@),
            _ => None,
        }
    }

    /// The value, if there is one and it is text.
    pub fn text(&self) -> (r: Option<String>)
        ensures
            opt_view(r) == self.value(),
    {
        match self {
            HeaderField::Text(s) => Some(String::from_str(s.as_str())),
            _ => None,
        }
    }
}

/// The headers of a request that the service reads.
#[derive(Debug)]
pub struct RequestHeaders {
    pub host: HeaderField,
    pub x_forwarded_host: HeaderField,
    pub x_forwarded_proto: HeaderField,
    pub x_forwarded_for: HeaderField,
    pub x_real_ip: HeaderField,
    pub x_api_key: HeaderField,
    pub origin: HeaderField,
    pub referer: HeaderField,
    pub cookie: HeaderField,
    pub accept: HeaderField,
}

impl RequestHeaders {
    /// A request without any of the headers.
    pub fn none() -> (r: Self)
        ensures
            r.host is Absent,
            r.x_forwarded_host is Absent,
            r.x_forwarded_proto is Absent,
            r.x_forwarded_for is Absent,
            r.x_real_ip is Absent,
            r.x_api_key is Absent,
            r.origin is Absent,
            r.referer is Absent,
            r.cookie is Absent,
            r.accept is Absent,
    {
        RequestHeaders {
            host: HeaderField::Absent,
            x_forwarded_host: HeaderField::Absent,
            x_forwarded_proto: HeaderField::Absent,
            x_forwarded_for: HeaderField::Absent,
            x_real_ip: HeaderField::Absent,
            x_api_key: HeaderField::Absent,
            origin: HeaderField::Absent,
            referer: HeaderField::Absent,
            cookie: HeaderField::Absent,
            accept: HeaderField::Absent,
        }
    }
}

/// The part of a list in a header before its first comma, without white space
/// around it.
pub open spec fn first_listed(value: Seq<char>) -> Seq<char> {
    trimmed(before(value, ','))
}

/// The first entry of a list in a header.
pub fn first_entry(value: &str) -> (r: String)
    ensures
        r@ == first_listed(value@),
{
    trim(first_part(value, ',').as_str())
}

/// The value of the cookie `name` among the parts of a cookie header: what
/// stands behind the equals sign of the first part with that name.
pub open spec fn cookie_among(parts: Seq<Seq<char>>, name: Seq<char>) -> Option<Seq<char>>
    decreases parts.len(),
{
    if parts.len() == 0 {
        None
    } else {
        let kv = trimmed(parts[0]);
        if kv.contains('=') && before(kv, '=') == name {
            Some(behind(kv, '='))
        } else {
            cookie_among(parts.drop_first(), name)
        }
    }
}

/// The value of the cookie `name` in a cookie header.
pub open spec fn cookie_in(header: Seq<char>, name: Seq<char>) -> Option<Seq<char>> {
    cookie_among(pieces(header, ';'), name)
}

/// The value of the cookie `name` in the headers of a request.
pub open spec fn cookie_of(headers: RequestHeaders, name: Seq<char>) -> Option<Seq<char>> {
    match headers.cookie.value() {
        Some(h) => cookie_in(h, name),
        None => None,
    }
}

/// The value of a cookie of the request.
pub fn extract_cookie(headers: &RequestHeaders, name: &str) -> (r: Option<String>)
    ensures
        opt_view(r) == cookie_of(*headers, name@),
{
    match headers.cookie.text() {
        Some(h) => {
            let parts: Vec<String> = split(h.as_str(), ';');
            let mut i: usize = 0;
            proof {
                assert(views(parts@).skip(0) =~= views(parts@));
            }
            while i < parts.len()
                invariant
                    i <= parts@.len(),
                    cookie_of(*headers, name@) == cookie_among(
                        views(parts@).skip(i as int),
                        name@,
                    ),
                decreases parts@.len() - i,
            {
                proof {
                    assert(views(parts@).skip(i as int)[0] == parts@[i as int]@);
                    assert(views(parts@).skip(i as int).drop_first() =~= views(parts@).skip(i + 1));
                }
                let kv: String = trim(parts[i].as_str());
                if let Some((k, v)) = split_once(kv.as_str(), '=') {
                    if same(k.as_str(), name) {
                        return Some(v);
                    }
                }
                i += 1;
            }
            None
        },
        None => None,
    }
}

/// The scheme that the client used, as the first proxy reports it; `http` if
/// none does.
pub open spec fn proto_of(headers: RequestHeaders) -> Seq<char> {
    match headers.x_forwarded_proto.value() {
        Some(v) => if first_listed(v) == "http"@ || first_listed(v) == "https"@ {
            first_listed(v)
        } else {
            "http"@
        },
        None => "http"@,
    }
}

/// The scheme that the client used.
pub fn forwarded_proto(headers: &RequestHeaders) -> (r: String)
    ensures
        r@ == proto_of(*headers),
{
    match headers.x_forwarded_proto.text() {
        Some(v) => {
            let first: String = first_entry(v.as_str());
            if same(first.as_str(), "http") || same(first.as_str(), "https") {
                first
            } else {
                String::from_str("http")
            }
        },
        None => String::from_str("http"),
    }
}

/// The host that the client asked for: as the first proxy reports it, else as
/// the request says. A report that is no text hides what the request says.
pub open spec fn host_of(headers: RequestHeaders) -> Option<Seq<char>> {
    let field = if headers.x_forwarded_host is Absent {
        headers.host
    } else {
        headers.x_forwarded_host
    };
    match field.value() {
        Some(v) => if first_listed(v).len() > 0 {
            Some(first_listed(v))
        } else {
            None
        },
        None => None,
    }
}

/// The host that the client asked for.
pub fn request_host(headers: &RequestHeaders) -> (r: Option<String>)
    ensures
        opt_view(r) == host_of(*headers),
{
    let text: Option<String> = match &headers.x_forwarded_host {
        HeaderField::Absent => headers.host.text(),
        f => f.text(),
    };
    match text {
        Some(v) => {
            let first: String = first_entry(v.as_str());
            if first.as_str().is_empty() {
                None
            } else {
                Some(first)
            }
        },
        None => None,
    }
}

/// A part of a cookie header sets the cookie `name`: without white space
/// around it, it begins with the name and an equals sign.
pub open spec fn sets_cookie(part: Seq<char>, name: Seq<char>) -> bool {
    begins(trimmed(part), name + seq!['='])
}

proof fn lemma_sets_cookie(part: Seq<char>, name: Seq<char>)
    requires
        !name.contains('='),
    ensures
        sets_cookie(part, name) <==> trimmed(part).contains('=') && before(trimmed(part), '=')
            == name,
{
    let kv = trimmed(part);
    if sets_cookie(part, name) {
        let rest = kv.skip(name.len() as int + 1);
        assert(kv =~= name + seq!['='] + rest) by {
            assert(kv.subrange(0, (name.len() + 1) as int) == name + seq!['=']);
        }
        parts_around_a_character(name, '=', rest);
        assert(kv[name.len() as int] == '=');
    } else if kv.contains('=') && before(kv, '=') == name {
        lemma_next_char(kv, '=', 0);
        let k = next_char(kv, '=', 0);
        let j = choose|j: int| 0 <= j < kv.len() && kv[j] == '=';
        assert(k < kv.len());
        assert(kv.subrange(0, (name.len() + 1) as int) =~= name + seq!['=']);
    }
}

proof fn lemma_cookie_among(parts: Seq<Seq<char>>, name: Seq<char>, i: int)
    requires
        !name.contains('='),
        0 <= i <= parts.len(),
        forall|j: int| 0 <= j < i ==> !sets_cookie(#[trigger] parts[j], name),
        i < parts.len() ==> sets_cookie(parts[i], name),
    ensures
        cookie_among(parts, name) == if i < parts.len() {
            Some(behind(trimmed(parts[i]), '='))
        } else {
            None
        },
    decreases parts.len(),
{
    if parts.len() > 0 {
        lemma_sets_cookie(parts[0], name);
        if i > 0 {
            let rest = parts.drop_first();
            assert(!sets_cookie(parts[0], name));
            assert forall|j: int| 0 <= j < i - 1 implies !sets_cookie(#[trigger] rest[j], name) by {
                assert(rest[j] == parts[j + 1]);
            }
            lemma_cookie_among(rest, name, i - 1);
        }
    }
}

/// A cookie is found wherever it stands in the header: among any number of
/// parts, the first that sets the name gives the value, with white space
/// around it or not and whatever stands behind it. The value may hold further
/// equals signs.
pub proof fn cookies_are_found_anywhere(
    parts: Seq<Seq<char>>,
    i: int,
    name: Seq<char>,
    value: Seq<char>,
    a: Seq<char>,
    b: Seq<char>,
)
    requires
        name.len() > 0,
        !name.contains('='),
        !is_space(name[0]),
        value.len() > 0 ==> !is_space(value.last()),
        all_space(a),
        all_space(b),
        0 <= i < parts.len(),
        parts[i] == a + (name + seq!['='] + value) + b,
        forall|j: int| 0 <= j < parts.len() ==> !(#[trigger] parts[j]).contains(';'),
        forall|j: int| 0 <= j < i ==> !sets_cookie(#[trigger] parts[j], name),
    ensures
        cookie_in(side_by_side(parts, ';'), name) == Some(value),
{
    let kv = name + seq!['='] + value;
    splitting_gives_the_parts(parts, ';');
    trimming_gives_the_text(a, kv, b);
    assert(kv.subrange(0, (name.len() + 1) as int) =~= name + seq!['=']);
    lemma_cookie_among(parts, name, i);
    parts_around_a_character(name, '=', value);
}

/// A cookie that no part of the header sets is not found.
pub proof fn missing_cookies_are_not_found(parts: Seq<Seq<char>>, name: Seq<char>)
    requires
        !name.contains('='),
        parts.len() > 0,
        forall|j: int| 0 <= j < parts.len() ==> !(#[trigger] parts[j]).contains(';'),
        forall|j: int| 0 <= j < parts.len() ==> !sets_cookie(#[trigger] parts[j], name),
    ensures
        cookie_in(side_by_side(parts, ';'), name) is None,
{
    splitting_gives_the_parts(parts, ';');
    lemma_cookie_among(parts, name, parts.len() as int);
}

/// A request has the cookies of its cookie header; without one that is text it
/// has none.
pub proof fn requests_have_the_cookies_of_their_header(headers: RequestHeaders, name: Seq<char>)
    ensures
        headers.cookie matches HeaderField::Text(h) ==> cookie_of(headers, name) == cookie_in(
            h@,
            name,
        ),
        !(headers.cookie is Text) ==> cookie_of(headers, name) is None,
{
}

/// The first entry of a list is what stands before the first comma, without
/// the white space around it, however long the list is.
pub proof fn first_entries_stand_before_the_comma(
    a: Seq<char>,
    entry: Seq<char>,
    b: Seq<char>,
    rest: Seq<char>,
)
    requires
        all_space(a),
        all_space(b),
        !(a + entry + b).contains(','),
        entry.len() > 0 ==> !is_space(entry[0]) && !is_space(entry.last()),
    ensures
        first_listed(a + entry + b) == entry,
        first_listed(a + entry + b + seq![','] + rest) == entry,
{
    trimming_gives_the_text(a, entry, b);
    parts_around_a_character(a + entry + b, ',', rest);
}

/// The scheme is the one that the first proxy names if that is `https`; in
/// every other case it is `http`.
pub proof fn schemes_of_clients(headers: RequestHeaders)
    ensures
        headers.x_forwarded_proto matches HeaderField::Text(v) && first_listed(v@) == "https"@
            ==> proto_of(headers) == "https"@,
        !(headers.x_forwarded_proto matches HeaderField::Text(v) && first_listed(v@) == "https"@)
            ==> proto_of(headers) == "http"@,
{
}

/// The host is the first that the proxy names; without a proxy, the first of
/// the request itself. What is empty or no text is no host.
pub proof fn hosts_of_clients(headers: RequestHeaders)
    ensures
        headers.x_forwarded_host matches HeaderField::Text(v) && first_listed(v@).len() > 0
            ==> host_of(headers) == Some(first_listed(headers.x_forwarded_host->0@)),
        headers.x_forwarded_host matches HeaderField::Text(v) && first_listed(v@).len() == 0
            ==> host_of(headers) is None,
        headers.x_forwarded_host is Opaque ==> host_of(headers) is None,
        headers.x_forwarded_host is Absent ==> (headers.host matches HeaderField::Text(v)
            && first_listed(v@).len() > 0 ==> host_of(headers) == Some(
            first_listed(headers.host->0@),
        )),
        headers.x_forwarded_host is Absent && !(headers.host matches HeaderField::Text(v)
            && first_listed(v@).len() > 0) ==> host_of(headers) is None,
{
}

} // verus!

//! The headers that every answer carries.
use vstd::prelude::*;
use vstd::string::*;

use crate::middleware::auth::is_https;
use crate::middleware::auth::over_https;
use crate::middleware::headers::HeaderField;
use crate::middleware::headers::RequestHeaders;
use crate::text::opt_str_view;
use crate::text::same;

verus! {

/// The name and the value of a header.
pub open spec fn pair_views(ps: Seq<(String, String)>) -> Seq<(Seq<char>, Seq<char>)> {
    ps.map_values(|p: (String, String)| (p.0@, p.1@))
}

/// The headers that every answer carries: no sniffing of media types, no
/// frames, little of the referrer, no devices, no legacy filter, no policies
/// of other domains, and a content security policy.
pub open spec fn fixed_headers() -> Seq<(Seq<char>, Seq<char>)> {
    seq![
        ("X-Content-Type-Options"@, "nosniff"@),
        ("X-Frame-Options"@, "DENY"@),
        ("Referrer-Policy"@, "strict-origin-when-cross-origin"@),
        (
            "Permissions-Policy"@,
            "geolocation=(), microphone=(), camera=(), payment=(), usb=(), magnetometer=(), gyroscope=()"@,
        ),
        ("X-XSS-Protection"@, "0"@),
        ("X-Permitted-Cross-Domain-Policies"@, "none"@),
        (
            "Content-Security-Policy"@,
            "default-src 'self'; script-src 'self' 'unsafe-inline'; style-src 'self' 'unsafe-inline'; img-src 'self' data: blob:; connect-src 'self'; font-src 'self'; frame-ancestors 'none'; base-uri 'self'; form-action 'self'"@,
        ),
    ]
}

/// The header that keeps a browser on HTTPS.
pub open spec fn transport_header() -> (Seq<char>, Seq<char>) {
    ("Strict-Transport-Security"@, "max-age=31536000; includeSubDomains"@)
}

/// The request came in over HTTPS, by what a proxy reports or by its own
/// address.
pub open spec fn arrived_over_https(headers: RequestHeaders, scheme: Option<Seq<char>>) -> bool {
    over_https(headers) || scheme == Some("https"@)
}

fn header(name: &str, value: &str) -> (r: (String, String))
    ensures
        (r.0@, r.1@) == (name@, value@),
{
    (String::from_str(name), String::from_str(value))
}

/// The headers to set on the answer to a request, the last one only for a
/// request over HTTPS.
pub fn security_headers_middleware(headers: &RequestHeaders, scheme: Option<&str>) -> (r: Vec<
    (String, String),
>)
    ensures
        pair_views(r@) == if arrived_over_https(*headers, opt_str_view(scheme)) {
            fixed_headers().push(transport_header())
        } else {
            fixed_headers()
        },
        pair_views(r@) == sent_headers(arrived_over_https(*headers, opt_str_view(scheme))),
{
    let mut out: Vec<(String, String)> = vec![
        header("X-Content-Type-Options", "nosniff"),
        header("X-Frame-Options", "DENY"),
        header("Referrer-Policy", "strict-origin-when-cross-origin"),
        header(
            "Permissions-Policy",
            "geolocation=(), microphone=(), camera=(), payment=(), usb=(), magnetometer=(), gyroscope=()",
        ),
        header("X-XSS-Protection", "0"),
        header("X-Permitted-Cross-Domain-Policies", "none"),
        header(
            "Content-Security-Policy",
            "default-src 'self'; script-src 'self' 'unsafe-inline'; style-src 'self' 'unsafe-inline'; img-src 'self' data: blob:; connect-src 'self'; font-src 'self'; frame-ancestors 'none'; base-uri 'self'; form-action 'self'",
        ),
    ];
    proof {
        assert(pair_views(out@) =~= fixed_headers());
    }
    let direct: bool = match scheme {
        Some(s) => same(s, "https"),
        None => false,
    };
    if is_https(headers) || direct {
        out.push(header("Strict-Transport-Security", "max-age=31536000; includeSubDomains"));
        proof {
            assert(pair_views(out@) =~= fixed_headers().push(transport_header()));
        }
    }
    out
}

/// A browser is kept on HTTPS only by an answer over HTTPS.
pub proof fn transport_header_only_over_https(
    headers: RequestHeaders,
    scheme: Option<Seq<char>>,
    sent: Seq<(Seq<char>, Seq<char>)>,
)
    requires
        sent == if arrived_over_https(headers, scheme) {
            fixed_headers().push(transport_header())
        } else {
            fixed_headers()
        },
    ensures
        sent.contains(transport_header()) <==> arrived_over_https(headers, scheme),
{
    reveal_strlit("X-Content-Type-Options");
    reveal_strlit("X-Frame-Options");
    reveal_strlit("Referrer-Policy");
    reveal_strlit("Permissions-Policy");
    reveal_strlit("X-XSS-Protection");
    reveal_strlit("X-Permitted-Cross-Domain-Policies");
    reveal_strlit("Content-Security-Policy");
    reveal_strlit("Strict-Transport-Security");
    let name = "Strict-Transport-Security"@;
    assert(name[0] == 'S');
    assert("X-Content-Type-Options"@[0] == 'X');
    assert("X-Frame-Options"@[0] == 'X');
    assert("Referrer-Policy"@[0] == 'R');
    assert("Permissions-Policy"@[0] == 'P');
    assert("X-XSS-Protection"@[0] == 'X');
    assert("X-Permitted-Cross-Domain-Policies"@[0] == 'X');
    assert("Content-Security-Policy"@[0] == 'C');
    if arrived_over_https(headers, scheme) {
        assert(sent[7] == transport_header());
    } else {
        assert forall|i: int| 0 <= i < sent.len() implies sent[i] != transport_header() by {
            assert(sent[i].0[0] != 'S');
        }
    }
}

/// What is sent with the answer to a request over HTTPS, or not.
pub open spec fn sent_headers(https: bool) -> Seq<(Seq<char>, Seq<char>)> {
    if https {
        fixed_headers().push(transport_header())
    } else {
        fixed_headers()
    }
}

/// Whatever the request, its answer keeps browsers from guessing media types,
/// from frames and from foreign policies, switches devices off, and names
/// itself as the only source of content.
pub proof fn answers_are_guarded(https: bool)
    ensures
        ({
            let sent = sent_headers(https);
            &&& sent.contains(("X-Content-Type-Options"@, "nosniff"@))
            &&& sent.contains(("X-Frame-Options"@, "DENY"@))
            &&& sent.contains(("Referrer-Policy"@, "strict-origin-when-cross-origin"@))
            &&& sent.contains(
                (
                    "Permissions-Policy"@,
                    "geolocation=(), microphone=(), camera=(), payment=(), usb=(), magnetometer=(), gyroscope=()"@,
                ),
            )
            &&& sent.contains(("X-XSS-Protection"@, "0"@))
            &&& sent.contains(("X-Permitted-Cross-Domain-Policies"@, "none"@))
            &&& sent.contains(
                (
                    "Content-Security-Policy"@,
                    "default-src 'self'; script-src 'self' 'unsafe-inline'; style-src 'self' 'unsafe-inline'; img-src 'self' data: blob:; connect-src 'self'; font-src 'self'; frame-ancestors 'none'; base-uri 'self'; form-action 'self'"@,
                ),
            )
            &&& https ==> sent.contains(
                ("Strict-Transport-Security"@, "max-age=31536000; includeSubDomains"@),
            )
            &&& sent.len() == if https {
                8nat
            } else {
                7nat
            }
        }),
{
    let sent = sent_headers(https);
    assert(sent[0] == fixed_headers()[0]);
    assert(sent[1] == fixed_headers()[1]);
    assert(sent[2] == fixed_headers()[2]);
    assert(sent[3] == fixed_headers()[3]);
    assert(sent[4] == fixed_headers()[4]);
    assert(sent[5] == fixed_headers()[5]);
    assert(sent[6] == fixed_headers()[6]);
    if https {
        assert(sent[7] == transport_header());
    }
}

/// A request is one over HTTPS if a proxy says so in that very word, or its
/// own address does.
pub proof fn https_is_known_by_its_name(headers: RequestHeaders, scheme: Option<Seq<char>>)
    ensures
        arrived_over_https(headers, scheme) <==> scheme == Some("https"@) || (
        headers.x_forwarded_proto matches HeaderField::Text(v) && v@ == "https"@),
{
}

} // verus!

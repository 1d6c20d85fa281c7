//! File names: the last component of a path, its extension, and names made
//! safe for storage.
use vstd::prelude::*;
use vstd::string::*;
use vstd::utf8::*;

use crate::text::chars_of;
use crate::text::lemma_next_char;
use crate::text::lemma_next_char_none;
use crate::text::next_char;
use crate::text::pieces;
use crate::text::same;
use crate::text::split;
use crate::text::split_from;
use crate::text::text_of;
use crate::text::views;

verus! {

/// The most bytes that a file name keeps.
pub const MAX_NAME_BYTES: usize = 255;

/// The characters of the Unicode category Cc.
pub open spec fn is_control(c: char) -> bool {
    ||| c <= '\u{1f}'
    ||| '\u{7f}' <= c <= '\u{9f}'
}

/// `s` without its control characters.
pub open spec fn without_controls(s: Seq<char>) -> Seq<char>
    decreases s.len(),
{
    if s.len() == 0 {
        s
    } else if is_control(s.last()) {
        without_controls(s.drop_last())
    } else {
        without_controls(s.drop_last()).push(s.last())
    }
}

/// The last of the components of a path that counts: not an empty one and
/// not a single dot.
pub open spec fn last_component(ps: Seq<Seq<char>>) -> Option<Seq<char>>
    decreases ps.len(),
{
    if ps.len() == 0 {
        None
    } else if ps.last().len() == 0 || ps.last() == "."@ {
        last_component(ps.drop_last())
    } else {
        Some(ps.last())
    }
}

/// The file name at the end of a path with slashes; none if the path has no
/// component or ends in `..`.
pub open spec fn base_name(raw: Seq<char>) -> Option<Seq<char>> {
    match last_component(pieces(raw, '/')) {
        Some(p) => if p == ".."@ {
            None
        } else {
            Some(p)
        },
        None => None,
    }
}

/// The longest beginning of `s` that takes at most `limit` bytes in UTF-8.
pub open spec fn fitting(s: Seq<char>, limit: nat) -> Seq<char>
    decreases s.len(),
{
    if encode_utf8(s).len() <= limit || s.len() == 0 {
        s
    } else {
        fitting(s.drop_last(), limit)
    }
}

/// A file name made safe: the base name without control characters, cut to
/// the byte limit at a character boundary; `upload` if nothing is left.
pub open spec fn safe_name(raw: Seq<char>) -> Seq<char> {
    let name = match base_name(raw) {
        Some(n) => n,
        None => "upload"@,
    };
    let clean = without_controls(name);
    if clean.len() == 0 {
        "upload"@
    } else {
        fitting(clean, MAX_NAME_BYTES as nat)
    }
}

/// The number of bytes of a character in UTF-8.
fn char_width(c: char) -> (r: usize)
    ensures
        r == encode_scalar(c as u32).len(),
        1 <= r <= 4,
{
    let v: u32 = c as u32;
    if v <= 0x7f {
        1
    } else if v <= 0x7ff {
        2
    } else if v <= 0xffff {
        3
    } else {
        4
    }
}

proof fn lemma_encode_push(s: Seq<char>, c: char)
    ensures
        encode_utf8(s.push(c)) == encode_utf8(s) + encode_scalar(c as u32),
{
    reveal_with_fuel(encode_utf8, 2);
    assert(s.push(c) =~= s + seq![c]);
    crate::text::lemma_encode_join(s, seq![c]);
    assert(seq![c].drop_first() =~= Seq::<char>::empty());
    assert(encode_utf8(seq![c]) =~= encode_scalar(c as u32));
}

proof fn lemma_encode_take(s: Seq<char>, k: int)
    requires
        0 <= k <= s.len(),
    ensures
        encode_utf8(s.take(k)).len() <= encode_utf8(s).len(),
{
    assert(s =~= s.take(k) + s.skip(k));
    crate::text::lemma_encode_join(s.take(k), s.skip(k));
}

proof fn lemma_fitting(s: Seq<char>, k: int, limit: nat)
    requires
        0 <= k <= s.len(),
        encode_utf8(s.take(k)).len() <= limit,
        k < s.len() ==> encode_utf8(s.take(k + 1)).len() > limit,
    ensures
        fitting(s, limit) == s.take(k),
    decreases s.len(),
{
    if k == s.len() {
        assert(s.take(k) =~= s);
    } else {
        lemma_encode_take(s, k + 1);
        let t = s.drop_last();
        assert(t.take(k) =~= s.take(k));
        if k < t.len() {
            assert(t.take(k + 1) =~= s.take(k + 1));
        }
        lemma_fitting(t, k, limit);
    }
}

/// The path component that counts as file name.
fn component(ps: &Vec<String>) -> (r: Option<String>)
    ensures
        crate::text::opt_view(r) == last_component(views(ps@)),
{
    let mut n: usize = ps.len();
    proof {
        assert(views(ps@).take(n as int) =~= views(ps@));
    }
    while n > 0
        invariant
            n <= ps@.len(),
            last_component(views(ps@)) == last_component(views(ps@).take(n as int)),
        decreases n,
    {
        let p: &str = ps[n - 1].as_str();
        proof {
            assert(views(ps@).take(n as int).last() == p@);
            assert(views(ps@).take(n as int).drop_last() =~= views(ps@).take(n - 1));
        }
        if !p.is_empty() && !same(p, ".") {
            return Some(String::from_str(p));
        }
        n -= 1;
    }
    None
}

/// The file name at the end of a path with slashes.
pub fn base_of(raw: &str) -> (r: Option<String>)
    ensures
        crate::text::opt_view(r) == base_name(raw@),
{
    match component(&split(raw, '/')) {
        Some(p) => if same(p.as_str(), "..") {
            None
        } else {
            Some(p)
        },
        None => None,
    }
}

/// The last position of `c` in `s`, or -1.
pub open spec fn last_position(s: Seq<char>, c: char) -> int
    decreases s.len(),
{
    if s.len() == 0 {
        -1
    } else if s.last() == c {
        s.len() - 1
    } else {
        last_position(s.drop_last(), c)
    }
}

/// What stands behind the last dot of the file name; nothing if it has no
/// dot, or only one in front.
pub open spec fn extension(name: Seq<char>) -> Seq<char> {
    match base_name(name) {
        Some(b) => {
            let i = last_position(b, '.');
            if i <= 0 {
                Seq::empty()
            } else {
                b.subrange(i + 1, b.len() as int)
            }
        },
        None => Seq::empty(),
    }
}

/// The extension of a file name, empty if it has none.
pub fn extension_of(name: &str) -> (r: String)
    ensures
        r@ == extension(name@),
{
    match base_of(name) {
        Some(b) => {
            let v: Vec<char> = chars_of(b.as_str());
            let mut n: usize = v.len();
            proof {
                assert(v@.take(n as int) =~= v@);
            }
            while n > 0 && v[n - 1] != '.'
                invariant
                    n <= v@.len(),
                    last_position(v@, '.') == last_position(v@.take(n as int), '.'),
                decreases n,
            {
                proof {
                    assert(v@.take(n as int).drop_last() =~= v@.take(n - 1));
                }
                n -= 1;
            }
            if n <= 1 {
                String::new()
            } else {
                text_of(&v, n, v.len())
            }
        },
        None => String::new(),
    }
}

/// Sanitize filename: extract the base name, remove control characters,
/// limit the length.
pub fn sanitize_filename(raw: &str) -> (r: String)
    ensures
        r@ == safe_name(raw@),
{
    let name: String = match base_of(raw) {
        Some(p) => p,
        None => String::from_str("upload"),
    };
    let v: Vec<char> = chars_of(name.as_str());
    let mut clean: Vec<char> = Vec::new();
    let mut i: usize = 0;
    proof {
        assert(v@.take(0) =~= Seq::<char>::empty());
    }
    while i < v.len()
        invariant
            i <= v@.len(),
            clean@ == without_controls(v@.take(i as int)),
        decreases v@.len() - i,
    {
        let c: char = v[i];
        proof {
            assert(v@.take(i + 1).drop_last() =~= v@.take(i as int));
            assert(v@.take(i + 1).last() == c);
        }
        if !(c <= '\u{1f}' || ('\u{7f}' <= c && c <= '\u{9f}')) {
            clean.push(c);
        }
        i += 1;
    }
    proof {
        assert(v@.take(i as int) =~= v@);
    }
    if clean.len() == 0 {
        return String::from_str("upload");
    }
    let mut k: usize = 0;
    let mut used: usize = 0;
    proof {
        assert(clean@.take(0) =~= Seq::<char>::empty());
    }
    while k < clean.len() && used + char_width(clean[k]) <= MAX_NAME_BYTES
        invariant
            k <= clean@.len(),
            used <= MAX_NAME_BYTES,
            used == encode_utf8(clean@.take(k as int)).len(),
        decreases clean@.len() - k,
    {
        proof {
            assert(clean@.take(k + 1) =~= clean@.take(k as int).push(clean@[k as int]));
            lemma_encode_push(clean@.take(k as int), clean@[k as int]);
        }
        used += char_width(clean[k]);
        k += 1;
    }
    proof {
        if k < clean@.len() {
            assert(clean@.take(k + 1) =~= clean@.take(k as int).push(clean@[k as int]));
            lemma_encode_push(clean@.take(k as int), clean@[k as int]);
        }
        lemma_fitting(clean@, k as int, MAX_NAME_BYTES as nat);
        assert(clean@.take(k as int) =~= clean@.subrange(0, k as int));
    }
    text_of(&clean, 0, k)
}

proof fn lemma_pieces_free(s: Seq<char>, c: char, from: int)
    requires
        0 <= from <= s.len(),
    ensures
        forall|i: int|
            0 <= i < split_from(s, c, from).len() ==> !(#[trigger] split_from(s, c, from)[i])
                .contains(c),
    decreases s.len() - from,
{
    lemma_next_char(s, c, from);
    let k = next_char(s, c, from);
    let ps = split_from(s, c, from);
    if k < s.len() {
        lemma_pieces_free(s, c, k + 1);
        assert forall|i: int| 0 <= i < ps.len() implies !(#[trigger] ps[i]).contains(c) by {
            if i == 0 {
                assert(ps[0] == s.subrange(from, k));
            } else {
                assert(ps[i] == split_from(s, c, k + 1)[i - 1]);
            }
        }
    } else {
        assert(ps =~= seq![s.subrange(from, s.len() as int)]);
    }
}

proof fn lemma_last_component(ps: Seq<Seq<char>>)
    ensures
        match last_component(ps) {
            Some(p) => p.len() > 0 && ps.contains(p),
            None => true,
        },
    decreases ps.len(),
{
    if ps.len() > 0 {
        if ps.last().len() == 0 || ps.last() == "."@ {
            lemma_last_component(ps.drop_last());
            match last_component(ps) {
                Some(p) => {
                    let i = choose|i: int| 0 <= i < ps.drop_last().len() && ps.drop_last()[i] == p;
                    assert(ps[i] == p);
                },
                None => {},
            }
        } else {
            assert(ps[ps.len() - 1] == ps.last());
        }
    }
}

proof fn lemma_without_controls(s: Seq<char>)
    ensures
        forall|i: int|
            0 <= i < without_controls(s).len() ==> !is_control(#[trigger] without_controls(s)[i])
                && s.contains(without_controls(s)[i]),
    decreases s.len(),
{
    if s.len() > 0 {
        let t = s.drop_last();
        lemma_without_controls(t);
        assert forall|i: int| 0 <= i < without_controls(s).len() implies !is_control(
            #[trigger] without_controls(s)[i],
        ) && s.contains(without_controls(s)[i]) by {
            if i < without_controls(t).len() {
                assert(without_controls(s)[i] == without_controls(t)[i]);
                let j = choose|j: int| 0 <= j < t.len() && t[j] == without_controls(t)[i];
                assert(s[j] == t[j]);
            } else {
                assert(s[s.len() - 1] == s.last());
            }
        }
    }
}

proof fn lemma_fitting_prefix(s: Seq<char>, limit: nat)
    requires
        limit >= 4,
    ensures
        encode_utf8(fitting(s, limit)).len() <= limit,
        fitting(s, limit).len() <= s.len(),
        fitting(s, limit) == s.take(fitting(s, limit).len() as int),
        s.len() > 0 ==> fitting(s, limit).len() > 0,
    decreases s.len(),
{
    if s.len() == 0 {
        assert(s.take(0) =~= s);
    } else if encode_utf8(s).len() <= limit {
        assert(s.take(s.len() as int) =~= s);
    } else {
        let t = s.drop_last();
        lemma_fitting_prefix(t, limit);
        assert(t.take(fitting(s, limit).len() as int) =~= s.take(fitting(s, limit).len() as int));
        if t.len() == 0 {
            lemma_encode_push(t, s.last());
            assert(s =~= t.push(s.last()));
        }
    }
}

/// A sanitized name is never empty, takes at most 255 bytes, and holds
/// neither a control character nor a slash.
pub proof fn sanitized_names_are_safe(raw: Seq<char>)
    ensures
        safe_name(raw).len() > 0,
        encode_utf8(safe_name(raw)).len() <= MAX_NAME_BYTES,
        forall|i: int|
            0 <= i < safe_name(raw).len() ==> !is_control(#[trigger] safe_name(raw)[i])
                && safe_name(raw)[i] != '/',
{
    reveal_strlit("upload");
    let fallback = "upload"@;
    is_ascii_chars_encode_utf8(fallback);
    assert(encode_utf8(fallback).len() == 6);
    lemma_last_component(pieces(raw, '/'));
    lemma_pieces_free(raw, '/', 0);
    let name = match base_name(raw) {
        Some(n) => n,
        None => fallback,
    };
    assert(!name.contains('/')) by {
        match base_name(raw) {
            Some(n) => {
                let ps = pieces(raw, '/');
                let i = choose|i: int| 0 <= i < ps.len() && ps[i] == n;
                assert(!ps[i].contains('/'));
            },
            None => {},
        }
    }
    let clean = without_controls(name);
    lemma_without_controls(name);
    if clean.len() > 0 {
        lemma_fitting_prefix(clean, MAX_NAME_BYTES as nat);
        let out = fitting(clean, MAX_NAME_BYTES as nat);
        assert forall|i: int| 0 <= i < out.len() implies !is_control(#[trigger] out[i]) && out[i]
            != '/' by {
            assert(out[i] == clean[i]);
            assert(name.contains(clean[i]));
        }
    }
}

proof fn lemma_no_controls_left(s: Seq<char>)
    requires
        forall|i: int| 0 <= i < s.len() ==> !is_control(#[trigger] s[i]),
    ensures
        without_controls(s) == s,
    decreases s.len(),
{
    if s.len() > 0 {
        let t = s.drop_last();
        assert forall|i: int| 0 <= i < t.len() implies !is_control(#[trigger] t[i]) by {
            assert(t[i] == s[i]);
        }
        lemma_no_controls_left(t);
        assert(!is_control(s[s.len() - 1]));
        assert(t.push(s.last()) =~= s);
    }
}

/// A sanitized name is left as it is when it is sanitized again, unless it
/// names a directory.
pub proof fn sanitizing_again_changes_nothing(raw: Seq<char>)
    requires
        safe_name(raw) != "."@,
        safe_name(raw) != ".."@,
    ensures
        safe_name(safe_name(raw)) == safe_name(raw),
{
    sanitized_names_are_safe(raw);
    let s = safe_name(raw);
    lemma_next_char_none(s, '/', 0);
    assert(s.subrange(0, s.len() as int) =~= s);
    let ps = pieces(s, '/');
    assert(ps =~= seq![s]);
    assert(ps.last() == s);
    assert(base_name(s) == Some(s));
    lemma_no_controls_left(s);
}

proof fn lemma_pieces_end(a: Seq<char>, b: Seq<char>, from: int)
    requires
        0 <= from <= a.len(),
        !b.contains('/'),
    ensures
        split_from(a + seq!['/'] + b, '/', from) == split_from(a, '/', from).push(b),
    decreases a.len() - from,
{
    let s = a + seq!['/'] + b;
    lemma_next_char(a, '/', from);
    let k = next_char(a, '/', from);
    assert(s[a.len() as int] == '/');
    assert forall|j: int| 0 <= j < a.len() implies s[j] == a[j] by {}
    if k < a.len() {
        crate::text::lemma_next_char_is(s, '/', from, k);
        assert(s.subrange(from, k) =~= a.subrange(from, k));
        lemma_pieces_end(a, b, k + 1);
        assert(split_from(s, '/', from) =~= split_from(a, '/', from).push(b));
    } else {
        crate::text::lemma_next_char_is(s, '/', from, a.len() as int);
        assert(s.subrange(from, a.len() as int) =~= a.subrange(from, a.len() as int));
        let n = a.len() as int + 1;
        assert forall|j: int| n <= j < s.len() implies s[j] != '/' by {
            assert(s[j] == b[j - n]);
            assert(b.contains(b[j - n]));
        }
        lemma_next_char_none(s, '/', n);
        assert(s.subrange(n, s.len() as int) =~= b);
        assert(split_from(s, '/', n) =~= seq![b]);
        assert(split_from(s, '/', from) =~= split_from(a, '/', from).push(b));
    }
}

/// The name of a file is what stands behind the last slash of its path,
/// whatever stands before it.
pub proof fn names_stand_behind_the_last_slash(dir: Seq<char>, name: Seq<char>)
    requires
        name.len() > 0,
        !name.contains('/'),
        name != "."@,
        name != ".."@,
    ensures
        base_name(name) == Some(name),
        base_name(dir + seq!['/'] + name) == Some(name),
{
    lemma_pieces_end(dir, name, 0);
    let ps = pieces(dir, '/').push(name);
    assert(ps.last() == name);
    assert forall|j: int| 0 <= j < name.len() implies name[j] != '/' by {
        assert(name.contains(name[j]));
    }
    lemma_next_char_none(name, '/', 0);
    assert(name.subrange(0, name.len() as int) =~= name);
    assert(pieces(name, '/') =~= seq![name]);
    assert(seq![name].last() == name);
}

/// A slash behind a path, and a slash and a dot, change nothing; a path that
/// ends in two dots has no name.
pub proof fn slashes_behind_a_path_do_not_count(path: Seq<char>)
    ensures
        base_name(path + seq!['/']) == base_name(path),
        base_name(path + seq!['/'] + "."@) == base_name(path),
        base_name(path + seq!['/'] + ".."@) is None,
        base_name(Seq::empty()) is None,
{
    reveal_strlit(".");
    reveal_strlit("..");
    let none = Seq::<char>::empty();
    assert(path + seq!['/'] =~= path + seq!['/'] + none);
    lemma_pieces_end(path, none, 0);
    lemma_pieces_end(path, "."@, 0);
    lemma_pieces_end(path, ".."@, 0);
    let ps = pieces(path, '/');
    assert(ps.push(none).drop_last() =~= ps);
    assert(ps.push("."@).drop_last() =~= ps);
    assert(ps.push(".."@).last() == ".."@);
    assert(".."@.len() == 2 && "."@.len() == 1);
    lemma_next_char_none(none, '/', 0);
    assert(none.subrange(0, 0) =~= none);
    assert(pieces(none, '/') =~= seq![none]);
    assert(seq![none].drop_last() =~= Seq::<Seq<char>>::empty());
    reveal_with_fuel(last_component, 3);
}

/// Control characters are those below the space and those from 127 to 159.
pub proof fn control_characters(c: char)
    ensures
        is_control(c) <==> (c as int) < 0x20 || 0x7f <= c as int <= 0x9f,
{
}

/// Cleaning a text cleans its parts: a control character goes, any other
/// stays where it is.
pub proof fn cleaning_goes_by_parts(a: Seq<char>, b: Seq<char>, c: char)
    ensures
        without_controls(a + b) == without_controls(a) + without_controls(b),
        is_control(c) ==> without_controls(seq![c]).len() == 0,
        !is_control(c) ==> without_controls(seq![c]) == seq![c],
    decreases b.len(),
{
    reveal_with_fuel(without_controls, 2);
    assert(seq![c].drop_last() =~= Seq::<char>::empty());
    assert(without_controls(Seq::<char>::empty()) =~= Seq::<char>::empty());
    if !is_control(c) {
        assert(without_controls(seq![c]) =~= seq![c]);
    }
    if b.len() == 0 {
        assert(a + b =~= a);
        assert(without_controls(a) + without_controls(b) =~= without_controls(a));
    } else {
        cleaning_goes_by_parts(a, b.drop_last(), c);
        assert((a + b).drop_last() =~= a + b.drop_last());
        assert(without_controls(a + b) =~= without_controls(a) + without_controls(b));
    }
}

/// A name that is fit for storage is kept as it is, from whatever path it is
/// taken: one with up to 255 bytes and without control characters.
pub proof fn good_names_are_kept(dir: Seq<char>, name: Seq<char>)
    requires
        name.len() > 0,
        !name.contains('/'),
        name != "."@,
        name != ".."@,
        encode_utf8(name).len() <= 255,
        forall|i: int| 0 <= i < name.len() ==> !is_control(#[trigger] name[i]),
    ensures
        safe_name(name) == name,
        safe_name(dir + seq!['/'] + name) == name,
{
    names_stand_behind_the_last_slash(dir, name);
    lemma_no_controls_left(name);
}

/// A name that is too long is cut, and no further than it has to be: what is
/// left is the beginning of the name, and with the next character it would
/// take more than 255 bytes.
pub proof fn long_names_are_cut_once(name: Seq<char>)
    requires
        name.len() > 0,
        !name.contains('/'),
        name != "."@,
        name != ".."@,
        encode_utf8(name).len() > 255,
        forall|i: int| 0 <= i < name.len() ==> !is_control(#[trigger] name[i]),
    ensures
        safe_name(name).len() < name.len(),
        safe_name(name) == name.take(safe_name(name).len() as int),
        encode_utf8(safe_name(name)).len() <= 255,
        encode_utf8(name.take(safe_name(name).len() as int + 1)).len() > 255,
{
    names_stand_behind_the_last_slash(Seq::empty(), name);
    lemma_no_controls_left(name);
    lemma_fitting_prefix(name, 255);
    lemma_fitting_longest(name, 255);
}

proof fn lemma_fitting_longest(s: Seq<char>, limit: nat)
    requires
        encode_utf8(s).len() > limit,
        limit >= 4,
    ensures
        fitting(s, limit).len() < s.len(),
        encode_utf8(s.take(fitting(s, limit).len() as int + 1)).len() > limit,
    decreases s.len(),
{
    if s.len() == 0 {
        assert(encode_utf8(s).len() == 0);
    } else {
        let t = s.drop_last();
        lemma_fitting_prefix(t, limit);
        if encode_utf8(t).len() <= limit {
            assert(s.take(t.len() as int + 1) =~= s);
        } else {
            lemma_fitting_longest(t, limit);
            let k = fitting(t, limit).len() + 1;
            assert(t.take(k as int) =~= s.take(k as int));
        }
    }
}

/// A path without a name, and a name of nothing but control characters, is
/// stored as `upload`.
pub proof fn nameless_files_are_uploads(raw: Seq<char>)
    requires
        base_name(raw) is None || forall|i: int|
            0 <= i < base_name(raw)->0.len() ==> is_control(#[trigger] base_name(raw)->0[i]),
    ensures
        safe_name(raw) == "upload"@,
{
    reveal_strlit("upload");
    let fallback = "upload"@;
    is_ascii_chars_encode_utf8(fallback);
    if base_name(raw) is None {
        assert(fallback.len() == 6);
        lemma_no_controls_left(fallback);
    } else {
        lemma_all_controls(base_name(raw)->0);
    }
}

proof fn lemma_all_controls(s: Seq<char>)
    requires
        forall|i: int| 0 <= i < s.len() ==> is_control(#[trigger] s[i]),
    ensures
        without_controls(s).len() == 0,
    decreases s.len(),
{
    if s.len() > 0 {
        let t = s.drop_last();
        assert(is_control(s[s.len() - 1]));
        assert forall|i: int| 0 <= i < t.len() implies is_control(#[trigger] t[i]) by {
            assert(t[i] == s[i]);
        }
        lemma_all_controls(t);
    }
}

proof fn lemma_last_position(a: Seq<char>, c: char, b: Seq<char>)
    requires
        !b.contains(c),
    ensures
        last_position(a + seq![c] + b, c) == a.len(),
    decreases b.len(),
{
    let s = a + seq![c] + b;
    if b.len() == 0 {
        assert(s =~= a + seq![c]);
        assert(s.last() == c);
    } else {
        assert(b.contains(b.last()));
        assert forall|x: char| #[trigger] b.drop_last().contains(x) implies b.contains(x) by {
            let i = choose|i: int| 0 <= i < b.drop_last().len() && b.drop_last()[i] == x;
            assert(b[i] == x);
        }
        lemma_last_position(a, c, b.drop_last());
        assert(s.drop_last() =~= a + seq![c] + b.drop_last());
    }
}

/// The extension of a file is what stands behind the last dot of its name,
/// however many dots the name has.
pub proof fn extensions_stand_behind_the_last_dot(
    dir: Seq<char>,
    stem: Seq<char>,
    ext: Seq<char>,
)
    requires
        stem.len() > 0,
        !stem.contains('/'),
        !ext.contains('/'),
        !ext.contains('.'),
        stem + seq!['.'] + ext != ".."@,
    ensures
        extension(dir + seq!['/'] + (stem + seq!['.'] + ext)) == ext,
        extension(stem + seq!['.'] + ext) == ext,
{
    reveal_strlit(".");
    let name = stem + seq!['.'] + ext;
    assert(!name.contains('/')) by {
        if name.contains('/') {
            let i = choose|i: int| 0 <= i < name.len() && name[i] == '/';
            if i < stem.len() {
                assert(stem[i] == '/');
            } else {
                assert(ext[i - stem.len() - 1] == '/');
            }
        }
    }
    assert(name.len() >= 2);
    assert("."@.len() == 1);
    names_stand_behind_the_last_slash(dir, name);
    lemma_last_position(stem, '.', ext);
    assert(name.subrange(stem.len() as int + 1, name.len() as int) =~= ext);
}

proof fn lemma_no_position(s: Seq<char>, c: char)
    requires
        !s.contains(c),
    ensures
        last_position(s, c) == -1,
    decreases s.len(),
{
    if s.len() > 0 {
        assert(s.contains(s.last()));
        assert forall|x: char| #[trigger] s.drop_last().contains(x) implies s.contains(x) by {
            let i = choose|i: int| 0 <= i < s.drop_last().len() && s.drop_last()[i] == x;
            assert(s[i] == x);
        }
        lemma_no_position(s.drop_last(), c);
    }
}

/// A name without a dot has no extension, and neither has one whose only dot
/// is in front.
pub proof fn names_without_an_extension(name: Seq<char>)
    requires
        !name.contains('/'),
        !name.contains('.'),
    ensures
        extension(name).len() == 0,
        extension(seq!['.'] + name).len() == 0,
{
    reveal_strlit(".");
    reveal_strlit("..");
    lemma_no_position(name, '.');
    if name.len() > 0 {
        assert(name[0] != '.') by {
            assert(name.contains(name[0]));
        }
        assert("."@[0] == '.' && ".."@[0] == '.' && ".."@[1] == '.');
        names_stand_behind_the_last_slash(Seq::empty(), name);
        let hidden = seq!['.'] + name;
        assert(!hidden.contains('/')) by {
            if hidden.contains('/') {
                let i = choose|i: int| 0 <= i < hidden.len() && hidden[i] == '/';
                assert(name[i - 1] == '/');
            }
        }
        assert(hidden[1] == name[0]);
        names_stand_behind_the_last_slash(Seq::empty(), hidden);
        lemma_last_position(Seq::empty(), '.', name);
        assert(Seq::<char>::empty() + seq!['.'] + name =~= hidden);
    } else {
        slashes_behind_a_path_do_not_count(Seq::empty());
        assert(name =~= Seq::<char>::empty());
        let dot = seq!['.'] + name;
        assert(dot =~= "."@);
        assert forall|j: int| 0 <= j < dot.len() implies dot[j] != '/' by {}
        lemma_next_char_none(dot, '/', 0);
        assert(dot.subrange(0, dot.len() as int) =~= dot);
        assert(pieces(dot, '/') =~= seq![dot]);
        assert(seq![dot].drop_last() =~= Seq::<Seq<char>>::empty());
        reveal_with_fuel(last_component, 3);
    }
}

/// Whatever a name holds, its safe form is its last part without control
/// characters, up to where it fits.
pub proof fn names_are_cut_where_they_fit(raw: Seq<char>)
    requires
        base_name(raw) is Some,
        without_controls(base_name(raw)->0).len() > 0,
    ensures
        ({
            let clean = without_controls(base_name(raw)->0);
            let k = safe_name(raw).len() as int;
            &&& k <= clean.len()
            &&& safe_name(raw) == clean.take(k)
            &&& encode_utf8(safe_name(raw)).len() <= 255
            &&& k < clean.len() ==> encode_utf8(clean.take(k + 1)).len() > 255
        }),
{
    let clean = without_controls(base_name(raw)->0);
    lemma_fitting_prefix(clean, 255);
    sanitized_names_are_safe(raw);
    if encode_utf8(clean).len() > 255 {
        lemma_fitting_longest(clean, 255);
    }
}

/// One dot or two are no name, and what has no name has no extension.
pub proof fn dots_are_no_names(raw: Seq<char>)
    ensures
        base_name(seq!['.']) is None,
        base_name(seq!['.', '.']) is None,
        base_name(raw) is None ==> extension(raw).len() == 0,
        base_name(raw) matches Some(name) && !name.contains('.') ==> extension(raw).len() == 0,
{
    reveal_strlit(".");
    reveal_strlit("..");
    let one = seq!['.'];
    let two = seq!['.', '.'];
    assert("."@ =~= one);
    assert(".."@ =~= two);
    lemma_next_char_none(one, '/', 0);
    lemma_next_char_none(two, '/', 0);
    assert(one.subrange(0, 1) =~= one);
    assert(two.subrange(0, 2) =~= two);
    assert(pieces(one, '/') =~= seq![one]);
    assert(pieces(two, '/') =~= seq![two]);
    assert(seq![one].drop_last() =~= Seq::<Seq<char>>::empty());
    assert(last_component(seq![one].drop_last()) is None);
    assert(last_component(seq![two]) == Some(two));
    if let Some(name) = base_name(raw) {
        if !name.contains('.') {
            lemma_no_last_position(name, '.');
        }
    }
}

proof fn lemma_no_last_position(s: Seq<char>, c: char)
    requires
        !s.contains(c),
    ensures
        last_position(s, c) == -1,
    decreases s.len(),
{
    if s.len() > 0 {
        assert(s.contains(s[s.len() - 1]));
        assert forall|i: int| 0 <= i < s.drop_last().len() implies s.drop_last()[i] != c by {
            assert(s.contains(s[i]));
        }
        lemma_no_last_position(s.drop_last(), c);
    }
}

} // verus!

//! Text as sequences of characters: trimming, searching, splitting, replacing.
//!
//! The functions work on whole characters, so no index can fall inside a
//! multi-byte character. Each has a specification over `Seq<char>`.
use vstd::prelude::*;
use vstd::string::*;
use vstd::utf8::*;

verus! {

/// `String::push`: the character is added behind the text.
pub assume_specification[ String::push ](s: &mut String, c: char)
    ensures
        final(s)@ == old(s)@.push(c),
;

/// `String::into_bytes`: the UTF-8 bytes of the text.
pub assume_specification[ String::into_bytes ](s: String) -> (r: Vec<u8>)
    ensures
        r@ == encode_utf8(s@),
;

/// The characters of `s`.
pub fn chars_of(s: &str) -> (r: Vec<char>)
    ensures
        r@ == s@,
{
    let mut out: Vec<char> = Vec::new();
    for c in it: s.chars()
        invariant
            it.seq() == s@,
            out@ == it.seq().take(it.index() as int),
    {
        out.push(c);
    }
    proof {
        assert(out@ =~= s@);
    }
    out
}

/// The characters `from..to` of `v` as text.
pub fn text_of(v: &Vec<char>, from: usize, to: usize) -> (r: String)
    requires
        from <= to <= v@.len(),
    ensures
        r@ == v@.subrange(from as int, to as int),
{
    let mut out: String = String::new();
    let mut i: usize = from;
    while i < to
        invariant
            from <= i <= to <= v@.len(),
            out@ == v@.subrange(from as int, i as int),
        decreases to - i,
    {
        out.push(v[i]);
        i += 1;
        assert(v@.subrange(from as int, i as int) =~= v@.subrange(from as int, i - 1).push(
            v@[i - 1],
        ));
    }
    out
}

/// Two texts side by side.
pub fn join(a: &str, b: &str) -> (r: String)
    ensures
        r@ == a@ + b@,
{
    let mut out: String = String::from_str(a);
    out.append(b);
    out
}

/// Three texts side by side.
pub fn join3(a: &str, b: &str, c: &str) -> (r: String)
    ensures
        r@ == a@ + b@ + c@,
{
    let mut out: String = String::from_str(a);
    out.append(b);
    out.append(c);
    out
}

/// The views of a list of texts.
pub open spec fn views(v: Seq<String>) -> Seq<Seq<char>> {
    v.map_values(|s: String| s@)
}

/// The view of an optional text.
pub open spec fn opt_view(o: Option<String>) -> Option<Seq<char>> {
    match o {
        Some(s) => Some(s@),
        None => None,
    }
}

/// The view of an optional borrowed text.
pub open spec fn opt_str_view(o: Option<&str>) -> Option<Seq<char>> {
    match o {
        Some(s) => Some(s@),
        None => None,
    }
}

/// A copy of an optional text.
pub fn opt_copy(o: &Option<String>) -> (r: Option<String>)
    ensures
        opt_view(r) == opt_view(*o),
{
    match o {
        Some(s) => Some(String::from_str(s.as_str())),
        None => None,
    }
}

/// An optional text, nothing if it is not there.
pub open spec fn or_empty(o: Option<Seq<char>>) -> Seq<char> {
    match o {
        Some(s) => s,
        None => Seq::empty(),
    }
}

/// An optional text, the empty text if it is not there.
pub fn text_or_empty(o: &Option<String>) -> (r: String)
    ensures
        r@ == or_empty(opt_view(*o)),
{
    match o {
        Some(s) => String::from_str(s.as_str()),
        None => String::new(),
    }
}

/// Whether two texts are the same.
pub fn same(a: &str, b: &str) -> (r: bool)
    ensures
        r == (a@ == b@),
{
    let x: Vec<char> = chars_of(a);
    let y: Vec<char> = chars_of(b);
    if x.len() != y.len() {
        return false;
    }
    let r: bool = occurs(&x, &y, 0);
    proof {
        assert(x@.subrange(0, x@.len() as int) =~= x@);
    }
    r
}

/// `sub` stands in `s` from position `at` on.
pub open spec fn occurs_at(s: Seq<char>, sub: Seq<char>, at: int) -> bool {
    &&& 0 <= at
    &&& at + sub.len() <= s.len()
    &&& s.subrange(at, at + sub.len()) == sub
}

/// `s` begins with `p`.
pub open spec fn begins(s: Seq<char>, p: Seq<char>) -> bool {
    occurs_at(s, p, 0)
}

/// `s` ends with `p`.
pub open spec fn ends(s: Seq<char>, p: Seq<char>) -> bool {
    occurs_at(s, p, s.len() - p.len())
}

/// `p` stands somewhere in `s`.
pub open spec fn holds(s: Seq<char>, p: Seq<char>) -> bool {
    exists|i: int| occurs_at(s, p, i)
}

/// Whether `sub` stands in `v` at `at`.
pub fn occurs(v: &Vec<char>, sub: &Vec<char>, at: usize) -> (r: bool)
    ensures
        r == occurs_at(v@, sub@, at as int),
{
    if at > v.len() || sub.len() > v.len() - at {
        return false;
    }
    let mut k: usize = 0;
    while k < sub.len()
        invariant
            at + sub.len() <= v.len(),
            k <= sub@.len(),
            forall|j: int| 0 <= j < k ==> v@[at + j] == sub@[j],
        decreases sub@.len() - k,
    {
        if v[at + k] != sub[k] {
            proof {
                assert(v@.subrange(at as int, at + sub@.len())[k as int] == v@[at + k]);
            }
            return false;
        }
        k += 1;
    }
    proof {
        assert(v@.subrange(at as int, at + sub@.len()) =~= sub@);
    }
    true
}

/// Whether `s` begins with `p`.
pub fn starts_with(s: &str, p: &str) -> (r: bool)
    ensures
        r == begins(s@, p@),
{
    occurs(&chars_of(s), &chars_of(p), 0)
}

/// Whether `s` ends with `p`.
pub fn ends_with(s: &str, p: &str) -> (r: bool)
    ensures
        r == ends(s@, p@),
{
    let v: Vec<char> = chars_of(s);
    let w: Vec<char> = chars_of(p);
    if w.len() > v.len() {
        return false;
    }
    occurs(&v, &w, v.len() - w.len())
}

/// The first position from `from` on where `sub` stands in `s`, or none.
pub open spec fn find_from(s: Seq<char>, sub: Seq<char>, from: int) -> Option<int>
    decreases s.len() + 1 - from,
{
    if from < 0 || from > s.len() {
        None
    } else if occurs_at(s, sub, from) {
        Some(from)
    } else {
        find_from(s, sub, from + 1)
    }
}

/// `find_from` gives an occurrence, nothing before it is one, and it gives
/// none only if there is none.
pub proof fn lemma_find_from(s: Seq<char>, sub: Seq<char>, from: int)
    requires
        0 <= from,
    ensures
        match find_from(s, sub, from) {
            Some(i) => from <= i && occurs_at(s, sub, i) && forall|j: int|
                from <= j < i ==> !occurs_at(s, sub, j),
            None => forall|j: int| from <= j ==> !occurs_at(s, sub, j),
        },
    decreases s.len() + 1 - from,
{
    if from <= s.len() && !occurs_at(s, sub, from) {
        lemma_find_from(s, sub, from + 1);
    }
}

/// The first position of `sub` in `v`.
pub fn find(v: &Vec<char>, sub: &Vec<char>) -> (r: Option<usize>)
    ensures
        match r {
            Some(i) => find_from(v@, sub@, 0) == Some(i as int) && i + sub@.len() <= v@.len(),
            None => find_from(v@, sub@, 0) is None,
        },
{
    let mut i: usize = 0;
    while i < v.len()
        invariant
            i <= v@.len(),
            find_from(v@, sub@, 0) == find_from(v@, sub@, i as int),
        decreases v@.len() - i,
    {
        if occurs(v, sub, i) {
            return Some(i);
        }
        i += 1;
    }
    if occurs(v, sub, i) {
        return Some(i);
    }
    proof {
        reveal_with_fuel(find_from, 2);
    }
    None
}

/// Whether `p` stands somewhere in `s`.
pub fn contains(s: &str, p: &str) -> (r: bool)
    ensures
        r == holds(s@, p@),
{
    let r: Option<usize> = find(&chars_of(s), &chars_of(p));
    proof {
        lemma_find_from(s@, p@, 0);
    }
    r.is_some()
}

/// The characters that Unicode lists under the property White_Space.
pub open spec fn is_space(c: char) -> bool {
    ||| '\u{9}' <= c <= '\u{d}'
    ||| c == ' '
    ||| c == '\u{85}'
    ||| c == '\u{a0}'
    ||| c == '\u{1680}'
    ||| '\u{2000}' <= c <= '\u{200a}'
    ||| c == '\u{2028}'
    ||| c == '\u{2029}'
    ||| c == '\u{202f}'
    ||| c == '\u{205f}'
    ||| c == '\u{3000}'
}

/// Whether `c` is white space.
pub fn space(c: char) -> (r: bool)
    ensures
        r == is_space(c),
{
    ('\u{9}' <= c && c <= '\u{d}') || c == ' ' || c == '\u{85}' || c == '\u{a0}' || c == '\u{1680}'
        || ('\u{2000}' <= c && c <= '\u{200a}') || c == '\u{2028}' || c == '\u{2029}' || c
        == '\u{202f}' || c == '\u{205f}' || c == '\u{3000}'
}

/// `s` without its leading white space.
pub open spec fn trim_front(s: Seq<char>) -> Seq<char>
    decreases s.len(),
{
    if s.len() > 0 && is_space(s[0]) {
        trim_front(s.drop_first())
    } else {
        s
    }
}

/// `s` without its trailing white space.
pub open spec fn trim_back(s: Seq<char>) -> Seq<char>
    decreases s.len(),
{
    if s.len() > 0 && is_space(s.last()) {
        trim_back(s.drop_last())
    } else {
        s
    }
}

/// `s` without white space at either end.
pub open spec fn trimmed(s: Seq<char>) -> Seq<char> {
    trim_back(trim_front(s))
}

/// `s` is empty or white space alone.
pub open spec fn blank(s: Seq<char>) -> bool {
    trimmed(s).len() == 0
}

/// The text without white space at either end.
pub fn trim(s: &str) -> (r: String)
    ensures
        r@ == trimmed(s@),
{
    let v: Vec<char> = chars_of(s);
    let mut i: usize = 0;
    proof {
        assert(v@.subrange(0, v@.len() as int) =~= v@);
    }
    while i < v.len() && space(v[i])
        invariant
            v@ == s@,
            i <= v@.len(),
            trim_front(s@) == trim_front(v@.subrange(i as int, v@.len() as int)),
        decreases v@.len() - i,
    {
        proof {
            assert(v@.subrange(i as int, v@.len() as int).drop_first() =~= v@.subrange(
                i + 1,
                v@.len() as int,
            ));
        }
        i += 1;
    }
    let mut j: usize = v.len();
    proof {
        assert(trim_front(s@) == v@.subrange(i as int, j as int));
    }
    while j > i && space(v[j - 1])
        invariant
            i <= j <= v@.len(),
            trimmed(s@) == trim_back(v@.subrange(i as int, j as int)),
        decreases j - i,
    {
        proof {
            assert(v@.subrange(i as int, j as int).drop_last() =~= v@.subrange(i as int, j - 1));
        }
        j -= 1;
    }
    text_of(&v, i, j)
}

/// What trimming leaves neither begins nor ends with white space, and
/// trimming it again changes nothing.
pub proof fn lemma_trimmed(s: Seq<char>)
    ensures
        trimmed(s).len() > 0 ==> !is_space(trimmed(s)[0]) && !is_space(trimmed(s).last()),
        trimmed(trimmed(s)) == trimmed(s),
{
    lemma_trim_front(s);
    lemma_trim_back(trim_front(s));
    let t = trimmed(s);
    if t.len() > 0 {
        assert(t[0] == trim_front(s)[0]);
        assert(trim_front(t) == t);
        assert(trim_back(t) == t);
    }
}

proof fn lemma_trim_front(s: Seq<char>)
    ensures
        trim_front(s).len() > 0 ==> !is_space(trim_front(s)[0]),
    decreases s.len(),
{
    if s.len() > 0 && is_space(s[0]) {
        lemma_trim_front(s.drop_first());
    }
}

proof fn lemma_trim_back(s: Seq<char>)
    ensures
        trim_back(s).len() <= s.len(),
        trim_back(s) == s.take(trim_back(s).len() as int),
        trim_back(s).len() > 0 ==> !is_space(trim_back(s).last()),
    decreases s.len(),
{
    if s.len() > 0 && is_space(s.last()) {
        lemma_trim_back(s.drop_last());
        assert(s.drop_last().take(trim_back(s).len() as int) =~= s.take(
            trim_back(s).len() as int,
        ));
    } else {
        assert(s.take(s.len() as int) =~= s);
    }
}

/// A text without white space at its ends is its own trimmed form.
pub proof fn lemma_trim_nothing(s: Seq<char>)
    requires
        s.len() > 0 ==> !is_space(s[0]) && !is_space(s.last()),
    ensures
        trimmed(s) == s,
{
}

/// Whether the text is empty or white space alone.
pub fn is_blank(s: &str) -> (r: bool)
    ensures
        r == blank(s@),
{
    let t: String = trim(s);
    is_empty(t.as_str())
}

/// Whether the text is empty.
pub fn is_empty(s: &str) -> (r: bool)
    ensures
        r == (s@.len() == 0),
{
    s.is_empty()
}

/// `s` without the characters `c` at its end.
pub open spec fn without_trailing(s: Seq<char>, c: char) -> Seq<char>
    decreases s.len(),
{
    if s.len() > 0 && s.last() == c {
        without_trailing(s.drop_last(), c)
    } else {
        s
    }
}

/// `s` without the characters `c` at its beginning.
pub open spec fn without_leading(s: Seq<char>, c: char) -> Seq<char>
    decreases s.len(),
{
    if s.len() > 0 && s[0] == c {
        without_leading(s.drop_first(), c)
    } else {
        s
    }
}

/// The text without the characters `c` at its end.
pub fn trim_end_matches(s: &str, c: char) -> (r: String)
    ensures
        r@ == without_trailing(s@, c),
{
    let v: Vec<char> = chars_of(s);
    let mut j: usize = v.len();
    proof {
        assert(v@.subrange(0, j as int) =~= v@);
    }
    while j > 0 && v[j - 1] == c
        invariant
            j <= v@.len(),
            without_trailing(s@, c) == without_trailing(v@.subrange(0, j as int), c),
        decreases j,
    {
        proof {
            assert(v@.subrange(0, j as int).drop_last() =~= v@.subrange(0, j - 1));
        }
        j -= 1;
    }
    text_of(&v, 0, j)
}

/// The text without the characters `c` at its beginning.
pub fn trim_start_matches(s: &str, c: char) -> (r: String)
    ensures
        r@ == without_leading(s@, c),
{
    let v: Vec<char> = chars_of(s);
    let mut i: usize = 0;
    proof {
        assert(v@.subrange(0, v@.len() as int) =~= v@);
    }
    while i < v.len() && v[i] == c
        invariant
            i <= v@.len(),
            without_leading(s@, c) == without_leading(v@.subrange(i as int, v@.len() as int), c),
        decreases v@.len() - i,
    {
        proof {
            assert(v@.subrange(i as int, v@.len() as int).drop_first() =~= v@.subrange(
                i + 1,
                v@.len() as int,
            ));
        }
        i += 1;
    }
    text_of(&v, i, v.len())
}

/// The first position from `from` on that holds `c`, or the length of `s`.
pub open spec fn next_char(s: Seq<char>, c: char, from: int) -> int
    decreases s.len() - from,
{
    if from < 0 || from >= s.len() {
        s.len() as int
    } else if s[from] == c {
        from
    } else {
        next_char(s, c, from + 1)
    }
}

/// `next_char` lies in range, holds `c` unless it is the end, and nothing
/// between `from` and it holds `c`.
pub proof fn lemma_next_char(s: Seq<char>, c: char, from: int)
    requires
        0 <= from <= s.len(),
    ensures
        from <= next_char(s, c, from) <= s.len(),
        next_char(s, c, from) < s.len() ==> s[next_char(s, c, from)] == c,
        forall|j: int| from <= j < next_char(s, c, from) ==> s[j] != c,
    decreases s.len() - from,
{
    if from < s.len() && s[from] != c {
        lemma_next_char(s, c, from + 1);
    }
}

/// The first `c` from `from` on stands at `k`.
pub proof fn lemma_next_char_is(s: Seq<char>, c: char, from: int, k: int)
    requires
        0 <= from <= k < s.len(),
        s[k] == c,
        forall|j: int| from <= j < k ==> s[j] != c,
    ensures
        next_char(s, c, from) == k,
{
    lemma_next_char(s, c, from);
    if next_char(s, c, from) > k {
        assert(s[k] != c);
    }
}

/// There is no `c` from `from` on.
pub proof fn lemma_next_char_none(s: Seq<char>, c: char, from: int)
    requires
        0 <= from <= s.len(),
        forall|j: int| from <= j < s.len() ==> s[j] != c,
    ensures
        next_char(s, c, from) == s.len(),
{
    lemma_next_char(s, c, from);
}

/// The position of the next `c` in `v` from `from` on, or the length.
pub fn position(v: &Vec<char>, c: char, from: usize) -> (r: usize)
    requires
        from <= v@.len(),
    ensures
        r == next_char(v@, c, from as int),
        from <= r <= v@.len(),
{
    let mut i: usize = from;
    while i < v.len() && v[i] != c
        invariant
            from <= i <= v@.len(),
            next_char(v@, c, from as int) == next_char(v@, c, i as int),
        decreases v@.len() - i,
    {
        i += 1;
    }
    i
}

/// The part of `s` before its first `c`; all of `s` if it has none.
pub open spec fn before(s: Seq<char>, c: char) -> Seq<char> {
    s.subrange(0, next_char(s, c, 0))
}

/// The part of `s` behind its first `c`; nothing if it has none.
pub open spec fn behind(s: Seq<char>, c: char) -> Seq<char> {
    if next_char(s, c, 0) < s.len() {
        s.subrange(next_char(s, c, 0) + 1, s.len() as int)
    } else {
        Seq::empty()
    }
}

/// The text before the first `c`; the whole text if there is none.
pub fn first_part(s: &str, c: char) -> (r: String)
    ensures
        r@ == before(s@, c),
{
    let v: Vec<char> = chars_of(s);
    let i: usize = position(&v, c, 0);
    text_of(&v, 0, i)
}

/// The text before and behind the first `c`, if there is one.
pub fn split_once(s: &str, c: char) -> (r: Option<(String, String)>)
    ensures
        match r {
            Some((a, b)) => s@.contains(c) && a@ == before(s@, c) && b@ == behind(s@, c),
            None => !s@.contains(c),
        },
{
    let v: Vec<char> = chars_of(s);
    let i: usize = position(&v, c, 0);
    proof {
        lemma_next_char(s@, c, 0);
    }
    if i < v.len() {
        assert(s@[i as int] == c);
        Some((text_of(&v, 0, i), text_of(&v, i + 1, v.len())))
    } else {
        None
    }
}

/// The pieces of `s` between the characters `c`, from position `from` on.
pub open spec fn split_from(s: Seq<char>, c: char, from: int) -> Seq<Seq<char>>
    decreases s.len() - from,
{
    if from < 0 || from > s.len() {
        Seq::empty()
    } else {
        let i = next_char(s, c, from);
        if from <= i < s.len() {
            seq![s.subrange(from, i)] + split_from(s, c, i + 1)
        } else {
            seq![s.subrange(from, s.len() as int)]
        }
    }
}

/// The pieces of `s` between the characters `c`.
pub open spec fn pieces(s: Seq<char>, c: char) -> Seq<Seq<char>> {
    split_from(s, c, 0)
}

/// The pieces of the text between the characters `c`.
pub fn split(s: &str, c: char) -> (r: Vec<String>)
    ensures
        views(r@) == pieces(s@, c),
{
    let v: Vec<char> = chars_of(s);
    let mut out: Vec<String> = Vec::new();
    let mut from: usize = 0;
    let mut i: usize = position(&v, c, 0);
    proof {
        assert(views(out@) + split_from(v@, c, 0) =~= split_from(v@, c, 0));
    }
    while i < v.len()
        invariant
            from <= i <= v@.len(),
            i == next_char(v@, c, from as int),
            views(out@) + split_from(v@, c, from as int) == pieces(v@, c),
        decreases v@.len() - i,
    {
        let ghost done = views(out@);
        let piece: String = text_of(&v, from, i);
        out.push(piece);
        proof {
            assert(views(out@) =~= done.push(piece@));
            assert(views(out@) + split_from(v@, c, i + 1) =~= done + split_from(
                v@,
                c,
                from as int,
            ));
        }
        from = i + 1;
        i = position(&v, c, from);
    }
    let ghost done = views(out@);
    let piece: String = text_of(&v, from, v.len());
    out.push(piece);
    proof {
        assert(views(out@) =~= done.push(piece@));
        assert(views(out@) =~= done + split_from(v@, c, from as int));
    }
    out
}

/// `line` without one carriage return at its end.
pub open spec fn without_cr(line: Seq<char>) -> Seq<char> {
    if line.len() > 0 && line.last() == '\r' {
        line.drop_last()
    } else {
        line
    }
}

/// The lines of `s` from position `from` on. A line ends with a newline, or
/// with a carriage return and a newline; the last one may lack its ending.
pub open spec fn lines_from(s: Seq<char>, from: int) -> Seq<Seq<char>>
    decreases s.len() - from,
{
    if from < 0 || from >= s.len() {
        Seq::empty()
    } else {
        let i = next_char(s, '\n', from);
        if from <= i < s.len() {
            seq![without_cr(s.subrange(from, i))] + lines_from(s, i + 1)
        } else {
            seq![s.subrange(from, s.len() as int)]
        }
    }
}

/// The lines of the text, without their endings.
pub fn lines(s: &str) -> (r: Vec<String>)
    ensures
        views(r@) == lines_from(s@, 0),
{
    let v: Vec<char> = chars_of(s);
    let mut out: Vec<String> = Vec::new();
    let mut from: usize = 0;
    proof {
        assert(views(out@) + lines_from(v@, 0) =~= lines_from(v@, 0));
    }
    while from < v.len()
        invariant
            v@ == s@,
            from <= v@.len(),
            views(out@) + lines_from(v@, from as int) == lines_from(v@, 0),
        decreases v@.len() - from,
    {
        let ghost done = views(out@);
        let i: usize = position(&v, '\n', from);
        if i == v.len() {
            let piece: String = text_of(&v, from, i);
            out.push(piece);
            proof {
                assert(views(out@) =~= done.push(piece@));
                assert(views(out@) =~= done + lines_from(v@, from as int));
            }
            return out;
        }
        let ghost whole = v@.subrange(from as int, i as int);
        let end: usize = if i > from && v[i - 1] == '\r' {
            i - 1
        } else {
            i
        };
        let piece: String = text_of(&v, from, end);
        out.push(piece);
        proof {
            assert(piece@ =~= without_cr(whole));
            assert(views(out@) =~= done.push(piece@));
            assert(views(out@) + lines_from(v@, i + 1) =~= done + lines_from(v@, from as int));
        }
        from = i + 1;
    }
    proof {
        assert(views(out@) =~= lines_from(v@, 0));
    }
    out
}

/// `s` from position `at` on, with each `old_text`, taken from left to right
/// without overlap, replaced by `new_text`.
pub open spec fn replace_from(
    s: Seq<char>,
    old_text: Seq<char>,
    new_text: Seq<char>,
    at: int,
) -> Seq<char>
    decreases s.len() - at,
{
    if at < 0 || at >= s.len() || old_text.len() == 0 {
        Seq::empty()
    } else if occurs_at(s, old_text, at) {
        new_text + replace_from(s, old_text, new_text, at + old_text.len())
    } else {
        seq![s[at]] + replace_from(s, old_text, new_text, at + 1)
    }
}

/// The text with each `old_text` replaced by `new_text`.
pub fn replace(s: &str, old_text: &str, new_text: &str) -> (r: String)
    requires
        old_text@.len() > 0,
    ensures
        r@ == replace_from(s@, old_text@, new_text@, 0),
{
    let v: Vec<char> = chars_of(s);
    let w: Vec<char> = chars_of(old_text);
    let mut out: String = String::new();
    let mut i: usize = 0;
    proof {
        assert(out@ + replace_from(v@, w@, new_text@, 0) =~= replace_from(v@, w@, new_text@, 0));
    }
    while i < v.len()
        invariant
            w@.len() > 0,
            i <= v@.len(),
            out@ + replace_from(v@, w@, new_text@, i as int) == replace_from(
                v@,
                w@,
                new_text@,
                0,
            ),
        decreases v@.len() - i,
    {
        let ghost done = out@;
        if occurs(&v, &w, i) {
            out.append(new_text);
            proof {
                assert(out@ + replace_from(v@, w@, new_text@, i + w@.len()) =~= done
                    + replace_from(v@, w@, new_text@, i as int));
            }
            i += w.len();
        } else {
            out.push(v[i]);
            proof {
                assert(out@ + replace_from(v@, w@, new_text@, i + 1) =~= done + replace_from(
                    v@,
                    w@,
                    new_text@,
                    i as int,
                ));
            }
            i += 1;
        }
    }
    proof {
        assert(out@ =~= replace_from(v@, w@, new_text@, 0));
    }
    out
}

/// `t`, laid over `m` at any place where the two meet, differs from it in
/// some character.
pub open spec fn clashes(t: Seq<char>, m: Seq<char>) -> bool {
    forall|d: int| -(t.len() as int) < d < m.len() ==> #[trigger] clashes_at(t, m, d)
}

/// `t`, laid over `m` so that it begins at position `d` of `m`, differs from
/// it in some character.
pub open spec fn clashes_at(t: Seq<char>, m: Seq<char>, d: int) -> bool {
    exists|k: int| 0 <= k < m.len() && d <= k < d + t.len() && #[trigger] m[k] != t[k - d]
}

proof fn lemma_replace_shape(s: Seq<char>, t: Seq<char>, m: Seq<char>, at: int)
    requires
        t.len() > 0,
        0 <= at <= s.len(),
    ensures
        match find_from(s, t, at) {
            Some(j) => at <= j && j + t.len() <= s.len() && replace_from(s, t, m, at)
                == s.subrange(at, j) + m + replace_from(s, t, m, j + t.len()),
            None => replace_from(s, t, m, at) == s.subrange(at, s.len() as int),
        },
    decreases s.len() - at,
{
    lemma_find_from(s, t, at);
    if at == s.len() {
        reveal_with_fuel(find_from, 2);
        assert(replace_from(s, t, m, at) =~= s.subrange(at, s.len() as int));
    } else if occurs_at(s, t, at) {
        assert(replace_from(s, t, m, at) =~= s.subrange(at, at) + m + replace_from(
            s,
            t,
            m,
            at + t.len(),
        ));
    } else {
        lemma_replace_shape(s, t, m, at + 1);
        match find_from(s, t, at + 1) {
            Some(j) => {
                assert(replace_from(s, t, m, at) =~= s.subrange(at, j) + m + replace_from(
                    s,
                    t,
                    m,
                    j + t.len(),
                ));
            },
            None => {
                assert(replace_from(s, t, m, at) =~= s.subrange(at, s.len() as int));
            },
        }
    }
}

proof fn lemma_replaced_from(s: Seq<char>, t: Seq<char>, m: Seq<char>, at: int, i: int)
    requires
        t.len() > 0,
        clashes(t, m),
        0 <= at <= s.len(),
    ensures
        !occurs_at(replace_from(s, t, m, at), t, i),
    decreases s.len() - at,
{
    lemma_replace_shape(s, t, m, at);
    lemma_find_from(s, t, at);
    let r = replace_from(s, t, m, at);
    if occurs_at(r, t, i) {
        match find_from(s, t, at) {
            Some(j) => {
                let w = j - at;
                let rest = replace_from(s, t, m, j + t.len());
                let d = i - w;
                if i + t.len() <= w {
                    assert(s.subrange(at + i, at + i + t.len()) =~= r.subrange(i, i + t.len()));
                    assert(occurs_at(s, t, at + i));
                } else if d >= m.len() {
                    lemma_replaced_from(s, t, m, j + t.len(), d - m.len());
                    assert(rest.subrange(d - m.len(), d - m.len() + t.len()) =~= r.subrange(
                        i,
                        i + t.len(),
                    ));
                    assert(occurs_at(rest, t, d - m.len()));
                } else {
                    assert(clashes_at(t, m, d));
                    let k = choose|k: int|
                        0 <= k < m.len() && d <= k < d + t.len() && #[trigger] m[k] != t[k - d];
                    assert(r[w + k] == m[k]);
                    assert(r.subrange(i, i + t.len())[k - d] == r[w + k]);
                }
            },
            None => {
                assert(s.subrange(at + i, at + i + t.len()) =~= r.subrange(i, i + t.len()));
                assert(occurs_at(s, t, at + i));
            },
        }
    }
}

/// Nothing of `t` is left when it is replaced by an `m` that clashes with it.
pub proof fn lemma_replaced(s: Seq<char>, t: Seq<char>, m: Seq<char>)
    requires
        t.len() > 0,
        clashes(t, m),
    ensures
        !holds(replace_from(s, t, m, 0), t),
{
    assert forall|i: int| !occurs_at(replace_from(s, t, m, 0), t, i) by {
        lemma_replaced_from(s, t, m, 0, i);
    }
}

/// A text that does not hold `t` is left as it is when `t` is replaced.
pub proof fn lemma_replace_nothing(s: Seq<char>, t: Seq<char>, m: Seq<char>)
    requires
        t.len() > 0,
        !holds(s, t),
    ensures
        replace_from(s, t, m, 0) == s,
{
    lemma_replace_shape(s, t, m, 0);
    lemma_find_from(s, t, 0);
    assert(s.subrange(0, s.len() as int) =~= s);
}

proof fn lemma_replace_suffix(a: Seq<char>, b: Seq<char>, t: Seq<char>, m: Seq<char>, at: int)
    requires
        0 <= at <= b.len(),
    ensures
        replace_from(a + b, t, m, a.len() + at) == replace_from(b, t, m, at),
    decreases b.len() - at,
{
    let s = a + b;
    let i = a.len() + at;
    if at < b.len() && t.len() > 0 {
        if i + t.len() <= s.len() {
            assert(s.subrange(i, i + t.len()) =~= b.subrange(at, at + t.len()));
        }
        assert(occurs_at(s, t, i) == occurs_at(b, t, at));
        if occurs_at(b, t, at) {
            lemma_replace_suffix(a, b, t, m, at + t.len());
        } else {
            lemma_replace_suffix(a, b, t, m, at + 1);
        }
    }
}

/// Where `t` does not begin, `s` is left as it is when `t` is replaced.
pub proof fn lemma_replace_skips(s: Seq<char>, t: Seq<char>, m: Seq<char>, at: int, to: int)
    requires
        t.len() > 0,
        0 <= at <= to <= s.len(),
        forall|i: int| at <= i < to ==> !occurs_at(s, t, i),
    ensures
        replace_from(s, t, m, at) == s.subrange(at, to) + replace_from(s, t, m, to),
    decreases to - at,
{
    if at < to {
        lemma_replace_skips(s, t, m, at + 1, to);
        assert(s.subrange(at, to) =~= seq![s[at]] + s.subrange(at + 1, to));
        assert(replace_from(s, t, m, at) =~= s.subrange(at, to) + replace_from(s, t, m, to));
    } else {
        assert(s.subrange(at, to) + replace_from(s, t, m, to) =~= replace_from(s, t, m, to));
    }
}

/// A text in which `t` does not begin before `b` is left as it is up to there.
pub proof fn lemma_replace_behind(a: Seq<char>, b: Seq<char>, t: Seq<char>, m: Seq<char>)
    requires
        t.len() > 0,
        forall|i: int| 0 <= i < a.len() ==> !occurs_at(a + b, t, i),
    ensures
        replace_from(a + b, t, m, 0) == a + replace_from(b, t, m, 0),
{
    lemma_replace_skips(a + b, t, m, 0, a.len() as int);
    lemma_replace_suffix(a, b, t, m, 0);
    assert((a + b).subrange(0, a.len() as int) =~= a);
}

/// A `t` in front is replaced, and the rest for itself.
pub proof fn lemma_replace_front(b: Seq<char>, t: Seq<char>, m: Seq<char>)
    requires
        t.len() > 0,
    ensures
        replace_from(t + b, t, m, 0) == m + replace_from(b, t, m, 0),
{
    assert((t + b).subrange(0, t.len() as int) =~= t);
    assert(occurs_at(t + b, t, 0));
    lemma_replace_suffix(t, b, t, m, 0);
}

/// `c` in lower case if it is one of the ASCII capitals.
pub open spec fn ascii_lower_char(c: char) -> char {
    if 'A' <= c <= 'Z' {
        (c as u32 + 32) as char
    } else {
        c
    }
}

/// `s` with its ASCII capitals in lower case.
pub open spec fn ascii_lower(s: Seq<char>) -> Seq<char> {
    s.map_values(|c: char| ascii_lower_char(c))
}

/// The text with its ASCII capitals in lower case.
pub fn to_ascii_lowercase(s: &str) -> (r: String)
    ensures
        r@ == ascii_lower(s@),
{
    let v: Vec<char> = chars_of(s);
    let mut out: String = String::new();
    let mut i: usize = 0;
    while i < v.len()
        invariant
            i <= v@.len(),
            out@ == ascii_lower(v@.take(i as int)),
        decreases v@.len() - i,
    {
        let c: char = v[i];
        let d: char = if 'A' <= c && c <= 'Z' {
            ((c as u8) + 32) as char
        } else {
            c
        };
        let ghost done = out@;
        out.push(d);
        i += 1;
        proof {
            assert(v@.take(i as int) =~= v@.take(i - 1).push(c));
            assert(out@ =~= ascii_lower(v@.take(i as int)));
        }
    }
    proof {
        assert(v@.take(i as int) =~= v@);
    }
    out
}

/// The bytes of two texts side by side are their bytes side by side.
pub proof fn lemma_encode_join(a: Seq<char>, b: Seq<char>)
    ensures
        encode_utf8(a + b) == encode_utf8(a) + encode_utf8(b),
    decreases a.len(),
{
    if a.len() == 0 {
        assert(a + b =~= b);
        assert(encode_utf8(a) + encode_utf8(b) =~= encode_utf8(b));
    } else {
        lemma_encode_join(a.drop_first(), b);
        assert((a + b).drop_first() =~= a.drop_first() + b);
        assert(encode_utf8(a + b) =~= encode_utf8(a) + encode_utf8(b));
    }
}

/// The number of bytes of the text in UTF-8.
pub fn byte_len(s: &str) -> (r: usize)
    ensures
        r == encode_utf8(s@).len(),
{
    s.as_bytes().len()
}

/// `s` begins with `p` if and only if it is `p` and something behind it.
pub proof fn beginnings_are_in_front(s: Seq<char>, p: Seq<char>)
    ensures
        begins(s, p) <==> exists|rest: Seq<char>| s == #[trigger] (p + rest),
{
    if begins(s, p) {
        assert(s =~= p + s.skip(p.len() as int));
    }
    if exists|rest: Seq<char>| s == #[trigger] (p + rest) {
        let rest = choose|rest: Seq<char>| s == #[trigger] (p + rest);
        assert(s.subrange(0, p.len() as int) =~= p);
    }
}

/// `s` ends with `p` if and only if it is something and `p` behind it.
pub proof fn endings_are_behind(s: Seq<char>, p: Seq<char>)
    ensures
        ends(s, p) <==> exists|rest: Seq<char>| s == #[trigger] (rest + p),
{
    if ends(s, p) {
        assert(s =~= s.take(s.len() - p.len()) + p);
    }
    if exists|rest: Seq<char>| s == #[trigger] (rest + p) {
        let rest = choose|rest: Seq<char>| s == #[trigger] (rest + p);
        assert(s.subrange(s.len() - p.len(), s.len() as int) =~= p);
    }
}

/// `s` holds `p` if and only if it is `p` with something, or nothing, on
/// either side.
pub proof fn what_is_held_is_inside(s: Seq<char>, p: Seq<char>)
    ensures
        holds(s, p) <==> exists|a: Seq<char>, b: Seq<char>| s == #[trigger] (a + p + b),
{
    if holds(s, p) {
        let i = choose|i: int| occurs_at(s, p, i);
        assert(s =~= s.take(i) + p + s.skip(i + p.len()));
    }
    if exists|a: Seq<char>, b: Seq<char>| s == #[trigger] (a + p + b) {
        let (a, b) = choose|a: Seq<char>, b: Seq<char>| s == #[trigger] (a + p + b);
        assert(s.subrange(a.len() as int, (a.len() + p.len()) as int) =~= p);
        assert(occurs_at(s, p, a.len() as int));
    }
}

/// The code points that Unicode lists as white space.
pub proof fn white_space_is_that_of_unicode(c: char)
    ensures
        is_space(c) <==> seq![
            0x9int, 0xa, 0xb, 0xc, 0xd, 0x20, 0x85, 0xa0, 0x1680, 0x2000, 0x2001, 0x2002, 0x2003,
            0x2004, 0x2005, 0x2006, 0x2007, 0x2008, 0x2009, 0x200a, 0x2028, 0x2029, 0x202f, 0x205f,
            0x3000,
        ].contains(c as int),
{
    let all = seq![
        0x9int, 0xa, 0xb, 0xc, 0xd, 0x20, 0x85, 0xa0, 0x1680, 0x2000, 0x2001, 0x2002, 0x2003,
        0x2004, 0x2005, 0x2006, 0x2007, 0x2008, 0x2009, 0x200a, 0x2028, 0x2029, 0x202f, 0x205f,
        0x3000,
    ];
    let n = c as int;
    if is_space(c) {
        let i = if 0x9 <= n <= 0xd {
            n - 0x9
        } else if n == 0x20 {
            5
        } else if n == 0x85 {
            6
        } else if n == 0xa0 {
            7
        } else if n == 0x1680 {
            8
        } else if 0x2000 <= n <= 0x200a {
            n - 0x2000 + 9
        } else if n == 0x2028 {
            20
        } else if n == 0x2029 {
            21
        } else if n == 0x202f {
            22
        } else if n == 0x205f {
            23
        } else {
            24
        };
        assert(all[i] == n);
    }
}

/// Nothing but white space.
pub open spec fn all_space(s: Seq<char>) -> bool {
    forall|i: int| 0 <= i < s.len() ==> is_space(#[trigger] s[i])
}

proof fn lemma_trim_front_cuts(s: Seq<char>) -> (k: int)
    ensures
        0 <= k <= s.len(),
        trim_front(s) == s.skip(k),
        all_space(s.take(k)),
    decreases s.len(),
{
    if s.len() > 0 && is_space(s[0]) {
        let k = lemma_trim_front_cuts(s.drop_first());
        assert(s.drop_first().skip(k) =~= s.skip(k + 1));
        assert forall|i: int| 0 <= i < k + 1 implies is_space(#[trigger] s.take(k + 1)[i]) by {
            if i > 0 {
                assert(s.drop_first().take(k)[i - 1] == s.take(k + 1)[i]);
            }
        }
        k + 1
    } else {
        assert(s.skip(0) =~= s);
        0
    }
}

proof fn lemma_trim_back_cuts(s: Seq<char>) -> (k: int)
    ensures
        0 <= k <= s.len(),
        trim_back(s) == s.take(k),
        all_space(s.skip(k)),
    decreases s.len(),
{
    if s.len() > 0 && is_space(s.last()) {
        let t = s.drop_last();
        let k = lemma_trim_back_cuts(t);
        assert(t.take(k) =~= s.take(k));
        assert forall|i: int| 0 <= i < s.skip(k).len() implies is_space(#[trigger] s.skip(k)[i]) by {
            if i < t.skip(k).len() {
                assert(t.skip(k)[i] == s.skip(k)[i]);
            } else {
                assert(s.skip(k)[i] == s.last());
            }
        }
        k
    } else {
        assert(s.take(s.len() as int) =~= s);
        s.len() as int
    }
}

/// Trimming cuts off the white space at both ends and nothing else.
pub proof fn trimming_cuts_white_space_alone(s: Seq<char>)
    ensures
        exists|a: Seq<char>, b: Seq<char>|
            all_space(a) && all_space(b) && s == #[trigger] (a + trimmed(s) + b),
        trimmed(s).len() > 0 ==> !is_space(trimmed(s)[0]) && !is_space(trimmed(s).last()),
        trimmed(s).len() == 0 <==> all_space(s),
{
    let t = trim_front(s);
    let i = lemma_trim_front_cuts(s);
    let k = lemma_trim_back_cuts(t);
    assert(s =~= s.take(i) + trimmed(s) + t.skip(k));
    lemma_trimmed(s);
    if trimmed(s).len() == 0 {
        assert forall|j: int| 0 <= j < s.len() implies is_space(#[trigger] s[j]) by {
            if j < i {
                assert(s.take(i)[j] == s[j]);
            } else {
                assert(t.skip(k)[j - i] == s[j]);
            }
        }
    } else if all_space(s) {
        assert(trimmed(s)[0] == s[i]);
    }
}

/// A text with white space around it is trimmed to the text.
pub proof fn trimming_gives_the_text(a: Seq<char>, s: Seq<char>, b: Seq<char>)
    requires
        all_space(a),
        all_space(b),
        s.len() > 0 ==> !is_space(s[0]) && !is_space(s.last()),
    ensures
        trimmed(a + s + b) == s,
    decreases a.len() + b.len(),
{
    let whole = a + s + b;
    if a.len() > 0 {
        assert(whole[0] == a[0]);
        assert(is_space(a[0]));
        let c = a.drop_first();
        assert forall|i: int| 0 <= i < c.len() implies is_space(#[trigger] c[i]) by {
            assert(c[i] == a[i + 1]);
        }
        trimming_gives_the_text(c, s, b);
        assert(whole.drop_first() =~= c + s + b);
    } else if s.len() > 0 {
        assert(whole[0] == s[0]);
        lemma_trim_back_gives(s, b);
        assert(whole =~= s + b);
    } else {
        assert(whole =~= b);
        trimming_cuts_white_space_alone(b);
        assert(trimmed(b) =~= s);
    }
}

proof fn lemma_trim_back_gives(s: Seq<char>, b: Seq<char>)
    requires
        s.len() > 0,
        !is_space(s.last()),
        all_space(b),
    ensures
        trim_back(s + b) == s,
    decreases b.len(),
{
    if b.len() > 0 {
        assert((s + b).last() == b[b.len() - 1]);
        let c = b.drop_last();
        assert forall|i: int| 0 <= i < c.len() implies is_space(#[trigger] c[i]) by {
            assert(c[i] == b[i]);
        }
        lemma_trim_back_gives(s, c);
        assert((s + b).drop_last() =~= s + c);
    } else {
        assert(s + b =~= s);
    }
}

/// The character `c`, `n` times.
pub open spec fn repeated(c: char, n: nat) -> Seq<char> {
    Seq::new(n, |i: int| c)
}

/// Cutting off the characters `c` at the end gives what stands before them.
pub proof fn trailing_characters_go(s: Seq<char>, c: char, n: nat)
    requires
        s.len() > 0 ==> s.last() != c,
    ensures
        without_trailing(s + repeated(c, n), c) == s,
    decreases n,
{
    if n > 0 {
        trailing_characters_go(s, c, (n - 1) as nat);
        assert((s + repeated(c, n)).drop_last() =~= s + repeated(c, (n - 1) as nat));
    } else {
        assert(s + repeated(c, n) =~= s);
    }
}

/// Cutting off the characters `c` at the beginning gives what stands behind
/// them.
pub proof fn leading_characters_go(s: Seq<char>, c: char, n: nat)
    requires
        s.len() > 0 ==> s[0] != c,
    ensures
        without_leading(repeated(c, n) + s, c) == s,
    decreases n,
{
    if n > 0 {
        leading_characters_go(s, c, (n - 1) as nat);
        assert((repeated(c, n) + s).drop_first() =~= repeated(c, (n - 1) as nat) + s);
    } else {
        assert(repeated(c, n) + s =~= s);
    }
}

/// The part before the first `c` and the part behind it: for a text that is
/// put together of two around a `c`, they are these two, if the first has no
/// `c`; a text without a `c` is all before.
pub proof fn parts_around_a_character(a: Seq<char>, c: char, b: Seq<char>)
    requires
        !a.contains(c),
    ensures
        before(a + seq![c] + b, c) == a,
        behind(a + seq![c] + b, c) == b,
        before(a, c) == a,
        behind(a, c) == Seq::<char>::empty(),
{
    let s = a + seq![c] + b;
    assert forall|j: int| 0 <= j < a.len() implies s[j] != c && a[j] != c by {
        assert(a.contains(a[j]));
    }
    lemma_next_char_is(s, c, 0, a.len() as int);
    assert(s.subrange(0, a.len() as int) =~= a);
    assert(s.subrange(a.len() as int + 1, s.len() as int) =~= b);
    lemma_next_char_none(a, c, 0);
    assert(a.subrange(0, a.len() as int) =~= a);
}

/// Texts side by side, with a `c` between each and the next.
pub open spec fn side_by_side(ps: Seq<Seq<char>>, c: char) -> Seq<char>
    decreases ps.len(),
{
    if ps.len() == 0 {
        Seq::empty()
    } else if ps.len() == 1 {
        ps[0]
    } else {
        ps[0] + seq![c] + side_by_side(ps.drop_first(), c)
    }
}

proof fn lemma_split_side_by_side(p: Seq<char>, ps: Seq<Seq<char>>, c: char)
    requires
        ps.len() > 0,
        forall|i: int| 0 <= i < ps.len() ==> !(#[trigger] ps[i]).contains(c),
    ensures
        split_from(p + side_by_side(ps, c), c, p.len() as int) == ps,
    decreases ps.len(),
{
    let s = p + side_by_side(ps, c);
    let a = ps[0];
    assert forall|j: int| 0 <= j < a.len() implies a[j] != c by {
        assert(a.contains(a[j]));
    }
    if ps.len() == 1 {
        assert forall|j: int| p.len() <= j < s.len() implies s[j] != c by {
            assert(s[j] == a[j - p.len()]);
        }
        lemma_next_char_none(s, c, p.len() as int);
        assert(s.subrange(p.len() as int, s.len() as int) =~= a);
        assert(split_from(s, c, p.len() as int) =~= ps);
    } else {
        let k = p.len() + a.len();
        assert(s[k as int] == c);
        assert forall|j: int| p.len() <= j < k implies s[j] != c by {
            assert(s[j] == a[j - p.len()]);
        }
        lemma_next_char_is(s, c, p.len() as int, k as int);
        assert(s.subrange(p.len() as int, k as int) =~= a);
        let q = p + a + seq![c];
        let rest = ps.drop_first();
        assert forall|i: int| 0 <= i < rest.len() implies !(#[trigger] rest[i]).contains(c) by {
            assert(rest[i] == ps[i + 1]);
        }
        lemma_split_side_by_side(q, rest, c);
        assert(q + side_by_side(rest, c) =~= s);
        assert(split_from(s, c, p.len() as int) =~= seq![a] + rest);
        assert(seq![a] + rest =~= ps);
    }
}

/// Splitting takes apart what was put side by side: texts without a `c`, any
/// number of them, come back in order.
pub proof fn splitting_gives_the_parts(ps: Seq<Seq<char>>, c: char)
    requires
        ps.len() > 0,
        forall|i: int| 0 <= i < ps.len() ==> !(#[trigger] ps[i]).contains(c),
    ensures
        pieces(side_by_side(ps, c), c) == ps,
{
    lemma_split_side_by_side(Seq::empty(), ps, c);
    assert(Seq::<char>::empty() + side_by_side(ps, c) =~= side_by_side(ps, c));
}

/// A line with its ending: a newline, or a carriage return and a newline.
pub open spec fn ended_line(line: Seq<char>, cr: bool) -> Seq<char> {
    if cr {
        line + seq!['\r', '\n']
    } else {
        line + seq!['\n']
    }
}

/// Lines with their endings, one behind the other.
pub open spec fn ended_lines(ls: Seq<(Seq<char>, bool)>) -> Seq<char>
    decreases ls.len(),
{
    if ls.len() == 0 {
        Seq::empty()
    } else {
        ended_line(ls[0].0, ls[0].1) + ended_lines(ls.drop_first())
    }
}

proof fn lemma_lines_of(p: Seq<char>, ls: Seq<(Seq<char>, bool)>, last: Seq<char>)
    requires
        forall|i: int|
            0 <= i < ls.len() ==> !(#[trigger] ls[i]).0.contains('\n') && (ls[i].0.len() > 0
                && !ls[i].1 ==> ls[i].0.last() != '\r'),
        !last.contains('\n'),
    ensures
        lines_from(p + ended_lines(ls) + last, p.len() as int) == ls.map_values(
            |l: (Seq<char>, bool)| l.0,
        ) + (if last.len() > 0 {
            seq![last]
        } else {
            Seq::empty()
        }),
    decreases ls.len(),
{
    let s = p + ended_lines(ls) + last;
    let all = ls.map_values(|l: (Seq<char>, bool)| l.0);
    if ls.len() == 0 {
        assert(s =~= p + last);
        assert forall|j: int| p.len() <= j < s.len() implies s[j] != '\n' by {
            assert(s[j] == last[j - p.len()]);
            assert(last.contains(last[j - p.len()]));
        }
        lemma_next_char_none(s, '\n', p.len() as int);
        assert(s.subrange(p.len() as int, s.len() as int) =~= last);
        assert(lines_from(s, p.len() as int) =~= all + (if last.len() > 0 {
            seq![last]
        } else {
            Seq::empty()
        }));
    } else {
        let l = ls[0].0;
        let e = ended_line(l, ls[0].1);
        let k = p.len() + e.len() - 1;
        assert(s[k as int] == '\n');
        assert forall|j: int| p.len() <= j < k implies s[j] != '\n' by {
            assert(s[j] == e[j - p.len()]);
            if j - p.len() < l.len() {
                assert(l.contains(l[j - p.len()]));
            }
        }
        lemma_next_char_is(s, '\n', p.len() as int, k as int);
        let part = s.subrange(p.len() as int, k as int);
        if ls[0].1 {
            assert(part =~= l.push('\r'));
            assert(part.drop_last() =~= l);
        } else {
            assert(part =~= l);
        }
        assert(without_cr(part) == l);
        let q = p + e;
        let rest = ls.drop_first();
        assert forall|i: int| 0 <= i < rest.len() implies !(#[trigger] rest[i]).0.contains('\n')
            && (rest[i].0.len() > 0 && !rest[i].1 ==> rest[i].0.last() != '\r') by {
            assert(rest[i] == ls[i + 1]);
        }
        lemma_lines_of(q, rest, last);
        assert(q + ended_lines(rest) + last =~= s);
        assert(all =~= seq![l] + rest.map_values(|l: (Seq<char>, bool)| l.0));
        assert(lines_from(s, p.len() as int) =~= all + (if last.len() > 0 {
            seq![last]
        } else {
            Seq::empty()
        }));
    }
}

/// Reading lines takes apart what was put together: any number of lines, each
/// with either ending, and behind them a last one without an ending, come
/// back in order and without their endings.
pub proof fn lines_come_back(ls: Seq<(Seq<char>, bool)>, last: Seq<char>)
    requires
        forall|i: int|
            0 <= i < ls.len() ==> !(#[trigger] ls[i]).0.contains('\n') && (ls[i].0.len() > 0
                && !ls[i].1 ==> ls[i].0.last() != '\r'),
        !last.contains('\n'),
    ensures
        lines_from(ended_lines(ls) + last, 0) == ls.map_values(|l: (Seq<char>, bool)| l.0) + (
        if last.len() > 0 {
            seq![last]
        } else {
            Seq::empty()
        }),
{
    lemma_lines_of(Seq::empty(), ls, last);
    assert(Seq::<char>::empty() + ended_lines(ls) + last =~= ended_lines(ls) + last);
}

/// Replacing finds every occurrence: between texts that neither hold the old
/// text nor make it up together with what is beside them, each old text
/// becomes the new one and all else stays.
pub proof fn replacing_keeps_the_rest(a: Seq<char>, t: Seq<char>, m: Seq<char>, b: Seq<char>)
    requires
        t.len() > 0,
        forall|i: int| 0 <= i < a.len() ==> !occurs_at(a + t + b, t, i),
    ensures
        replace_from(a + t + b, t, m, 0) == a + m + replace_from(b, t, m, 0),
{
    let rest = t + b;
    assert(a + t + b =~= a + rest);
    lemma_replace_behind(a, rest, t, m);
    lemma_replace_front(b, t, m);
    assert(a + (m + replace_from(b, t, m, 0)) =~= a + m + replace_from(b, t, m, 0));
}

/// Lower case of ASCII goes character by character: a capital becomes its
/// small letter, and every other character stays.
pub proof fn capitals_become_small(s: Seq<char>)
    ensures
        ascii_lower(s).len() == s.len(),
        forall|i: int|
            0 <= i < s.len() ==> #[trigger] ascii_lower(s)[i] == if 0x41 <= s[i] as int <= 0x5a {
                (s[i] as int + 0x20) as char
            } else {
                s[i]
            },
{
}

} // verus!

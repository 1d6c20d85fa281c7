//! The manifest of a large upload: a text file with a header line, the file
//! name, and one line for each chunk, in order.
use vstd::prelude::*;
use vstd::string::*;
use vstd::utf8::*;

use crate::outside::lossy_utf8;
use crate::outside::text_from_utf8_lossy;
use crate::text::lemma_encode_join;
use crate::text::lemma_next_char_is;
use crate::text::lines;
use crate::text::lines_from;
use crate::text::views;
use crate::text::without_cr;

verus! {

/// The first line of every manifest, with its newline.
pub const MANIFEST_HEADER: &'static str = "tgstate-blob\n";

/// The lines, each with a newline behind it.
pub open spec fn terminated(ls: Seq<Seq<char>>) -> Seq<char>
    decreases ls.len(),
{
    if ls.len() == 0 {
        Seq::empty()
    } else {
        ls[0] + seq!['\n'] + terminated(ls.drop_first())
    }
}

/// The manifest of the file `name` whose chunks are `ids`.
pub open spec fn manifest_text(name: Seq<char>, ids: Seq<Seq<char>>) -> Seq<char> {
    MANIFEST_HEADER@ + name + seq!['\n'] + terminated(ids)
}

/// `line` reads back as one line: it holds no newline and does not end with a
/// carriage return.
pub open spec fn is_line(line: Seq<char>) -> bool {
    &&& !line.contains('\n')
    &&& line.len() > 0 ==> line.last() != '\r'
}

/// `body` begins with the header of a manifest.
pub open spec fn is_manifest_body(body: Seq<u8>) -> bool {
    let header = encode_utf8(MANIFEST_HEADER@);
    header.len() <= body.len() && body.take(header.len() as int) == header
}

proof fn lemma_terminated_push(ls: Seq<Seq<char>>, l: Seq<char>)
    ensures
        terminated(ls.push(l)) == terminated(ls) + l + seq!['\n'],
    decreases ls.len(),
{
    if ls.len() == 0 {
        reveal_with_fuel(terminated, 2);
        assert(ls.push(l).drop_first() =~= Seq::<Seq<char>>::empty());
        assert(terminated(ls.push(l)) =~= terminated(ls) + l + seq!['\n']);
    } else {
        lemma_terminated_push(ls.drop_first(), l);
        assert(ls.push(l).drop_first() =~= ls.drop_first().push(l));
        assert(terminated(ls.push(l)) =~= terminated(ls) + l + seq!['\n']);
    }
}

/// Terminated lines behind `p` read back as themselves.
proof fn lemma_lines_of_terminated(p: Seq<char>, ls: Seq<Seq<char>>)
    requires
        forall|i: int| 0 <= i < ls.len() ==> is_line(#[trigger] ls[i]),
    ensures
        lines_from(p + terminated(ls), p.len() as int) == ls,
    decreases ls.len(),
{
    let s = p + terminated(ls);
    if ls.len() > 0 {
        let l = ls[0];
        let k = p.len() + l.len();
        assert(is_line(l));
        assert forall|j: int| p.len() <= j < k implies s[j] != '\n' by {
            assert(s[j] == l[j - p.len()]);
            assert(l.contains(l[j - p.len()]));
        }
        assert(s[k as int] == '\n');
        lemma_next_char_is(s, '\n', p.len() as int, k as int);
        assert(s.subrange(p.len() as int, k as int) =~= l);
        assert(without_cr(l) == l);
        let q = p + l + seq!['\n'];
        assert(q + terminated(ls.drop_first()) =~= s);
        assert forall|i: int| 0 <= i < ls.drop_first().len() implies is_line(
            #[trigger] ls.drop_first()[i],
        ) by {
            assert(is_line(ls[i + 1]));
        }
        lemma_lines_of_terminated(q, ls.drop_first());
        assert(lines_from(s, p.len() as int) =~= seq![l] + ls.drop_first());
        assert(lines_from(s, p.len() as int) =~= ls);
    } else {
        assert(lines_from(s, p.len() as int) =~= ls);
    }
}

/// Reading a manifest gives back what was written: the bytes are recognised
/// as a manifest, and its lines behind the header are the file name and the
/// chunks.
pub proof fn manifest_reads_back(name: Seq<char>, ids: Seq<Seq<char>>)
    requires
        is_line(name),
        forall|i: int| 0 <= i < ids.len() ==> is_line(#[trigger] ids[i]),
    ensures
        is_manifest_body(encode_utf8(manifest_text(name, ids))),
        decode_utf8(encode_utf8(manifest_text(name, ids))) == manifest_text(name, ids),
        lines_from(manifest_text(name, ids), 0) == seq!["tgstate-blob"@, name] + ids,
{
    reveal_strlit("tgstate-blob\n");
    reveal_strlit("tgstate-blob");
    let text = manifest_text(name, ids);
    let rest = name + seq!['\n'] + terminated(ids);
    lemma_encode_join(MANIFEST_HEADER@, rest);
    assert(text =~= MANIFEST_HEADER@ + rest);
    let header = encode_utf8(MANIFEST_HEADER@);
    assert((header + encode_utf8(rest)).take(header.len() as int) =~= header);
    encode_utf8_decode_utf8(text);
    let ls = seq!["tgstate-blob"@, name] + ids;
    assert forall|i: int| 0 <= i < ls.len() implies is_line(#[trigger] ls[i]) by {
        if i >= 2 {
            assert(is_line(ids[i - 2]));
        }
    }
    let p = Seq::<char>::empty();
    lemma_lines_of_terminated(p, ls);
    assert(ls.drop_first() =~= seq![name] + ids);
    assert(ls.drop_first().drop_first() =~= ids);
    reveal_with_fuel(terminated, 3);
    assert(MANIFEST_HEADER@ =~= "tgstate-blob"@ + seq!['\n']);
    assert(p + terminated(ls) =~= text);
}

/// The manifest of a file.
pub fn build_manifest(name: &str, ids: &Vec<String>) -> (r: String)
    ensures
        r@ == manifest_text(name@, views(ids@)),
{
    let mut out: String = String::from_str(MANIFEST_HEADER);
    out.append(name);
    out.push('\n');
    let ghost head = out@;
    let mut i: usize = 0;
    proof {
        assert(views(ids@).take(0) =~= Seq::<Seq<char>>::empty());
        assert(head =~= MANIFEST_HEADER@ + name@ + seq!['\n']);
        assert(out@ =~= head + terminated(views(ids@).take(0)));
    }
    while i < ids.len()
        invariant
            i <= ids@.len(),
            out@ == head + terminated(views(ids@).take(i as int)),
        decreases ids@.len() - i,
    {
        let ghost done = out@;
        out.append(ids[i].as_str());
        out.push('\n');
        proof {
            let all = views(ids@);
            assert(all.take(i + 1) =~= all.take(i as int).push(all[i as int]));
            lemma_terminated_push(all.take(i as int), all[i as int]);
            assert(out@ =~= head + terminated(all.take(i + 1)));
        }
        i += 1;
    }
    proof {
        assert(views(ids@).take(i as int) =~= views(ids@));
    }
    out
}

/// Whether the bytes begin with the header of a manifest.
pub fn is_manifest(body: &Vec<u8>) -> (r: bool)
    ensures
        r == is_manifest_body(body@),
{
    let header: &[u8] = MANIFEST_HEADER.as_bytes();
    if header.len() > body.len() {
        return false;
    }
    let mut i: usize = 0;
    while i < header.len()
        invariant
            i <= header@.len() <= body@.len(),
            header@ == encode_utf8(MANIFEST_HEADER@),
            forall|j: int| 0 <= j < i ==> header@[j] == body@[j],
        decreases header@.len() - i,
    {
        if header[i] != body[i] {
            proof {
                assert(body@.take(header@.len() as int)[i as int] == body@[i as int]);
            }
            return false;
        }
        i += 1;
    }
    proof {
        assert(body@.take(header@.len() as int) =~= header@);
    }
    true
}

/// The lines of the bytes, read as UTF-8 with replacement characters where
/// they are not valid.
pub fn body_lines(body: &Vec<u8>) -> (r: Vec<String>)
    ensures
        views(r@) == lines_from(lossy_utf8(body@), 0),
        valid_utf8(body@) ==> views(r@) == lines_from(decode_utf8(body@), 0),
{
    let content: String = text_from_utf8_lossy(body);
    lines(content.as_str())
}

/// Bytes are those of a manifest if and only if the header line stands in
/// front of them.
pub proof fn manifests_are_known_by_their_header(body: Seq<u8>)
    ensures
        is_manifest_body(body) <==> exists|rest: Seq<u8>|
            body == #[trigger] (encode_utf8("tgstate-blob\n"@) + rest),
{
    let header = encode_utf8(MANIFEST_HEADER@);
    if is_manifest_body(body) {
        assert(body =~= header + body.skip(header.len() as int));
    }
    if exists|rest: Seq<u8>| body == #[trigger] (encode_utf8("tgstate-blob\n"@) + rest) {
        let rest = choose|rest: Seq<u8>|
            body == #[trigger] (encode_utf8("tgstate-blob\n"@) + rest);
        assert((header + rest).take(header.len() as int) =~= header);
    }
}

/// A manifest is its header line, the line of the file name, and a line for
/// each chunk, in the order of the chunks; one chunk more is one line more
/// behind it.
pub proof fn manifests_list_their_chunks(name: Seq<char>, ids: Seq<Seq<char>>, id: Seq<char>)
    ensures
        manifest_text(name, Seq::empty()) == "tgstate-blob\n"@ + name + seq!['\n'],
        manifest_text(name, ids.push(id)) == manifest_text(name, ids) + id + seq!['\n'],
{
    lemma_terminated_push(ids, id);
    assert(manifest_text(name, Seq::empty()) =~= "tgstate-blob\n"@ + name + seq!['\n']);
    assert(manifest_text(name, ids.push(id)) =~= manifest_text(name, ids) + id + seq!['\n']);
}

} // verus!

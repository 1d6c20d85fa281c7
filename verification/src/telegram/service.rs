//! Files in a Telegram channel: sending, fetching, deleting.
//!
//! The functions build the requests and read the answers; sending them is
//! left to the caller.
use vstd::prelude::*;
use vstd::string::*;

use crate::constants::HTTP_TIMEOUT_METADATA_SECS;
use crate::decimal::decimal_i64;
use crate::decimal::decimal_int;
use crate::decimal::is_digit;
use crate::decimal::lemma_decimal_int;
use crate::decimal::number;
use crate::decimal::parse_i64;
use crate::error::AppErrorKind;
use crate::filename::extension;
use crate::filename::extension_of;
use crate::outside::guess_mime;
use crate::outside::guessed_mime;
use crate::outside::json_fields;
use crate::outside::json_reply;
use crate::telegram::request::ApiRequest;
use crate::telegram::request::ApiRequestView;
use crate::telegram::request::Exchange;
use crate::telegram::request::ParamView;
use crate::telegram::request::download_url;
use crate::telegram::request::download_url_of;
use crate::telegram::request::method_url;
use crate::telegram::request::method_url_of;
use crate::telegram::request::number_param;
use crate::telegram::request::text_param;
use crate::telegram::types::Message;
use crate::telegram::types::TelegramFile;
use crate::telegram::types::TelegramResponse;
use crate::text::before;
use crate::text::behind;
use crate::text::clashes;
use crate::text::clashes_at;
use crate::text::contains;
use crate::text::find_from;
use crate::text::holds;
use crate::text::join;
use crate::text::join3;
use crate::text::lemma_find_from;
use crate::text::lemma_next_char_is;
use crate::text::lemma_replace_behind;
use crate::text::lemma_replace_front;
use crate::text::lemma_replace_nothing;
use crate::text::lemma_replace_skips;
use crate::text::lemma_replaced;
use crate::text::occurs_at;
use crate::text::opt_view;
use crate::text::or_empty;
use crate::text::parts_around_a_character;
use crate::text::replace;
use crate::text::replace_from;
use crate::text::split_once;
use crate::text::text_or_empty;

verus! {

/// `text` with the token, alone or behind the word `bot`, made unreadable.
pub open spec fn redacted(text: Seq<char>, token: Seq<char>) -> Seq<char> {
    if token.len() == 0 {
        text
    } else {
        replace_from(
            replace_from(text, "bot"@ + token, "bot<redacted>"@, 0),
            token,
            "<redacted>"@,
            0,
        )
    }
}

/// The text with the bot token made unreadable, for logs and error messages.
pub fn sanitize_bot_token_in_text(text: &str, bot_token: &str) -> (r: String)
    ensures
        r@ == redacted(text@, bot_token@),
{
    if bot_token.is_empty() {
        String::from_str(text)
    } else {
        let prefixed: String = join("bot", bot_token);
        let once: String = replace(text, prefixed.as_str(), "bot<redacted>");
        replace(once.as_str(), bot_token, "<redacted>")
    }
}

/// No text reveals the token once it is redacted, for every token that
/// clashes with the mark `<redacted>` wherever the two meet.
pub proof fn redaction_hides_the_token(text: Seq<char>, token: Seq<char>)
    requires
        token.len() > 0,
        clashes(token, "<redacted>"@),
    ensures
        !holds(redacted(text, token), token),
{
    lemma_replaced(replace_from(text, "bot"@ + token, "bot<redacted>"@, 0), token, "<redacted>"@);
}

/// No text reveals a token as Telegram gives them out, with a colon and
/// without angle brackets, once it is redacted.
pub proof fn redaction_hides_telegram_tokens(text: Seq<char>, token: Seq<char>)
    requires
        token.contains(':'),
        !token.contains('<'),
        !token.contains('>'),
    ensures
        !holds(redacted(text, token), token),
{
    let m = "<redacted>"@;
    reveal_strlit("<redacted>");
    let c = choose|c: int| 0 <= c < token.len() && token[c] == ':';
    assert forall|d: int| -(token.len() as int) < d < m.len() implies #[trigger] clashes_at(
        token,
        m,
        d,
    ) by {
        if d <= 0 {
            assert(token[-d] != '<');
            assert(m[0] != token[0 - d]);
        } else if d + token.len() > 9 {
            assert(token[9 - d] != '>');
            assert(m[9] != token[9 - d]);
        } else {
            assert(m[d + c] != token[d + c - d]);
        }
    }
    redaction_hides_the_token(text, token);
}

/// No text reveals a token that begins with a digit and holds no `<`, as those
/// of Telegram do, once it is redacted.
pub proof fn redaction_hides_tokens_with_a_number(text: Seq<char>, token: Seq<char>)
    requires
        token.len() > 0,
        is_digit(token[0]),
        !token.contains('<'),
    ensures
        !holds(redacted(text, token), token),
{
    let m = "<redacted>"@;
    reveal_strlit("<redacted>");
    assert forall|d: int| -(token.len() as int) < d < m.len() implies #[trigger] clashes_at(
        token,
        m,
        d,
    ) by {
        if d <= 0 {
            assert(token[-d] != '<');
            assert(m[0] != token[0 - d]);
        } else {
            assert(m[d] != token[d - d]);
        }
    }
    redaction_hides_the_token(text, token);
}

/// Somewhere in the token the word `bot` stands before what is also the
/// beginning of the token, up to its end.
pub open spec fn restarts_behind_bot(token: Seq<char>) -> bool {
    exists|d: int| #[trigger] restarts_at(token, d)
}

/// The word `bot` and the beginning of the token stand in the token, the
/// latter from `d` to its end.
pub open spec fn restarts_at(token: Seq<char>, d: int) -> bool {
    &&& 3 <= d < token.len()
    &&& token.subrange(d - 3, d) == "bot"@
    &&& token.subrange(d, token.len() as int) == token.subrange(0, token.len() - d)
}

proof fn lemma_first_pass_keeps(text: Seq<char>, token: Seq<char>, at: int, w: Seq<char>)
    requires
        0 <= at <= text.len(),
        !w.contains('<'),
        occurs_at(replace_from(text, "bot"@ + token, "bot<redacted>"@, at), w, 0),
    ensures
        occurs_at(text, w, at),
    decreases text.len() - at,
{
    reveal_strlit("bot");
    reveal_strlit("bot<redacted>");
    let b = "bot"@ + token;
    let bm = "bot<redacted>"@;
    let r = replace_from(text, b, bm, at);
    assert(r.subrange(0, w.len() as int) == w);
    if w.len() == 0 {
        assert(text.subrange(at, at) =~= w);
    } else if occurs_at(text, b, at) {
        if w.len() > 3 {
            assert(r[3] == bm[3]);
            assert(w[3] == r[3]);
            assert(w.contains('<'));
        }
        assert forall|k: int| 0 <= k < w.len() implies text[at + k] == w[k] by {
            assert(w[k] == r[k]);
            assert(r[k] == bm[k]);
            assert(text[at + k] == text.subrange(at, at + b.len())[k]);
        }
        assert(text.subrange(at, at + w.len()) =~= w);
    } else {
        let rest = replace_from(text, b, bm, at + 1);
        let v = w.drop_first();
        assert forall|k: int| 0 <= k < v.len() implies v[k] != '<' by {
            assert(w.contains(w[k + 1]));
        }
        assert(r =~= seq![text[at]] + rest);
        assert(rest.subrange(0, v.len() as int) =~= v) by {
            assert forall|k: int| 0 <= k < v.len() implies rest[k] == v[k] by {
                assert(w[k + 1] == r[k + 1]);
            }
        }
        lemma_first_pass_keeps(text, token, at + 1, v);
        assert(text[at] == w[0]) by {
            assert(w[0] == r[0]);
        }
        assert forall|k: int| 0 <= k < w.len() implies text[at + k] == w[k] by {
            if k > 0 {
                assert(text.subrange(at + 1, at + 1 + v.len())[k - 1] == v[k - 1]);
            }
        }
        assert(text.subrange(at, at + w.len()) =~= w);
    }
}

/// Nothing that begins with a digit begins in a part without digits.
proof fn lemma_no_start(a: Seq<char>, b: Seq<char>, token: Seq<char>)
    requires
        token.len() > 0,
        is_digit(token[0]),
        forall|i: int| 0 <= i < a.len() ==> !is_digit(#[trigger] a[i]),
    ensures
        forall|i: int| 0 <= i < a.len() ==> !occurs_at(a + b, token, i),
{
    assert forall|i: int| 0 <= i < a.len() implies !occurs_at(a + b, token, i) by {
        if occurs_at(a + b, token, i) {
            assert((a + b).subrange(i, i + token.len())[0] == a[i]);
        }
    }
}

proof fn lemma_no_digits()
    ensures
        forall|i: int| 0 <= i < "<redacted>"@.len() ==> !is_digit(#[trigger] "<redacted>"@[i]),
        forall|i: int| 0 <= i < "bot"@.len() ==> !is_digit(#[trigger] "bot"@[i]),
        "bot"@.len() == 3,
        "bot<redacted>"@ == "bot"@ + "<redacted>"@,
{
    reveal_strlit("<redacted>");
    reveal_strlit("bot");
    reveal_strlit("bot<redacted>");
    assert("bot<redacted>"@ =~= "bot"@ + "<redacted>"@);
}

/// A token behind the word `bot`: both ways replace it alone.
proof fn lemma_prefixed_token(text: Seq<char>, token: Seq<char>, at: int)
    requires
        token.len() > 0,
        is_digit(token[0]),
        0 <= at,
        occurs_at(text, "bot"@ + token, at),
    ensures
        replace_from(text, token, "<redacted>"@, at) == "bot"@ + ("<redacted>"@ + replace_from(
            text,
            token,
            "<redacted>"@,
            at + 3 + token.len(),
        )),
        occurs_at(text, token, at + 3),
        text.subrange(at, at + 3) == "bot"@,
{
    lemma_no_digits();
    let b = "bot"@ + token;
    let here = text.subrange(at, at + b.len());
    assert(text.subrange(at, at + 3) =~= here.subrange(0, 3));
    assert(b.subrange(0, 3) =~= "bot"@);
    assert(text.subrange(at + 3, at + 3 + token.len()) =~= here.subrange(3, b.len() as int));
    assert(b.subrange(3, b.len() as int) =~= token);
    assert forall|i: int| at <= i < at + 3 implies !occurs_at(text, token, i) by {
        if occurs_at(text, token, i) {
            assert(text.subrange(i, i + token.len())[0] == text[i]);
            assert(text[i] == text.subrange(at, at + 3)[i - at]);
            assert(!is_digit("bot"@[i - at]));
        }
    }
    lemma_replace_skips(text, token, "<redacted>"@, at, at + 3);
}

proof fn lemma_two_passes(text: Seq<char>, token: Seq<char>, at: int)
    requires
        token.len() > 0,
        is_digit(token[0]),
        !token.contains('<'),
        !restarts_behind_bot(token),
        0 <= at <= text.len(),
    ensures
        replace_from(
            replace_from(text, "bot"@ + token, "bot<redacted>"@, at),
            token,
            "<redacted>"@,
            0,
        ) == replace_from(text, token, "<redacted>"@, at),
    decreases text.len() - at, 1int,
{
    lemma_no_digits();
    let bot = "bot"@;
    let b = bot + token;
    let m = "<redacted>"@;
    let bm = "bot<redacted>"@;
    let n = token.len() as int;
    let first = replace_from(text, b, bm, at);
    if at == text.len() {
        assert(first =~= Seq::<char>::empty());
    } else if occurs_at(text, b, at) {
        let j = at + 3 + n;
        let rest = replace_from(text, b, bm, j);
        lemma_two_passes(text, token, j);
        lemma_prefixed_token(text, token, at);
        lemma_no_start(bm, rest, token);
        lemma_replace_behind(bm, rest, token, m);
        assert(bm + replace_from(rest, token, m, 0) =~= bot + (m + replace_from(
            rest,
            token,
            m,
            0,
        )));
    } else if occurs_at(text, token, at) {
        lemma_token_in_front(text, token, at);
    } else {
        let rest = replace_from(text, b, bm, at + 1);
        lemma_two_passes(text, token, at + 1);
        assert(first == seq![text[at]] + rest);
        if occurs_at(first, token, 0) {
            lemma_first_pass_keeps(text, token, at, token);
        }
        lemma_replace_behind(seq![text[at]], rest, token, m);
    }
}

proof fn lemma_token_in_front(text: Seq<char>, token: Seq<char>, at: int)
    requires
        token.len() > 0,
        is_digit(token[0]),
        !token.contains('<'),
        !restarts_behind_bot(token),
        0 <= at < text.len(),
        occurs_at(text, token, at),
    ensures
        replace_from(
            replace_from(text, "bot"@ + token, "bot<redacted>"@, at),
            token,
            "<redacted>"@,
            0,
        ) == replace_from(text, token, "<redacted>"@, at),
    decreases text.len() - at, 0int,
{
    lemma_no_digits();
    let bot = "bot"@;
    let b = bot + token;
    let m = "<redacted>"@;
    let bm = "bot<redacted>"@;
    let n = token.len() as int;
    let first = replace_from(text, b, bm, at);
    lemma_find_from(text, b, at);
    let next = find_from(text, b, at);
    if next is None || next->0 >= at + n {
        let rest = replace_from(text, b, bm, at + n);
        lemma_replace_skips(text, b, bm, at, at + n);
        assert(first == token + rest);
        lemma_replace_front(rest, token, m);
        lemma_two_passes(text, token, at + n);
    } else {
        let p = next->0;
        let j = p + 3 + n;
        let rest = replace_from(text, b, bm, j);
        lemma_prefixed_token(text, token, p);
        assert(text.subrange(at, at + n)[0] == text[at]);
        assert(text[p] == text.subrange(p, p + 3)[0]);
        assert(p != at) by {
            assert(!is_digit(bot[0]));
        }
        if p + 3 < at + n {
            let d = p + 3 - at;
            assert(token.subrange(d - 3, d) =~= text.subrange(p, p + 3)) by {
                assert(text.subrange(at, at + n).subrange(d - 3, d) =~= text.subrange(p, p + 3));
            }
            assert(token.subrange(d, n) =~= text.subrange(p + 3, at + n)) by {
                assert(text.subrange(at, at + n).subrange(d, n) =~= text.subrange(p + 3, at + n));
            }
            assert(token.subrange(0, n - d) =~= text.subrange(p + 3, at + n)) by {
                assert(text.subrange(p + 3, p + 3 + n).subrange(0, n - d) =~= text.subrange(
                    p + 3,
                    at + n,
                ));
            }
            assert(restarts_at(token, d));
        }
        let tail = text.subrange(at + n, p + 3);
        assert forall|i: int| 0 <= i < tail.len() implies !is_digit(#[trigger] tail[i]) by {
            assert(tail[i] == text.subrange(p, p + 3)[at + n + i - p]);
            assert(!is_digit(bot[at + n + i - p]));
        }
        lemma_replace_skips(text, b, bm, at, p);
        assert(first == text.subrange(at, p) + (bm + rest));
        assert(text.subrange(at, p) + bot =~= token + tail) by {
            assert(text.subrange(at, p) + text.subrange(p, p + 3) =~= text.subrange(at, p + 3));
            assert(text.subrange(at, at + n) + tail =~= text.subrange(at, p + 3));
        }
        let plain = tail + m;
        assert(first =~= token + (plain + rest));
        lemma_replace_front(plain + rest, token, m);
        lemma_no_start(plain, rest, token);
        lemma_replace_behind(plain, rest, token, m);
        lemma_two_passes(text, token, j);
        let goal = replace_from(text, token, m, j);
        assert(replace_from(first, token, m, 0) == m + (plain + goal));
        assert forall|i: int| at + n <= i < p + 3 implies !occurs_at(text, token, i) by {
            if occurs_at(text, token, i) {
                assert(text.subrange(i, i + n)[0] == text[i]);
                assert(tail[i - at - n] == text[i]);
            }
        }
        lemma_replace_skips(text, token, m, at + n, p + 3);
        assert(replace_from(text, token, m, at + n) =~= plain + goal);
    }
}

/// Redaction replaces each token in the text and nothing else: the two passes,
/// for the token behind the word `bot` and for the token alone, are one. This
/// is so for a token that begins with a digit, holds no `<` and does not begin
/// again behind a `bot` in it.
pub proof fn redaction_is_one_replacement(text: Seq<char>, token: Seq<char>)
    requires
        token.len() > 0,
        is_digit(token[0]),
        !token.contains('<'),
        !restarts_behind_bot(token),
    ensures
        redacted(text, token) == replace_from(text, token, "<redacted>"@, 0),
{
    lemma_two_passes(text, token, 0);
}

/// A text without the token is left as it is.
pub proof fn redaction_keeps_other_texts(text: Seq<char>, token: Seq<char>)
    requires
        !holds(text, token),
    ensures
        redacted(text, token) == text,
{
    if token.len() > 0 {
        let prefixed = "bot"@ + token;
        assert forall|i: int| !occurs_at(text, prefixed, i) by {
            if occurs_at(text, prefixed, i) {
                let b = "bot"@.len();
                assert(text.subrange(i + b, i + b + token.len()) =~= text.subrange(
                    i,
                    i + prefixed.len(),
                ).subrange(b as int, prefixed.len() as int));
                assert(prefixed.subrange(b as int, prefixed.len() as int) =~= token);
                assert(occurs_at(text, token, i + b));
            }
        }
        lemma_replace_nothing(text, prefixed, "bot<redacted>"@);
        lemma_replace_nothing(text, token, "<redacted>"@);
    }
}

/// The identifier of a stored file: the message that holds it and Telegram's
/// own identifier.
pub open spec fn composite_text(message_id: int, file_id: Seq<char>) -> Seq<char> {
    decimal_int(message_id) + ":"@ + file_id
}

/// The identifier of a stored file.
pub fn composite_id(message_id: i64, file_id: &str) -> (r: String)
    ensures
        r@ == composite_text(message_id as int, file_id@),
{
    join3(decimal_i64(message_id).as_str(), ":", file_id)
}

/// The message that the identifier `s` names, if the part before its first
/// colon is a number that fits in 64 bits.
pub open spec fn message_of(s: Seq<char>) -> Option<i64> {
    match number(before(s, ':'), true) {
        Some(n) => if i64::MIN <= n <= i64::MAX {
            Some(n as i64)
        } else {
            None
        },
        None => None,
    }
}

/// Why a text is no identifier of a stored file.
#[derive(Debug, Clone, Copy, PartialEq, Eq, Structural)]
pub enum CompositeIdError {
    /// It holds no colon.
    Format,
    /// What stands before the colon is no message number.
    MessageId,
}

/// Takes an identifier apart into the message and Telegram's identifier.
pub fn parse_composite_id(s: &str) -> (r: Result<(i64, String), CompositeIdError>)
    ensures
        match r {
            Ok((m, f)) => s@.contains(':') && message_of(s@) == Some(m) && f@ == behind(s@, ':'),
            Err(CompositeIdError::Format) => !s@.contains(':'),
            Err(CompositeIdError::MessageId) => s@.contains(':') && message_of(s@) is None,
        },
        parses_as(s@, r),
{
    match split_once(s, ':') {
        Some((m, f)) => match parse_i64(m.as_str()) {
            Some(id) => Ok((id, f)),
            None => Err(CompositeIdError::MessageId),
        },
        None => Err(CompositeIdError::Format),
    }
}

/// An identifier reads back as the message and the file that it was made of.
pub proof fn composite_reads_back(message_id: i64, file_id: Seq<char>)
    ensures
        composite_text(message_id as int, file_id).contains(':'),
        message_of(composite_text(message_id as int, file_id)) == Some(message_id),
        behind(composite_text(message_id as int, file_id), ':') == file_id,
{
    reveal_strlit(":");
    let s = composite_text(message_id as int, file_id);
    let m = decimal_int(message_id as int);
    lemma_decimal_int(message_id as int);
    assert(s[m.len() as int] == ':');
    assert forall|j: int| 0 <= j < m.len() implies s[j] != ':' by {
        assert(s[j] == m[j]);
        assert(is_digit(m[j]) || m[j] == '-');
    }
    lemma_next_char_is(s, ':', 0, m.len() as int);
    assert(before(s, ':') =~= m);
    assert(behind(s, ':') =~= file_id);
}

/// Where the file of a `getFile` answer is found, if the answer says so.
pub open spec fn download_of(
    token: Seq<char>,
    data: TelegramResponse<TelegramFile>,
) -> Option<Seq<char>> {
    match data.result {
        Some(file) => match file.file_path {
            Some(path) => if data.ok {
                Some(download_url(token, path@))
            } else {
                None
            },
            None => None,
        },
        None => None,
    }
}

/// A document on its way to a channel: a multipart form.
#[derive(Debug)]
pub struct DocumentForm {
    pub url: String,
    pub chat_id: String,
    pub file_name: String,
    pub mime: String,
    pub data: Vec<u8>,
    pub reply_to: Option<String>,
}

/// The message that a `sendDocument` answer reports, or the text of what went
/// wrong.
pub open spec fn reported_message(
    token: Seq<char>,
    answer: Exchange<TelegramResponse<Message>>,
) -> Result<Message, Seq<char>> {
    match answer {
        Exchange::Failed(e) => Err(redacted(e@, token)),
        Exchange::Unreadable(e) => Err(redacted(e@, token)),
        Exchange::Answer(data) => if data.ok {
            match data.result {
                Some(m) => Ok(m),
                None => Err("No result in response"@),
            }
        } else {
            Err("sendDocument error: "@ + or_empty(opt_view(data.description)))
        },
    }
}

/// The request that deletes a message.
pub open spec fn delete_request(
    token: Seq<char>,
    chat: Seq<char>,
    message_id: i64,
    timeout_secs: Option<u64>,
) -> ApiRequestView {
    ApiRequestView {
        url: method_url(token, "deleteMessage"@),
        params: seq![
            ("chat_id"@, ParamView::Text(chat)),
            ("message_id"@, ParamView::Number(message_id)),
        ],
        timeout_secs,
    }
}

/// The request that deletes a message.
pub fn delete_request_for(
    token: &str,
    chat: &str,
    message_id: i64,
    timeout_secs: Option<u64>,
) -> (r: ApiRequest)
    ensures
        r@ == delete_request(token@, chat@, message_id, timeout_secs),
{
    let r: ApiRequest = ApiRequest {
        url: method_url_of(token, "deleteMessage"),
        params: vec![text_param("chat_id", chat), number_param("message_id", message_id)],
        timeout_secs,
    };
    proof {
        assert(r@.params =~= delete_request(token@, chat@, message_id, timeout_secs).params);
    }
    r
}

/// Whether a message is gone, and why, by the `ok` and the `description` of
/// the answer. A message that was not there counts as gone.
pub open spec fn deletion(ok: Option<bool>, description: Option<Seq<char>>) -> (bool, Seq<char>) {
    if ok == Some(true) {
        (true, "deleted"@)
    } else if holds(or_empty(description), "not found"@) {
        (true, "not_found"@)
    } else {
        (false, "error"@)
    }
}

/// Whether a message is gone, and why.
pub fn deletion_of(ok: Option<bool>, description: &Option<String>) -> (r: (bool, String))
    ensures
        (r.0, r.1@) == deletion(ok, opt_view(*description)),
{
    let done: bool = match ok {
        Some(b) => b,
        None => false,
    };
    if done {
        (true, String::from_str("deleted"))
    } else if contains(text_or_empty(description).as_str(), "not found") {
        (true, String::from_str("not_found"))
    } else {
        (false, String::from_str("error"))
    }
}

/// A bot and the channel that it stores files in.
#[derive(Debug, Clone)]
pub struct TelegramService {
    pub bot_token: String,
    pub channel_name: String,
}

impl TelegramService {
    /// The service for this bot and this channel.
    pub fn new(bot_token: String, channel_name: String) -> (r: Self)
        ensures
            r.bot_token@ == bot_token@,
            r.channel_name@ == channel_name@,
    {
        TelegramService { bot_token, channel_name }
    }

    /// Where a method of the API is found.
    pub fn api_url(&self, method: &str) -> (r: String)
        ensures
            r@ == method_url(self.bot_token@, method@),
    {
        method_url_of(self.bot_token.as_str(), method)
    }

    /// Where a file of the API is found.
    pub fn file_url(&self, file_path: &str) -> (r: String)
        ensures
            r@ == download_url(self.bot_token@, file_path@),
    {
        download_url_of(self.bot_token.as_str(), file_path)
    }

    /// An error message without the token.
    pub fn sanitize_error(&self, err: &str) -> (r: String)
        ensures
            r@ == redacted(err@, self.bot_token@),
    {
        sanitize_bot_token_in_text(err, self.bot_token.as_str())
    }

    /// The request for where a file can be fetched.
    pub fn get_file_request(&self, file_id: &str) -> (r: ApiRequest)
        ensures
            r@ == (ApiRequestView {
                url: method_url(self.bot_token@, "getFile"@),
                params: seq![("file_id"@, ParamView::Text(file_id@))],
                timeout_secs: Some(HTTP_TIMEOUT_METADATA_SECS),
            }),
    {
        let r: ApiRequest = ApiRequest {
            url: self.api_url("getFile"),
            params: vec![text_param("file_id", file_id)],
            timeout_secs: Some(HTTP_TIMEOUT_METADATA_SECS),
        };
        proof {
            assert(r@.params =~= seq![("file_id"@, ParamView::Text(file_id@))]);
        }
        r
    }

    /// Where the file of a `getFile` answer can be fetched; none if Telegram
    /// does not say.
    pub fn get_download_url(&self, answer: Exchange<TelegramResponse<TelegramFile>>) -> (r: Result<
        Option<String>,
        String,
    >)
        ensures
            match answer {
                Exchange::Failed(e) => r matches Err(t) && t@ == "getFile request failed: "@
                    + redacted(e@, self.bot_token@),
                Exchange::Unreadable(e) => r matches Err(t) && t@ == "Parse error: "@ + e@,
                Exchange::Answer(data) => r matches Ok(u) && opt_view(u) == download_of(
                    self.bot_token@,
                    data,
                ),
            },
    {
        match answer {
            Exchange::Failed(e) => Err(
                join("getFile request failed: ", self.sanitize_error(e.as_str()).as_str()),
            ),
            Exchange::Unreadable(e) => Err(join("Parse error: ", e.as_str())),
            Exchange::Answer(data) => {
                if data.ok {
                    if let Some(file) = data.result {
                        if let Some(path) = file.file_path {
                            return Ok(Some(self.file_url(path.as_str())));
                        }
                    }
                }
                Ok(None)
            },
        }
    }

    /// The form that sends a document to the channel.
    pub fn send_document(&self, file_bytes: Vec<u8>, filename: &str, reply_to: Option<i64>) -> (r:
        DocumentForm)
        ensures
            r.url@ == method_url(self.bot_token@, "sendDocument"@),
            r.chat_id@ == self.channel_name@,
            r.file_name@ == filename@,
            r.mime@ == guessed_mime(extension(filename@)),
            extension(filename@).len() == 0 ==> r.mime@ == "application/octet-stream"@,
            r.data@ == file_bytes@,
            opt_view(r.reply_to) == match reply_to {
                Some(id) => Some(decimal_int(id as int)),
                None => None,
            },
    {
        let reply_to: Option<String> = match reply_to {
            Some(id) => Some(decimal_i64(id)),
            None => None,
        };
        DocumentForm {
            url: self.api_url("sendDocument"),
            chat_id: String::from_str(self.channel_name.as_str()),
            file_name: String::from_str(filename),
            mime: guess_mime(extension_of(filename).as_str()),
            data: file_bytes,
            reply_to,
        }
    }

    /// The message that a `sendDocument` answer reports.
    pub fn sent_document(&self, answer: Exchange<TelegramResponse<Message>>) -> (r: Result<
        Message,
        AppErrorKind,
    >)
        ensures
            match reported_message(self.bot_token@, answer) {
                Ok(m) => r == Ok::<Message, AppErrorKind>(m),
                Err(t) => r matches Err(AppErrorKind::Telegram(e)) && e@ == t,
            },
    {
        match answer {
            Exchange::Failed(e) => Err(AppErrorKind::Telegram(self.sanitize_error(e.as_str()))),
            Exchange::Unreadable(e) => Err(
                AppErrorKind::Telegram(self.sanitize_error(e.as_str())),
            ),
            Exchange::Answer(data) => {
                if data.ok {
                    match data.result {
                        Some(message) => Ok(message),
                        None => Err(
                            AppErrorKind::Telegram(String::from_str("No result in response")),
                        ),
                    }
                } else {
                    Err(
                        AppErrorKind::Telegram(
                            join("sendDocument error: ", text_or_empty(&data.description).as_str()),
                        ),
                    )
                }
            },
        }
    }

    /// The message that a `sendDocument` answer reports, or the text of what
    /// went wrong.
    pub fn send_document_raw(&self, answer: Exchange<TelegramResponse<Message>>) -> (r: Result<
        Message,
        String,
    >)
        ensures
            match reported_message(self.bot_token@, answer) {
                Ok(m) => r == Ok::<Message, String>(m),
                Err(t) => r matches Err(e) && e@ == t,
            },
    {
        match self.sent_document(answer) {
            Ok(m) => Ok(m),
            Err(k) => Err(k.into_message()),
        }
    }

    /// The request that deletes a message of the channel.
    pub fn delete_message_request(&self, message_id: i64) -> (r: ApiRequest)
        ensures
            r@ == delete_request(
                self.bot_token@,
                self.channel_name@,
                message_id,
                Some(HTTP_TIMEOUT_METADATA_SECS),
            ),
    {
        delete_request_for(
            self.bot_token.as_str(),
            self.channel_name.as_str(),
            message_id,
            Some(HTTP_TIMEOUT_METADATA_SECS),
        )
    }

    /// Whether a message is gone, and why, by the answer to its deletion:
    /// none if the request failed or its answer could not be read.
    pub fn delete_message(&self, answer: Option<Vec<u8>>) -> (r: (bool, String))
        ensures
            (r.0, r.1@) == match answer {
                Some(body) => match json_fields(body@) {
                    Some(f) => deletion(f.0, f.1),
                    None => deletion(None, None),
                },
                None => deletion(None, None),
            },
            (r.0, r.1@) == deletion_by(
                match answer {
                    Some(body) => json_fields(body@),
                    None => None,
                },
            ),
    {
        match answer {
            Some(body) => match json_reply(&body) {
                Some(f) => deletion_of(f.ok, &f.description),
                None => deletion_of(None, &None),
            },
            None => deletion_of(None, &None),
        }
    }
}

/// A message counts as gone only if Telegram says that it deleted it, or that
/// it was not found. Every other answer, whatever it says, is an error; and
/// only what Telegram deleted is reported as deleted.
pub proof fn messages_are_gone_only_by_word_of_telegram(
    ok: Option<bool>,
    description: Option<Seq<char>>,
)
    ensures
        deletion(ok, description).0 <==> (ok == Some(true) || (description matches Some(d) && holds(
            d,
            "not found"@,
        ))),
        deletion(ok, description).1 == "deleted"@ <==> ok == Some(true),
        deletion(ok, description).1 == "error"@ <==> !deletion(ok, description).0,
        ok != Some(true) && deletion(ok, description).0 ==> deletion(ok, description).1
            == "not_found"@,
{
    reveal_strlit("deleted");
    reveal_strlit("not_found");
    reveal_strlit("error");
    reveal_strlit("not found");
    assert("deleted"@.len() == 7 && "not_found"@.len() == 9 && "error"@.len() == 5);
    if description is None {
        assert forall|i: int| !occurs_at(Seq::empty(), "not found"@, i) by {}
    }
}

/// A file can be fetched where Telegram says, and only if it says where: the
/// answer is all right and names a path.
pub proof fn files_are_where_telegram_says(
    token: Seq<char>,
    data: TelegramResponse<TelegramFile>,
)
    ensures
        download_of(token, data) is Some <==> data.ok && data.result is Some
            && data.result->0.file_path is Some,
        download_of(token, data) is Some ==> download_of(token, data) == Some(
            "https://api.telegram.org/file/bot"@ + token + "/"@ + data.result->0.file_path->0@,
        ),
{
}

/// A document is posted as the message of an answer that is all right; there
/// is none in any other case.
pub proof fn posted_documents_are_messages(
    token: Seq<char>,
    answer: Exchange<TelegramResponse<Message>>,
)
    ensures
        answer matches Exchange::Answer(d) && d.ok && d.result is Some ==> reported_message(
            token,
            answer,
        ) == Ok::<Message, Seq<char>>(answer->Answer_0.result->0),
        !(answer matches Exchange::Answer(d) && d.ok && d.result is Some) ==> reported_message(
            token,
            answer,
        ) is Err,
{
}

/// The request that deletes a message names the channel and the message, and
/// nothing else.
pub proof fn deletions_name_the_message(
    token: Seq<char>,
    chat: Seq<char>,
    message_id: i64,
    timeout_secs: Option<u64>,
)
    ensures
        delete_request(token, chat, message_id, timeout_secs).params.len() == 2,
        delete_request(token, chat, message_id, timeout_secs).params.contains(
            ("chat_id"@, ParamView::Text(chat)),
        ),
        delete_request(token, chat, message_id, timeout_secs).params.contains(
            ("message_id"@, ParamView::Number(message_id)),
        ),
        delete_request(token, chat, message_id, timeout_secs).url
            == "https://api.telegram.org/bot"@ + token + "/"@ + "deleteMessage"@,
        delete_request(token, chat, message_id, timeout_secs).timeout_secs == timeout_secs,
{
    let ps = delete_request(token, chat, message_id, timeout_secs).params;
    assert(ps[0] == ("chat_id"@, ParamView::Text(chat)));
    assert(ps[1] == ("message_id"@, ParamView::Number(message_id)));
}

/// Without a token there is nothing to hide.
pub proof fn without_a_token_nothing_is_hidden(text: Seq<char>)
    ensures
        redacted(text, Seq::empty()) == text,
{
}

/// What goes wrong when a document is posted is told without the token: the
/// text of the failure, or the word of Telegram.
pub proof fn failed_posts_are_told_without_the_token(
    token: Seq<char>,
    answer: Exchange<TelegramResponse<Message>>,
)
    ensures
        answer matches Exchange::Failed(e) ==> reported_message(token, answer) == Err::<
            Message,
            Seq<char>,
        >(redacted(e@, token)),
        answer matches Exchange::Unreadable(e) ==> reported_message(token, answer) == Err::<
            Message,
            Seq<char>,
        >(redacted(e@, token)),
        answer matches Exchange::Answer(d) && !d.ok && d.description is Some ==> reported_message(
            token,
            answer,
        ) == Err::<Message, Seq<char>>(
            "sendDocument error: "@ + answer->Answer_0.description->0@,
        ),
        answer matches Exchange::Answer(d) && !d.ok && d.description is None ==> reported_message(
            token,
            answer,
        ) == Err::<Message, Seq<char>>("sendDocument error: "@),
        answer matches Exchange::Answer(d) && d.ok && d.result is None ==> reported_message(
            token,
            answer,
        ) == Err::<Message, Seq<char>>("No result in response"@),
{
    let none = Seq::<char>::empty();
    assert("sendDocument error: "@ + none =~= "sendDocument error: "@);
}

/// The message of an identifier is the number before its first colon,
/// whatever follows; it is none if no number of 64 bits stands there.
pub proof fn messages_are_numbers_before_the_colon(head: Seq<char>, tail: Seq<char>)
    requires
        !head.contains(':'),
    ensures
        number(head, true) matches Some(n) && -0x8000_0000_0000_0000 <= n
            <= 0x7fff_ffff_ffff_ffff ==> message_of(head + seq![':'] + tail) == Some(
            number(head, true)->0 as i64,
        ),
        !(number(head, true) matches Some(n) && -0x8000_0000_0000_0000 <= n
            <= 0x7fff_ffff_ffff_ffff) ==> message_of(head + seq![':'] + tail) is None,
{
    parts_around_a_character(head, ':', tail);
}

/// `r` is what the identifier `s` names, or what is wrong with it.
pub open spec fn parses_as(s: Seq<char>, r: Result<(i64, String), CompositeIdError>) -> bool {
    match r {
        Ok((m, f)) => s.contains(':') && message_of(s) == Some(m) && f@ == behind(s, ':'),
        Err(CompositeIdError::Format) => !s.contains(':'),
        Err(CompositeIdError::MessageId) => s.contains(':') && message_of(s) is None,
    }
}

/// An identifier names the message before its first colon and the file behind
/// it, colons of the file included. Without a colon it has no form, and without
/// a number of 64 bits before it no message.
pub proof fn identifiers_name_message_and_file(
    head: Seq<char>,
    tail: Seq<char>,
    r: Result<(i64, String), CompositeIdError>,
    lone: Result<(i64, String), CompositeIdError>,
)
    requires
        !head.contains(':'),
        parses_as(head + seq![':'] + tail, r),
        parses_as(head, lone),
    ensures
        number(head, true) matches Some(n) && -0x8000_0000_0000_0000 <= n
            <= 0x7fff_ffff_ffff_ffff ==> (r matches Ok((m, f)) && Some(m as int) == number(
            head,
            true,
        ) && f@ == tail),
        !(number(head, true) matches Some(n) && -0x8000_0000_0000_0000 <= n
            <= 0x7fff_ffff_ffff_ffff) ==> r matches Err(CompositeIdError::MessageId),
        lone matches Err(CompositeIdError::Format),
{
    parts_around_a_character(head, ':', tail);
    messages_are_numbers_before_the_colon(head, tail);
    let s = head + seq![':'] + tail;
    assert(s[head.len() as int] == ':');
}

/// Whether a message is gone, by the fields of the answer, if one came.
pub open spec fn deletion_by(
    fields: Option<(Option<bool>, Option<Seq<char>>, Option<Seq<char>>, Option<i64>)>,
) -> (bool, Seq<char>) {
    match fields {
        Some(f) => deletion(f.0, f.1),
        None => deletion(None, None),
    }
}

/// Without an answer that can be read, a message is not gone. With one, the
/// word of Telegram counts, and not whose message it was.
pub proof fn unanswered_deletions_are_errors(
    ok: Option<bool>,
    description: Option<Seq<char>>,
    username: Option<Seq<char>>,
    message_id: Option<i64>,
)
    ensures
        deletion_by(None) == (false, "error"@),
        deletion_by(Some((ok, description, username, message_id))).0 <==> ok == Some(true) || (
        description matches Some(d) && holds(d, "not found"@)),
        deletion_by(Some((ok, description, username, message_id))).1 == if ok == Some(true) {
            "deleted"@
        } else if description is Some && holds(description->0, "not found"@) {
            "not_found"@
        } else {
            "error"@
        },
{
    messages_are_gone_only_by_word_of_telegram(ok, description);
    messages_are_gone_only_by_word_of_telegram(None, None);
}

} // verus!

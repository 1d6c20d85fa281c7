//! Uploads: a file that arrives in pieces is sent to the channel, whole if it
//! is small, else in chunks with a manifest behind them.
//!
//! An `Upload` takes what happens and says what to do next. It holds at most
//! about one chunk of the file at a time.
use vstd::prelude::*;
use vstd::string::*;
use vstd::utf8::*;

use crate::config::AppSettingsMap;
use crate::config::setting;
use crate::constants::TELEGRAM_CHUNK_FILENAME_MARKER;
use crate::constants::TELEGRAM_CHUNK_SIZE;
use crate::decimal::decimal;
use crate::decimal::decimal_u64;
use crate::error::HttpError;
use crate::error::http_error;
use crate::error::refusal;
use crate::filename::good_names_are_kept;
use crate::filename::is_control;
use crate::filename::nameless_files_are_uploads;
use crate::filename::safe_name;
use crate::filename::sanitize_filename;
use crate::filename::sanitized_names_are_safe;
use crate::filename::slashes_behind_a_path_do_not_count;
use crate::outside::buffer_bytes;
use crate::outside::buffer_to_vec;
use crate::telegram::bot_polling::skipped;
use crate::telegram::manifest::build_manifest;
use crate::telegram::manifest::is_line;
use crate::telegram::manifest::is_manifest_body;
use crate::telegram::manifest::manifest_reads_back;
use crate::telegram::manifest::manifest_text;
use crate::telegram::service::TelegramService;
use crate::telegram::service::composite_id;
use crate::telegram::service::composite_text;
use crate::text::join;
use crate::text::join3;
use crate::text::lines_from;
use crate::text::occurs_at;
use crate::text::opt_str_view;
use crate::text::opt_view;
use crate::text::or_empty;
use crate::text::same;
use crate::text::views;

verus! {

/// What an upload waits for.
#[derive(Debug, Clone, Copy, PartialEq, Eq, Structural)]
pub enum UploadPhase {
    /// More of the file, or its end.
    Reading,
    /// That a full chunk is posted.
    Chunk,
    /// That the whole file is posted.
    Single,
    /// That the last chunk is posted.
    LastChunk,
    /// That the manifest is posted.
    Manifest,
    /// Nothing.
    Done,
}

/// What to do next for an upload.
#[derive(Debug)]
pub enum UploadAction {
    /// Read more of the file.
    Read,
    /// Post these bytes as a document.
    Send { data: Vec<u8>, name: String, reply_to: Option<i64> },
    /// Add the file to the index.
    Store { file_id: String, size: i64 },
    /// Give up.
    Fail { reason: String },
}

/// What an `UploadAction` says.
pub enum UploadActionView {
    Read,
    Send { data: Seq<u8>, name: Seq<char>, reply_to: Option<i64> },
    Store { file_id: Seq<char>, size: int },
    Fail { reason: Seq<char> },
}

impl View for UploadAction {
    type V = UploadActionView;

    open spec fn view(&self) -> UploadActionView {
        match self {
            UploadAction::Read => UploadActionView::Read,
            UploadAction::Send { data, name, reply_to } => UploadActionView::Send {
                data: data@,
                name: name@,
                reply_to: *reply_to,
            },
            UploadAction::Store { file_id, size } => UploadActionView::Store {
                file_id: file_id@,
                size: *size as int,
            },
            UploadAction::Fail { reason } => UploadActionView::Fail { reason: reason@ },
        }
    }
}

/// The state of an upload, with what was received and what was sent of the
/// file so far.
#[verifier::ext_equal]
pub struct UploadModel {
    pub filename: Seq<char>,
    pub phase: UploadPhase,
    /// What was received and not yet sent.
    pub buffer: Seq<u8>,
    /// The number of bytes received.
    pub total: int,
    /// The identifiers of the chunks that were posted.
    pub ids: Seq<Seq<char>>,
    /// The message of the first chunk.
    pub first: Option<i64>,
    /// The number of chunks sent.
    pub num: int,
    /// All bytes received.
    pub received: Seq<u8>,
    /// The pieces of the file that were sent, in order.
    pub sent: Seq<Seq<u8>>,
}

/// The pieces, one after the other.
pub open spec fn joined(pieces: Seq<Seq<u8>>) -> Seq<u8>
    decreases pieces.len(),
{
    if pieces.len() == 0 {
        Seq::empty()
    } else {
        joined(pieces.drop_last()) + pieces.last()
    }
}

/// The most bytes that an upload takes: as many as fit in memory and in as
/// many chunks as can be counted.
pub open spec fn upload_limit() -> int {
    if isize::MAX <= u32::MAX * TELEGRAM_CHUNK_SIZE {
        isize::MAX as int
    } else {
        u32::MAX * TELEGRAM_CHUNK_SIZE
    }
}

/// The name of the `n`th chunk.
pub open spec fn chunk_name(filename: Seq<char>, n: nat) -> Seq<char> {
    filename + TELEGRAM_CHUNK_FILENAME_MARKER@ + decimal(n)
}

/// The name of the manifest.
pub open spec fn manifest_name(filename: Seq<char>) -> Seq<char> {
    filename + ".manifest"@
}

impl UploadModel {
    /// The pieces sent so far and the buffer are what was received.
    pub open spec fn keeps_bytes(self) -> bool {
        &&& joined(self.sent) + self.buffer == self.received
        &&& self.total == self.received.len()
        &&& self.total <= upload_limit()
    }

    /// The first `n` pieces sent are full chunks.
    pub open spec fn full_chunks(self, n: int) -> bool {
        forall|i: int| 0 <= i < n ==> (#[trigger] self.sent[i]).len() == TELEGRAM_CHUNK_SIZE
    }

    /// All chunks sent are full and posted.
    pub open spec fn between_chunks(self) -> bool {
        &&& self.keeps_bytes()
        &&& self.num == self.sent.len()
        &&& self.ids.len() == self.num
        &&& self.full_chunks(self.num)
        &&& self.first is Some <==> self.num > 0
    }

    /// The last piece sent is a chunk, full or not, and not empty.
    pub open spec fn last_chunk_fits(self) -> bool {
        &&& self.full_chunks(self.num - 1)
        &&& 0 < self.sent.last().len() <= TELEGRAM_CHUNK_SIZE
    }

    /// The state is one that an upload can be in.
    pub open spec fn wf(self) -> bool {
        match self.phase {
            UploadPhase::Reading => self.between_chunks() && self.buffer.len()
                < TELEGRAM_CHUNK_SIZE,
            UploadPhase::Chunk => {
                &&& self.keeps_bytes()
                &&& self.num == self.sent.len() > 0
                &&& self.ids.len() == self.num - 1
                &&& self.full_chunks(self.num)
                &&& self.first is Some <==> self.num > 1
            },
            UploadPhase::Single => {
                &&& self.keeps_bytes()
                &&& self.buffer.len() == 0
                &&& self.sent == seq![self.received]
                &&& 0 < self.received.len() < TELEGRAM_CHUNK_SIZE
                &&& self.num == 0
                &&& self.ids.len() == 0
                &&& self.first is None
            },
            UploadPhase::LastChunk => {
                &&& self.keeps_bytes()
                &&& self.buffer.len() == 0
                &&& self.num == self.sent.len() > 1
                &&& self.ids.len() == self.num - 1
                &&& self.last_chunk_fits()
                &&& self.first is Some
            },
            UploadPhase::Manifest => {
                &&& self.keeps_bytes()
                &&& self.buffer.len() == 0
                &&& self.num == self.sent.len() > 0
                &&& self.ids.len() == self.num
                &&& self.last_chunk_fits()
                &&& self.first is Some
            },
            UploadPhase::Done => true,
        }
    }
}

/// An upload that is over, without success.
pub open spec fn failed(m: UploadModel, reason: Seq<char>) -> (UploadModel, UploadActionView) {
    (
        UploadModel { phase: UploadPhase::Done, ..m },
        UploadActionView::Fail { reason },
    )
}

/// An upload that is over, with the file posted under `file_id`.
pub open spec fn stored(m: UploadModel, file_id: Seq<char>) -> (UploadModel, UploadActionView) {
    (
        UploadModel { phase: UploadPhase::Done, ..m },
        UploadActionView::Store { file_id, size: m.total },
    )
}

/// Sends a chunk if the buffer holds a full one, else reads on.
pub open spec fn drained(m: UploadModel) -> (UploadModel, UploadActionView) {
    if m.buffer.len() >= TELEGRAM_CHUNK_SIZE {
        let chunk = m.buffer.take(TELEGRAM_CHUNK_SIZE as int);
        (
            UploadModel {
                phase: UploadPhase::Chunk,
                buffer: m.buffer.skip(TELEGRAM_CHUNK_SIZE as int),
                num: m.num + 1,
                sent: m.sent.push(chunk),
                ..m
            },
            UploadActionView::Send {
                data: chunk,
                name: chunk_name(m.filename, (m.num + 1) as nat),
                reply_to: m.first,
            },
        )
    } else {
        (UploadModel { phase: UploadPhase::Reading, ..m }, UploadActionView::Read)
    }
}

/// Takes more of the file.
pub open spec fn after_data(m: UploadModel, bytes: Seq<u8>) -> (UploadModel, UploadActionView) {
    drained(
        UploadModel {
            buffer: m.buffer + bytes,
            total: m.total + bytes.len(),
            received: m.received + bytes,
            ..m
        },
    )
}

/// Sends the manifest.
pub open spec fn manifest_due(m: UploadModel) -> (UploadModel, UploadActionView) {
    (
        UploadModel { phase: UploadPhase::Manifest, ..m },
        UploadActionView::Send {
            data: encode_utf8(manifest_text(m.filename, m.ids)),
            name: manifest_name(m.filename),
            reply_to: m.first,
        },
    )
}

/// The file has ended. An empty file fails; one without a chunk is sent
/// whole; behind chunks go what is left of the file and the manifest.
pub open spec fn after_end(m: UploadModel) -> (UploadModel, UploadActionView) {
    if m.ids.len() == 0 {
        if m.buffer.len() == 0 {
            failed(m, "文件为空"@)
        } else {
            (
                UploadModel {
                    phase: UploadPhase::Single,
                    buffer: Seq::empty(),
                    sent: m.sent.push(m.buffer),
                    ..m
                },
                UploadActionView::Send { data: m.buffer, name: m.filename, reply_to: None },
            )
        }
    } else if m.buffer.len() > 0 {
        (
            UploadModel {
                phase: UploadPhase::LastChunk,
                buffer: Seq::empty(),
                num: m.num + 1,
                sent: m.sent.push(m.buffer),
                ..m
            },
            UploadActionView::Send {
                data: m.buffer,
                name: chunk_name(m.filename, (m.num + 1) as nat),
                reply_to: m.first,
            },
        )
    } else {
        manifest_due(m)
    }
}

/// A document was posted as `message_id`; Telegram reports it under
/// `file_id`, or reports no document.
pub open spec fn after_post(m: UploadModel, message_id: i64, file_id: Option<Seq<char>>) -> (
    UploadModel,
    UploadActionView,
) {
    match m.phase {
        UploadPhase::Chunk => {
            let n = UploadModel {
                first: if m.first is None {
                    Some(message_id)
                } else {
                    m.first
                },
                ..m
            };
            match file_id {
                Some(f) => drained(
                    UploadModel { ids: n.ids.push(composite_text(message_id as int, f)), ..n },
                ),
                None => failed(n, "No document in chunk response"@),
            }
        },
        UploadPhase::Single => match file_id {
            Some(f) => stored(m, composite_text(message_id as int, f)),
            None => failed(m, "No document in response"@),
        },
        UploadPhase::LastChunk => match file_id {
            Some(f) => manifest_due(
                UploadModel { ids: m.ids.push(composite_text(message_id as int, f)), ..m },
            ),
            None => failed(m, "No document in last chunk response"@),
        },
        UploadPhase::Manifest => match file_id {
            Some(f) => stored(m, composite_text(message_id as int, f)),
            None => failed(m, "No document in manifest response"@),
        },
        _ => (m, UploadActionView::Read),
    }
}

proof fn lemma_joined_push(pieces: Seq<Seq<u8>>, piece: Seq<u8>)
    ensures
        joined(pieces.push(piece)) == joined(pieces) + piece,
{
    assert(pieces.push(piece).drop_last() =~= pieces);
}

proof fn lemma_joined_len(pieces: Seq<Seq<u8>>, size: int)
    requires
        forall|i: int| 0 <= i < pieces.len() ==> (#[trigger] pieces[i]).len() == size,
    ensures
        joined(pieces).len() == pieces.len() * size,
    decreases pieces.len(),
{
    if pieces.len() > 0 {
        let rest = pieces.drop_last();
        assert forall|i: int| 0 <= i < rest.len() implies (#[trigger] rest[i]).len() == size by {
            assert(rest[i] == pieces[i]);
        }
        lemma_joined_len(rest, size);
        assert(pieces.last() == pieces[pieces.len() - 1]);
        assert(pieces.len() * size == rest.len() * size + size) by (nonlinear_arith)
            requires
                pieces.len() == rest.len() + 1,
        ;
    }
}

/// Another chunk can be counted as long as there is anything to send.
proof fn lemma_count_fits(m: UploadModel)
    requires
        m.between_chunks(),
        m.buffer.len() > 0,
    ensures
        m.num < u32::MAX,
{
    lemma_joined_len(m.sent, TELEGRAM_CHUNK_SIZE as int);
    assert(m.num * TELEGRAM_CHUNK_SIZE < u32::MAX * TELEGRAM_CHUNK_SIZE);
    assert(m.num < u32::MAX) by (nonlinear_arith)
        requires
            m.num * TELEGRAM_CHUNK_SIZE < u32::MAX * TELEGRAM_CHUNK_SIZE,
    ;
}

proof fn lemma_drained(m: UploadModel)
    requires
        m.between_chunks(),
    ensures
        drained(m).0.wf(),
{
    if m.buffer.len() >= TELEGRAM_CHUNK_SIZE {
        let chunk = m.buffer.take(TELEGRAM_CHUNK_SIZE as int);
        let n = drained(m).0;
        lemma_joined_push(m.sent, chunk);
        assert(joined(n.sent) + n.buffer =~= joined(m.sent) + m.buffer);
    }
}

/// A file on its way to the channel.
pub struct Upload {
    filename: String,
    phase: UploadPhase,
    buffer: bytes::BytesMut,
    total: usize,
    ids: Vec<String>,
    first: Option<i64>,
    num: u32,
    received: Ghost<Seq<u8>>,
    sent: Ghost<Seq<Seq<u8>>>,
}

impl View for Upload {
    type V = UploadModel;

    closed spec fn view(&self) -> UploadModel {
        UploadModel {
            filename: self.filename@,
            phase: self.phase,
            buffer: buffer_bytes(self.buffer),
            total: self.total as int,
            ids: views(self.ids@),
            first: self.first,
            num: self.num as int,
            received: self.received@,
            sent: self.sent@,
        }
    }
}

impl Upload {
    /// The beginning of an upload.
    pub fn start(filename: &str) -> (r: Self)
        ensures
            r@ == (UploadModel {
                filename: filename@,
                phase: UploadPhase::Reading,
                buffer: Seq::empty(),
                total: 0,
                ids: Seq::empty(),
                first: None,
                num: 0,
                received: Seq::empty(),
                sent: Seq::empty(),
            }),
            r@ == new_upload(filename@),
            r@.wf(),
    {
        let r: Upload = Upload {
            filename: String::from_str(filename),
            phase: UploadPhase::Reading,
            buffer: bytes::BytesMut::with_capacity(TELEGRAM_CHUNK_SIZE),
            total: 0,
            ids: Vec::new(),
            first: None,
            num: 0,
            received: Ghost(Seq::empty()),
            sent: Ghost(Seq::empty()),
        };
        proof {
            assert(r@.ids =~= Seq::empty());
            assert(joined(r@.sent) + r@.buffer =~= r@.received);
        }
        r
    }

    /// What the upload waits for.
    pub fn phase(&self) -> (r: UploadPhase)
        ensures
            r == self@.phase,
    {
        self.phase
    }

    /// The number of bytes received.
    pub fn total_size(&self) -> (r: usize)
        ensures
            r == self@.total,
    {
        self.total
    }

    /// Whether the upload has room for `n` more bytes.
    pub fn fits(&self, n: usize) -> (r: bool)
        ensures
            r == (self@.total + n <= upload_limit()),
    {
        let all: u128 = self.total as u128 + n as u128;
        all <= isize::MAX as u128 && all <= 4294967295u128 * TELEGRAM_CHUNK_SIZE as u128
    }

    fn drain(&mut self) -> (r: UploadAction)
        requires
            old(self)@.between_chunks(),
        ensures
            (final(self)@, r@) == drained(old(self)@),
            final(self)@.wf(),
    {
        let ghost m = self@;
        proof {
            lemma_drained(m);
        }
        if self.buffer.len() >= TELEGRAM_CHUNK_SIZE {
            proof {
                lemma_count_fits(m);
            }
            self.num = self.num + 1;
            let part: bytes::BytesMut = self.buffer.split_to(TELEGRAM_CHUNK_SIZE);
            let data: Vec<u8> = buffer_to_vec(part);
            let name: String = join3(
                self.filename.as_str(),
                TELEGRAM_CHUNK_FILENAME_MARKER,
                decimal_u64(self.num as u64).as_str(),
            );
            self.phase = UploadPhase::Chunk;
            self.sent = Ghost(self.sent@.push(data@));
            proof {
                assert(self@ =~= drained(m).0);
            }
            UploadAction::Send { data, name, reply_to: self.first }
        } else {
            self.phase = UploadPhase::Reading;
            proof {
                assert(self@ =~= drained(m).0);
            }
            UploadAction::Read
        }
    }

    /// Takes more of the file.
    pub fn receive(&mut self, bytes: &[u8]) -> (r: UploadAction)
        requires
            old(self)@.wf(),
            old(self)@.phase == UploadPhase::Reading,
            old(self)@.total + bytes@.len() <= upload_limit(),
        ensures
            (final(self)@, r@) == after_data(old(self)@, bytes@),
            final(self)@.wf(),
    {
        let ghost m = self@;
        self.buffer.extend_from_slice(bytes);
        self.total = self.total + bytes.len();
        self.received = Ghost(self.received@ + bytes@);
        proof {
            let n = UploadModel {
                buffer: m.buffer + bytes@,
                total: m.total + bytes@.len(),
                received: m.received + bytes@,
                ..m
            };
            assert(self@ =~= n);
            assert(joined(n.sent) + n.buffer =~= n.received);
            assert(n.between_chunks());
        }
        self.drain()
    }

    /// Takes the end of the file.
    pub fn end(&mut self) -> (r: UploadAction)
        requires
            old(self)@.wf(),
            old(self)@.phase == UploadPhase::Reading,
        ensures
            (final(self)@, r@) == after_end(old(self)@),
            final(self)@.wf(),
    {
        let ghost m = self@;
        let left: usize = self.buffer.len();
        if self.ids.len() == 0 {
            if left == 0 {
                self.phase = UploadPhase::Done;
                proof {
                    assert(self@ =~= after_end(m).0);
                }
                return UploadAction::Fail { reason: String::from_str("文件为空") };
            }
            let part: bytes::BytesMut = self.buffer.split_to(left);
            let data: Vec<u8> = buffer_to_vec(part);
            self.phase = UploadPhase::Single;
            self.sent = Ghost(self.sent@.push(data@));
            proof {
                assert(data@ =~= m.buffer);
                lemma_joined_push(m.sent, m.buffer);
                assert(m.sent =~= Seq::empty());
                assert(m.received =~= m.buffer);
                assert(self@ =~= after_end(m).0);
                assert(joined(self@.sent) + self@.buffer =~= self@.received);
                assert(self@.sent =~= seq![self@.received]);
            }
            let name: String = String::from_str(self.filename.as_str());
            return UploadAction::Send { data, name, reply_to: None };
        }
        if left > 0 {
            proof {
                lemma_count_fits(m);
            }
            self.num = self.num + 1;
            let part: bytes::BytesMut = self.buffer.split_to(left);
            let data: Vec<u8> = buffer_to_vec(part);
            let name: String = join3(
                self.filename.as_str(),
                TELEGRAM_CHUNK_FILENAME_MARKER,
                decimal_u64(self.num as u64).as_str(),
            );
            self.phase = UploadPhase::LastChunk;
            self.sent = Ghost(self.sent@.push(data@));
            proof {
                assert(data@ =~= m.buffer);
                lemma_joined_push(m.sent, m.buffer);
                assert(self@ =~= after_end(m).0);
                assert(joined(self@.sent) + self@.buffer =~= self@.received);
                assert forall|i: int| 0 <= i < m.num implies (#[trigger] self@.sent[i]).len()
                    == TELEGRAM_CHUNK_SIZE by {
                    assert(self@.sent[i] == m.sent[i]);
                }
            }
            UploadAction::Send { data, name, reply_to: self.first }
        } else {
            proof {
                assert(m.sent[m.num - 1].len() == TELEGRAM_CHUNK_SIZE);
            }
            self.send_manifest()
        }
    }

    fn send_manifest(&mut self) -> (r: UploadAction)
        requires
            (UploadModel { phase: UploadPhase::Manifest, ..old(self)@ }).wf(),
        ensures
            (final(self)@, r@) == manifest_due(old(self)@),
            final(self)@.wf(),
    {
        let ghost m = self@;
        self.phase = UploadPhase::Manifest;
        let manifest: String = build_manifest(self.filename.as_str(), &self.ids);
        let data: Vec<u8> = manifest.into_bytes();
        let name: String = join(self.filename.as_str(), ".manifest");
        proof {
            assert(self@ =~= manifest_due(m).0);
        }
        UploadAction::Send { data, name, reply_to: self.first }
    }

    /// Takes the message that a document was posted as, with Telegram's
    /// identifier of the document if the message has one.
    pub fn posted(&mut self, message_id: i64, file_id: Option<String>) -> (r: UploadAction)
        requires
            old(self)@.wf(),
            old(self)@.phase != UploadPhase::Reading,
            old(self)@.phase != UploadPhase::Done,
        ensures
            (final(self)@, r@) == after_post(old(self)@, message_id, opt_view(file_id)),
            final(self)@.wf(),
    {
        let ghost m = self@;
        match self.phase {
            UploadPhase::Chunk => {
                if self.first.is_none() {
                    self.first = Some(message_id);
                }
                match file_id {
                    Some(f) => {
                        let id: String = composite_id(message_id, f.as_str());
                        let ghost was = self@;
                        self.ids.push(id);
                        proof {
                            assert(self@.ids =~= was.ids.push(id@));
                            assert(self@.between_chunks());
                        }
                        self.drain()
                    },
                    None => self.give_up("No document in chunk response"),
                }
            },
            UploadPhase::LastChunk => match file_id {
                Some(f) => {
                    let id: String = composite_id(message_id, f.as_str());
                    self.ids.push(id);
                    proof {
                        assert(self@.ids =~= m.ids.push(id@));
                    }
                    self.send_manifest()
                },
                None => self.give_up("No document in last chunk response"),
            },
            UploadPhase::Single => match file_id {
                Some(f) => self.store(message_id, f.as_str()),
                None => self.give_up("No document in response"),
            },
            _ => match file_id {
                Some(f) => self.store(message_id, f.as_str()),
                None => self.give_up("No document in manifest response"),
            },
        }
    }

    fn store(&mut self, message_id: i64, file_id: &str) -> (r: UploadAction)
        requires
            old(self)@.total <= isize::MAX,
        ensures
            (final(self)@, r@) == stored(
                old(self)@,
                composite_text(message_id as int, file_id@),
            ),
            final(self)@.wf(),
    {
        let ghost m = self@;
        self.phase = UploadPhase::Done;
        proof {
            assert(self@ =~= (UploadModel { phase: UploadPhase::Done, ..m }));
        }
        UploadAction::Store { file_id: composite_id(message_id, file_id), size: self.total as i64 }
    }

    fn give_up(&mut self, reason: &str) -> (r: UploadAction)
        ensures
            (final(self)@, r@) == failed(old(self)@, reason@),
            final(self)@.wf(),
    {
        let ghost m = self@;
        self.phase = UploadPhase::Done;
        proof {
            assert(self@ =~= (UploadModel { phase: UploadPhase::Done, ..m }));
        }
        UploadAction::Fail { reason: String::from_str(reason) }
    }
}

/// No byte is lost or sent twice: when the manifest of a large upload is
/// sent, the chunks sent are the file, in order; there is an identifier for
/// each; all but the last are full, and the last is neither empty nor larger.
pub proof fn chunks_make_up_the_file(m: UploadModel)
    requires
        m.wf(),
        m.phase == UploadPhase::Manifest,
    ensures
        joined(m.sent) == m.received,
        m.ids.len() == m.sent.len() > 0,
        forall|i: int|
            0 <= i < m.sent.len() - 1 ==> (#[trigger] m.sent[i]).len() == TELEGRAM_CHUNK_SIZE,
        0 < m.sent.last().len() <= TELEGRAM_CHUNK_SIZE,
{
    assert(joined(m.sent) =~= m.received);
}

/// A file below the chunk size is sent whole, in one piece.
pub proof fn small_files_are_sent_whole(m: UploadModel)
    requires
        m.wf(),
        m.phase == UploadPhase::Single,
    ensures
        m.sent == seq![m.received],
        0 < m.received.len() < TELEGRAM_CHUNK_SIZE,
{
}

/// What is added to the index is the file: all bytes received were sent, and
/// the size noted is their number.
pub proof fn stored_files_are_complete(m: UploadModel, message_id: i64, file_id: Option<Seq<char>>)
    requires
        m.wf(),
        after_post(m, message_id, file_id).1 is Store,
    ensures
        joined(m.sent) == m.received,
        after_post(m, message_id, file_id).1->size == m.received.len(),
{
    assert(joined(m.sent) + m.buffer =~= m.received);
    assert(joined(m.sent) =~= m.received);
}

/// What happens to an upload: more of the file comes, the file ends, or a
/// document that was sent is posted.
pub enum UploadEvent {
    Data(Seq<u8>),
    End,
    Posted { message_id: i64, file_id: Option<Seq<char>> },
}

/// An upload takes an event.
pub open spec fn upload_step(m: UploadModel, event: UploadEvent) -> (UploadModel, UploadActionView) {
    match event {
        UploadEvent::Data(bytes) => after_data(m, bytes),
        UploadEvent::End => after_end(m),
        UploadEvent::Posted { message_id, file_id } => after_post(m, message_id, file_id),
    }
}

/// The event is one that the upload waits for.
pub open spec fn upload_awaits(m: UploadModel, event: UploadEvent) -> bool {
    match event {
        UploadEvent::Posted { .. } => m.phase != UploadPhase::Reading && m.phase
            != UploadPhase::Done,
        _ => m.phase == UploadPhase::Reading,
    }
}

/// An upload that has just begun.
pub open spec fn new_upload(filename: Seq<char>) -> UploadModel {
    UploadModel {
        filename,
        phase: UploadPhase::Reading,
        buffer: Seq::empty(),
        total: 0,
        ids: Seq::empty(),
        first: None,
        num: 0,
        received: Seq::empty(),
        sent: Seq::empty(),
    }
}

/// The state of the upload of a file after a row of events.
pub open spec fn upload_after(filename: Seq<char>, events: Seq<UploadEvent>) -> UploadModel
    decreases events.len(),
{
    if events.len() == 0 {
        new_upload(filename)
    } else {
        upload_step(upload_after(filename, events.drop_last()), events.last()).0
    }
}

/// Every event of the row is one that the upload waits for.
pub open spec fn upload_awaits_all(filename: Seq<char>, events: Seq<UploadEvent>) -> bool
    decreases events.len(),
{
    events.len() == 0 || {
        &&& upload_awaits_all(filename, events.drop_last())
        &&& upload_awaits(upload_after(filename, events.drop_last()), events.last())
    }
}

/// A document that is sent: its bytes, its name, and the message that it
/// replies to.
pub struct SentDocument {
    pub data: Seq<u8>,
    pub name: Seq<char>,
    pub reply_to: Option<i64>,
}

/// The documents that were sent in the course of the events, in order.
pub open spec fn documents_sent(filename: Seq<char>, events: Seq<UploadEvent>) -> Seq<SentDocument>
    decreases events.len(),
{
    if events.len() == 0 {
        Seq::empty()
    } else {
        let rest = events.drop_last();
        match upload_step(upload_after(filename, rest), events.last()).1 {
            UploadActionView::Send { data, name, reply_to } => documents_sent(filename, rest).push(
                SentDocument { data, name, reply_to },
            ),
            _ => documents_sent(filename, rest),
        }
    }
}

/// The bytes of the file that came in the course of the events.
pub open spec fn file_bytes(events: Seq<UploadEvent>) -> Seq<u8>
    decreases events.len(),
{
    if events.len() == 0 {
        Seq::empty()
    } else {
        match events.last() {
            UploadEvent::Data(bytes) => file_bytes(events.drop_last()) + bytes,
            _ => file_bytes(events.drop_last()),
        }
    }
}

/// The posts that were reported in the course of the events, in order: each
/// with its message and, if it has one, its document.
pub open spec fn posts(events: Seq<UploadEvent>) -> Seq<(i64, Option<Seq<char>>)>
    decreases events.len(),
{
    if events.len() == 0 {
        Seq::empty()
    } else {
        match events.last() {
            UploadEvent::Posted { message_id, file_id } => posts(events.drop_last()).push(
                (message_id, file_id),
            ),
            _ => posts(events.drop_last()),
        }
    }
}

/// The bytes of documents.
pub open spec fn document_bytes(ds: Seq<SentDocument>) -> Seq<Seq<u8>> {
    ds.map_values(|d: SentDocument| d.data)
}

/// The first `n` documents are chunks of the file, counted from one, each but
/// the first in reply to the first, and the posts of the first `k` of them
/// have a document.
spec fn are_chunks(
    filename: Seq<char>,
    ds: Seq<SentDocument>,
    ps: Seq<(i64, Option<Seq<char>>)>,
    n: int,
    k: int,
) -> bool {
    &&& forall|i: int|
        0 <= i < n ==> (#[trigger] ds[i]).name == filename + ".tgstate-part"@ + decimal(
            (i + 1) as nat,
        )
    &&& forall|i: int|
        0 <= i < n ==> (#[trigger] ds[i]).reply_to == if i == 0 {
            None
        } else {
            Some(ps[0].0)
        }
    &&& forall|i: int| 0 <= i < k ==> (#[trigger] ps[i]).1 is Some
}

/// The identifiers are those of the posts, in order.
spec fn ids_of_posts(ids: Seq<Seq<char>>, ps: Seq<(i64, Option<Seq<char>>)>) -> bool {
    &&& ids.len() == ps.len()
    &&& forall|i: int|
        0 <= i < ids.len() ==> #[trigger] ids[i] == composite_text(ps[i].0 as int, ps[i].1->0)
}

/// The first `n` documents are full chunks.
spec fn full_documents(ds: Seq<SentDocument>, n: int) -> bool {
    forall|i: int| 0 <= i < n ==> (#[trigger] ds[i]).data.len() == 20_447_232
}

/// The chunks sent are full and posted.
spec fn chunks_tally(
    m: UploadModel,
    filename: Seq<char>,
    ds: Seq<SentDocument>,
    ps: Seq<(i64, Option<Seq<char>>)>,
    bytes: Seq<u8>,
) -> bool {
    &&& m.filename == filename
    &&& m.received == bytes
    &&& m.total == bytes.len()
    &&& ds.len() == ps.len() == m.num
    &&& full_documents(ds, ds.len() as int)
    &&& are_chunks(filename, ds, ps, ds.len() as int, ps.len() as int)
    &&& ids_of_posts(m.ids, ps)
    &&& m.sent == document_bytes(ds)
    &&& joined(m.sent) + m.buffer == bytes
    &&& m.first == if ps.len() == 0 {
        None
    } else {
        Some(ps[0].0)
    }
}

/// The state of an upload, held against what came and what was sent.
spec fn upload_tallies(
    m: UploadModel,
    filename: Seq<char>,
    ds: Seq<SentDocument>,
    ps: Seq<(i64, Option<Seq<char>>)>,
    bytes: Seq<u8>,
) -> bool {
    &&& m.filename == filename
    &&& m.received == bytes
    &&& m.total == bytes.len()
    &&& m.sent.len() <= ds.len()
    &&& match m.phase {
        UploadPhase::Done => true,
        UploadPhase::Single => {
            &&& ds.len() == 1
            &&& ps.len() == 0
            &&& ds[0].data == bytes
            &&& ds[0].name == filename
            &&& ds[0].reply_to is None
            &&& m.sent == seq![bytes]
            &&& 0 < bytes.len() < 20_447_232
        },
        UploadPhase::Reading => {
            &&& chunks_tally(m, filename, ds, ps, bytes)
            &&& m.buffer.len() < 20_447_232
        },
        UploadPhase::Chunk | UploadPhase::LastChunk => {
            &&& ds.len() == ps.len() + 1 == m.num
            &&& are_chunks(filename, ds, ps, ds.len() as int, ps.len() as int)
            &&& ids_of_posts(m.ids, ps)
            &&& m.sent == document_bytes(ds)
            &&& joined(m.sent) + m.buffer == bytes
            &&& m.phase == UploadPhase::LastChunk ==> m.buffer.len() == 0 && ps.len() > 0
            &&& full_documents(
                ds,
                if m.phase == UploadPhase::Chunk {
                    ds.len() as int
                } else {
                    ds.len() - 1
                },
            )
            &&& 0 < ds.last().data.len() <= 20_447_232
            &&& m.first == if ps.len() == 0 {
                None
            } else {
                Some(ps[0].0)
            }
        },
        UploadPhase::Manifest => {
            &&& ds.len() == ps.len() + 1
            &&& ps.len() > 0
            &&& are_chunks(filename, ds, ps, ds.len() - 1, ps.len() as int)
            &&& ids_of_posts(m.ids, ps)
            &&& full_documents(ds, ds.len() - 2)
            &&& 0 < ds[ds.len() - 2].data.len() <= 20_447_232
            &&& m.sent == document_bytes(ds.drop_last())
            &&& joined(m.sent) == bytes
            &&& ds.last() == (SentDocument {
                data: encode_utf8(manifest_text(filename, m.ids)),
                name: filename + ".manifest"@,
                reply_to: Some(ps[0].0),
            })
        },
    }
}

proof fn lemma_upload_tallies(filename: Seq<char>, events: Seq<UploadEvent>)
    requires
        upload_awaits_all(filename, events),
    ensures
        upload_tallies(
            upload_after(filename, events),
            filename,
            documents_sent(filename, events),
            posts(events),
            file_bytes(events),
        ),
    decreases events.len(),
{
    if events.len() == 0 {
        let m = new_upload(filename);
        assert(m.sent =~= document_bytes(Seq::empty()));
        assert(joined(m.sent) + m.buffer =~= Seq::<u8>::empty());
    } else {
        let rest = events.drop_last();
        lemma_upload_tallies(filename, rest);
        let m = upload_after(filename, rest);
        let ds = documents_sent(filename, rest);
        let ps = posts(rest);
        match events.last() {
            UploadEvent::Data(bytes) => {
                let n = UploadModel {
                    buffer: m.buffer + bytes,
                    total: m.total + bytes.len(),
                    received: m.received + bytes,
                    ..m
                };
                assert(joined(n.sent) + n.buffer =~= (joined(m.sent) + m.buffer) + bytes);
                lemma_drain_tallies(n, filename, ds, ps, file_bytes(events));
            },
            UploadEvent::End => {
                lemma_end_tallies(m, filename, ds, ps, file_bytes(events));
            },
            UploadEvent::Posted { message_id, file_id } => {
                lemma_post_tallies(m, filename, ds, ps, file_bytes(events), message_id, file_id);
            },
        }
    }
}

proof fn lemma_document_bytes(ds: Seq<SentDocument>, d: SentDocument)
    ensures
        document_bytes(ds.push(d)) == document_bytes(ds).push(d.data),
        ds.push(d).drop_last() == ds,
{
    assert(document_bytes(ds.push(d)) =~= document_bytes(ds).push(d.data));
    assert(ds.push(d).drop_last() =~= ds);
}

spec fn documents_after(ds: Seq<SentDocument>, a: UploadActionView) -> Seq<SentDocument> {
    match a {
        UploadActionView::Send { data, name, reply_to } => ds.push(
            SentDocument { data, name, reply_to },
        ),
        _ => ds,
    }
}

proof fn lemma_drain_tallies(
    m: UploadModel,
    filename: Seq<char>,
    ds: Seq<SentDocument>,
    ps: Seq<(i64, Option<Seq<char>>)>,
    bytes: Seq<u8>,
)
    requires
        chunks_tally(m, filename, ds, ps, bytes),
    ensures
        upload_tallies(drained(m).0, filename, documents_after(ds, drained(m).1), ps, bytes),
{
    if m.buffer.len() >= TELEGRAM_CHUNK_SIZE {
        let chunk = m.buffer.take(TELEGRAM_CHUNK_SIZE as int);
        let n = drained(m).0;
        let all = documents_after(ds, drained(m).1);
        lemma_document_bytes(ds, all.last());
        lemma_joined_push(m.sent, chunk);
        assert(joined(n.sent) + n.buffer =~= joined(m.sent) + m.buffer);
        assert forall|i: int| 0 <= i < ds.len() implies #[trigger] all[i] == ds[i] by {}
    }
}

proof fn lemma_end_tallies(
    m: UploadModel,
    filename: Seq<char>,
    ds: Seq<SentDocument>,
    ps: Seq<(i64, Option<Seq<char>>)>,
    bytes: Seq<u8>,
)
    requires
        m.phase == UploadPhase::Reading,
        upload_tallies(m, filename, ds, ps, bytes),
    ensures
        upload_tallies(after_end(m).0, filename, documents_after(ds, after_end(m).1), ps, bytes),
{
    let all = documents_after(ds, after_end(m).1);
    let n = after_end(m).0;
    if m.ids.len() == 0 {
        if m.buffer.len() > 0 {
            assert(m.sent =~= Seq::empty());
            assert(m.buffer =~= bytes);
            assert(n.sent =~= seq![bytes]);
            assert(all =~= seq![all[0]]);
        }
    } else if m.buffer.len() > 0 {
        lemma_document_bytes(ds, all.last());
        lemma_joined_push(m.sent, m.buffer);
        assert(joined(n.sent) + n.buffer =~= joined(m.sent) + m.buffer);
        assert forall|i: int| 0 <= i < ds.len() implies #[trigger] all[i] == ds[i] by {}
    } else {
        lemma_document_bytes(ds, all.last());
        assert(joined(m.sent) =~= joined(m.sent) + m.buffer);
        assert forall|i: int| 0 <= i < ds.len() implies #[trigger] all[i] == ds[i] by {}
    }
}

proof fn lemma_post_tallies(
    m: UploadModel,
    filename: Seq<char>,
    ds: Seq<SentDocument>,
    ps: Seq<(i64, Option<Seq<char>>)>,
    bytes: Seq<u8>,
    message_id: i64,
    file_id: Option<Seq<char>>,
)
    requires
        m.phase != UploadPhase::Reading,
        m.phase != UploadPhase::Done,
        upload_tallies(m, filename, ds, ps, bytes),
    ensures
        ({
            let end = after_post(m, message_id, file_id);
            upload_tallies(
                end.0,
                filename,
                documents_after(ds, end.1),
                ps.push((message_id, file_id)),
                bytes,
            )
        }),
{
    let qs = ps.push((message_id, file_id));
    let end = after_post(m, message_id, file_id);
    assert forall|i: int| 0 <= i < ps.len() implies #[trigger] qs[i] == ps[i] by {}
    if file_id is Some && (m.phase == UploadPhase::Chunk || m.phase == UploadPhase::LastChunk) {
        let n = UploadModel {
            ids: m.ids.push(composite_text(message_id as int, file_id->0)),
            first: if m.phase == UploadPhase::Chunk && m.first is None {
                Some(message_id)
            } else {
                m.first
            },
            ..m
        };
        assert(ids_of_posts(n.ids, qs)) by {
            assert forall|i: int| 0 <= i < n.ids.len() implies #[trigger] n.ids[i]
                == composite_text(qs[i].0 as int, qs[i].1->0) by {
                if i < m.ids.len() {
                    assert(n.ids[i] == m.ids[i]);
                }
            }
        }
        assert(are_chunks(filename, ds, qs, ds.len() as int, qs.len() as int)) by {
            assert forall|i: int| 0 <= i < ds.len() implies (#[trigger] ds[i]).reply_to == if i
                == 0 {
                None
            } else {
                Some(qs[0].0)
            } by {}
        }
        if m.phase == UploadPhase::Chunk {
            lemma_drain_tallies(n, filename, ds, qs, bytes);
        } else {
            let all = documents_after(ds, end.1);
            lemma_document_bytes(ds, all.last());
            assert(joined(m.sent) =~= joined(m.sent) + m.buffer);
            assert forall|i: int| 0 <= i < ds.len() implies #[trigger] all[i] == ds[i] by {}
        }
    }
}

/// The manifest of a large upload describes the file, whatever its size and
/// however it arrived. When it is sent, the documents before it are the file
/// from its first byte to its last, in order, each named after its place and
/// in reply to the first; and the `i`th chunk line is the message and the
/// document that the `i`th of these came back as. So who downloads the lines
/// in order has the file.
pub proof fn manifests_describe_the_file(filename: Seq<char>, events: Seq<UploadEvent>)
    requires
        upload_awaits_all(filename, events),
        upload_after(filename, events).phase == UploadPhase::Manifest,
    ensures
        ({
            let ds = documents_sent(filename, events);
            let ps = posts(events);
            let n = ps.len() as int;
            let ids = Seq::new(ps.len(), |i: int| composite_text(ps[i].0 as int, ps[i].1->0));
            &&& ds.len() == n + 1
            &&& n > 0
            &&& joined(document_bytes(ds.take(n))) == file_bytes(events)
            &&& forall|i: int|
                0 <= i < n ==> (#[trigger] ds[i]).name == filename + ".tgstate-part"@ + decimal(
                    (i + 1) as nat,
                )
            &&& forall|i: int| 0 < i <= n ==> (#[trigger] ds[i]).reply_to == Some(ps[0].0)
            &&& ds[0].reply_to is None
            &&& forall|i: int| 0 <= i < n ==> (#[trigger] ps[i]).1 is Some
            &&& forall|i: int| 0 <= i < n - 1 ==> (#[trigger] ds[i]).data.len() == 20_447_232
            &&& 0 < ds[n - 1].data.len() <= 20_447_232
            &&& ds[n].data == encode_utf8(manifest_text(filename, ids))
            &&& ds[n].name == filename + ".manifest"@
        }),
{
    lemma_upload_tallies(filename, events);
    let m = upload_after(filename, events);
    let ds = documents_sent(filename, events);
    let ps = posts(events);
    let ids = Seq::new(ps.len(), |i: int| composite_text(ps[i].0 as int, ps[i].1->0));
    assert(m.ids =~= ids);
    assert(ds.take(ps.len() as int) =~= ds.drop_last());
    assert(ds.last() == ds[ps.len() as int]);
}

/// What is added to the index is the document that was posted last, with the
/// number of bytes that came. That document is the file itself, sent whole
/// under its own name, or the manifest behind its chunks.
pub proof fn the_last_document_is_stored(
    filename: Seq<char>,
    events: Seq<UploadEvent>,
    last: UploadEvent,
)
    requires
        upload_awaits_all(filename, events.push(last)),
        upload_step(upload_after(filename, events), last).1 is Store,
    ensures
        ({
            let ps = posts(events.push(last));
            let ds = documents_sent(filename, events);
            let stored = upload_step(upload_after(filename, events), last).1;
            &&& ps.len() == ds.len() > 0
            &&& ps.last().1 is Some
            &&& stored->file_id == composite_text(ps.last().0 as int, ps.last().1->0)
            &&& stored->size == file_bytes(events).len()
            &&& if file_bytes(events).len() < 20_447_232 {
                &&& ds.len() == 1
                &&& ds[0].data == file_bytes(events)
                &&& ds[0].name == filename
                &&& ds[0].reply_to is None
            } else {
                &&& upload_after(filename, events).phase == UploadPhase::Manifest
                &&& ds.last().name == filename + ".manifest"@
            }
        }),
{
    let all = events.push(last);
    assert(all.drop_last() =~= events);
    lemma_upload_tallies(filename, events);
    let m = upload_after(filename, events);
    let ds = documents_sent(filename, events);
    if m.phase == UploadPhase::Manifest {
        let ps = posts(events);
        assert(ids_of_posts(m.ids, ps));
        lemma_large(filename, events);
    }
}

/// A file that goes in chunks has at least the size of one.
proof fn lemma_large(filename: Seq<char>, events: Seq<UploadEvent>)
    requires
        upload_awaits_all(filename, events),
    ensures
        ({
            let m = upload_after(filename, events);
            m.phase != UploadPhase::Done && (m.ids.len() > 0 || m.phase == UploadPhase::Chunk)
                ==> file_bytes(events).len() >= 20_447_232
        }),
{
    lemma_upload_tallies(filename, events);
    let m = upload_after(filename, events);
    let ds = documents_sent(filename, events);
    if m.phase != UploadPhase::Done && (m.ids.len() > 0 || m.phase == UploadPhase::Chunk) {
        lemma_begins_with(m.sent);
        if m.phase == UploadPhase::Manifest {
            lemma_manifest_large(filename, events);
        } else {
            assert(m.sent[0] == ds[0].data);
            assert(ds[0].data.len() == 20_447_232);
        }
    }
}

proof fn lemma_begins_with(parts: Seq<Seq<u8>>)
    ensures
        parts.len() > 0 ==> joined(parts).len() >= parts[0].len(),
    decreases parts.len(),
{
    if parts.len() > 1 {
        lemma_begins_with(parts.drop_last());
    } else if parts.len() == 1 {
        assert(parts.drop_last() =~= Seq::empty());
        assert(joined(parts.drop_last()) =~= Seq::<u8>::empty());
        assert(joined(parts) =~= parts[0]);
    }
}

proof fn lemma_manifest_large(filename: Seq<char>, events: Seq<UploadEvent>)
    requires
        upload_awaits_all(filename, events),
        upload_after(filename, events).phase == UploadPhase::Manifest,
    ensures
        file_bytes(events).len() >= 20_447_232,
{
    let rest = events.drop_last();
    lemma_upload_tallies(filename, rest);
    let m = upload_after(filename, rest);
    let ds = documents_sent(filename, rest);
    lemma_begins_with(m.sent);
    assert(m.sent[0] == ds[0].data);
    assert(ds[0].data.len() == 20_447_232);
}

/// An upload goes on as long as its posts have a document: it fails only at
/// the end of a file without bytes and at a post without a document. It adds
/// a file to the index once the whole file or the manifest is posted, and
/// reads on exactly while less than a chunk is left to send.
pub proof fn uploads_go_on(filename: Seq<char>, events: Seq<UploadEvent>, last: UploadEvent)
    requires
        upload_awaits_all(filename, events.push(last)),
    ensures
        ({
            let m = upload_after(filename, events);
            let a = upload_step(m, last).1;
            let now = upload_step(m, last).0;
            let bytes = file_bytes(events.push(last));
            let chunks = documents_sent(filename, events.push(last)).len();
            &&& a is Fail <==> match last {
                UploadEvent::Data(_) => false,
                UploadEvent::End => bytes.len() == 0,
                UploadEvent::Posted { file_id, .. } => file_id is None,
            }
            &&& a is Store ==> last is Posted && (m.phase == UploadPhase::Single || m.phase
                == UploadPhase::Manifest)
            &&& last is Posted && last->file_id is Some && (m.phase == UploadPhase::Single
                || m.phase == UploadPhase::Manifest) ==> a is Store
            &&& a is Read ==> now.phase == UploadPhase::Reading && bytes.len() < (chunks + 1)
                * 20_447_232
            &&& last is End && 0 < bytes.len() < 20_447_232 ==> a == (UploadActionView::Send {
                data: bytes,
                name: filename,
                reply_to: None,
            })
            &&& now.phase == UploadPhase::Done <==> a is Fail || a is Store
        }),
{
    let all = events.push(last);
    assert(all.drop_last() =~= events);
    lemma_upload_tallies(filename, events);
    lemma_upload_tallies(filename, all);
    lemma_large(filename, events);
    lemma_large(filename, all);
    let m = upload_after(filename, events);
    let now = upload_after(filename, all);
    if now.phase == UploadPhase::Reading {
        let ds = documents_sent(filename, all);
        assert forall|i: int| 0 <= i < now.sent.len() implies (#[trigger] now.sent[i]).len()
            == 20_447_232 by {
            assert(now.sent[i] == ds[i].data);
        }
        lemma_joined_len(now.sent, 20_447_232);
    }
    if last is End && m.ids.len() == 0 {
        assert(m.sent =~= Seq::empty());
        assert(m.buffer =~= file_bytes(events));
    }
}

/// Every body that the server accepts can be uploaded.
pub proof fn accepted_bodies_fit()
    ensures
        upload_limit() >= crate::constants::MAX_UPLOAD_BODY_SIZE == 536_870_912,
{
}

/// Whatever the size of the file, a chunk and a manifest of an upload are
/// left out when the channel is followed.
pub proof fn own_documents_are_not_synced(filename: Seq<char>, n: nat, size: int)
    ensures
        skipped(chunk_name(filename, n), size),
        skipped(manifest_name(filename), size),
{
    let marker = TELEGRAM_CHUNK_FILENAME_MARKER@;
    let name = chunk_name(filename, n);
    let at = filename.len() as int;
    assert(name.subrange(at, at + marker.len()) =~= marker);
    assert(occurs_at(name, marker, at));
    let m = manifest_name(filename);
    let suffix = ".manifest"@;
    assert(m.subrange(m.len() - suffix.len(), m.len() as int) =~= suffix);
}

/// The manifest of every upload reads back: its name, made safe from whatever
/// the client sent, and its chunks.
pub proof fn uploaded_manifests_read_back(raw: Seq<char>, ids: Seq<Seq<char>>)
    requires
        forall|i: int| 0 <= i < ids.len() ==> is_line(#[trigger] ids[i]),
    ensures
        ({
            let body = encode_utf8(manifest_text(safe_name(raw), ids));
            &&& is_manifest_body(body)
            &&& lines_from(decode_utf8(body), 0) == seq!["tgstate-blob"@, safe_name(raw)] + ids
        }),
{
    sanitized_names_are_safe(raw);
    let name = safe_name(raw);
    assert(is_control('\n'));
    assert(is_control('\r'));
    assert(is_line(name)) by {
        assert(name.last() == name[name.len() - 1]);
    }
    manifest_reads_back(name, ids);
}

/// The bot and the channel that uploads go to, if both are set.
pub fn upload_service(app_settings: &AppSettingsMap) -> (r: Result<TelegramService, HttpError>)
    ensures
        ({
            let token = or_empty(setting(app_settings@, "BOT_TOKEN"@));
            let channel = or_empty(setting(app_settings@, "CHANNEL_NAME"@));
            if token.len() == 0 || channel.len() == 0 {
                r matches Err(e) && e@ == refusal(
                    503,
                    "缺少 BOT_TOKEN 或 CHANNEL_NAME，无法上传"@,
                    "cfg_missing"@,
                )
            } else {
                r matches Ok(s) && s.bot_token@ == token && s.channel_name@ == channel
            }
        }),
{
    let token: String = app_settings.text("BOT_TOKEN");
    let channel: String = app_settings.text("CHANNEL_NAME");
    if token.as_str().is_empty() || channel.as_str().is_empty() {
        Err(http_error(503, "缺少 BOT_TOKEN 或 CHANNEL_NAME，无法上传", "cfg_missing"))
    } else {
        Ok(TelegramService::new(token, channel))
    }
}

/// The name under which a field of the form is uploaded: the field has to be
/// named `file`.
pub fn upload_field(name: Option<&str>, file_name: Option<&str>) -> (r: Option<String>)
    ensures
        opt_view(r) == if opt_str_view(name) == Some("file"@) {
            Some(
                safe_name(
                    match file_name {
                        Some(f) => f@,
                        None => "upload"@,
                    },
                ),
            )
        } else {
            None
        },
        opt_view(r) == upload_name(opt_str_view(name), opt_str_view(file_name)),
{
    let wanted: bool = match name {
        Some(n) => same(n, "file"),
        None => false,
    };
    if wanted {
        match file_name {
            Some(f) => Some(sanitize_filename(f)),
            None => Some(sanitize_filename("upload")),
        }
    } else {
        None
    }
}

/// The answer to an upload.
#[derive(Debug)]
pub struct UploadResponse {
    pub file_id: String,
    pub short_id: String,
    pub download_path: String,
    pub path: String,
    pub url: String,
}

/// The answer to an upload, by the outcome of the last file of the form: the
/// short identifier of the file, what went wrong, or none if the form had no
/// file.
pub fn upload_response(outcome: Option<Result<String, String>>) -> (r: Result<
    UploadResponse,
    HttpError,
>)
    ensures
        match outcome {
            Some(Ok(id)) => {
                &&& r is Ok
                &&& r->Ok_0.file_id@ == id@
                &&& r->Ok_0.short_id@ == id@
                &&& r->Ok_0.download_path@ == "/d/"@ + id@
                &&& r->Ok_0.path@ == "/d/"@ + id@
                &&& r->Ok_0.url@ == "/d/"@ + id@
            },
            Some(Err(_)) => r matches Err(e) && e@ == refusal(
                500,
                "文件上传失败"@,
                "upload_failed"@,
            ),
            None => r matches Err(e) && e@ == refusal(400, "未提供文件"@, "no_file"@),
        },
{
    match outcome {
        Some(Ok(id)) => {
            let path: String = join("/d/", id.as_str());
            Ok(
                UploadResponse {
                    file_id: String::from_str(id.as_str()),
                    download_path: String::from_str(path.as_str()),
                    url: String::from_str(path.as_str()),
                    short_id: id,
                    path,
                },
            )
        },
        Some(Err(_)) => Err(http_error(500, "文件上传失败", "upload_failed")),
        None => Err(http_error(400, "未提供文件", "no_file")),
    }
}

/// An upload that fails says where: the file was empty, or an answer brought
/// no document.
pub proof fn failed_uploads_say_where(m: UploadModel, message_id: i64)
    requires
        m.wf(),
    ensures
        m.phase == UploadPhase::Reading && m.received.len() == 0 ==> after_end(m).1
            == (UploadActionView::Fail { reason: "文件为空"@ }),
        m.phase == UploadPhase::Chunk ==> after_post(m, message_id, None).1
            == (UploadActionView::Fail { reason: "No document in chunk response"@ }),
        m.phase == UploadPhase::Single ==> after_post(m, message_id, None).1
            == (UploadActionView::Fail { reason: "No document in response"@ }),
        m.phase == UploadPhase::LastChunk ==> after_post(m, message_id, None).1
            == (UploadActionView::Fail { reason: "No document in last chunk response"@ }),
        m.phase == UploadPhase::Manifest ==> after_post(m, message_id, None).1
            == (UploadActionView::Fail { reason: "No document in manifest response"@ }),
{
    if m.phase == UploadPhase::Reading && m.received.len() == 0 && m.sent.len() > 0 {
        lemma_joined_len(m.sent, TELEGRAM_CHUNK_SIZE as int);
    }
}

/// The name under which a field of a form is uploaded, if it is one that is.
pub open spec fn upload_name(name: Option<Seq<char>>, file_name: Option<Seq<char>>) -> Option<
    Seq<char>,
> {
    if name == Some("file"@) {
        Some(
            safe_name(
                match file_name {
                    Some(f) => f,
                    None => "upload"@,
                },
            ),
        )
    } else {
        None
    }
}

/// Only the field `file` of a form is uploaded, under the last part of its
/// file name; without a file name it is an upload without a name.
pub proof fn only_the_file_field_is_uploaded(
    name: Option<Seq<char>>,
    dir: Seq<char>,
    file_name: Seq<char>,
)
    requires
        file_name.len() > 0,
        !file_name.contains('/'),
        file_name != "."@,
        file_name != ".."@,
        encode_utf8(file_name).len() <= 255,
        forall|i: int| 0 <= i < file_name.len() ==> !is_control(#[trigger] file_name[i]),
    ensures
        upload_name(name, Some(file_name)) is Some <==> name == Some(seq!['f', 'i', 'l', 'e']),
        upload_name(name, None) is Some <==> name == Some(seq!['f', 'i', 'l', 'e']),
        upload_name(Some("file"@), Some(file_name)) == Some(file_name),
        upload_name(Some("file"@), Some(dir + seq!['/'] + file_name)) == Some(file_name),
        upload_name(Some("file"@), None) == Some("upload"@),
{
    reveal_strlit("file");
    reveal_strlit("upload");
    reveal_strlit(".");
    reveal_strlit("..");
    assert("file"@ =~= seq!['f', 'i', 'l', 'e']);
    good_names_are_kept(dir, file_name);
    let plain = "upload"@;
    assert(plain.len() == 6 && ".."@.len() == 2 && "."@.len() == 1);
    assert(forall|i: int| 0 <= i < 6 ==> plain[i] != '/' && !is_control(#[trigger] plain[i]));
    sanitized_names_are_safe(Seq::empty());
    slashes_behind_a_path_do_not_count(Seq::empty());
    nameless_files_are_uploads(Seq::empty());
    assert(safe_name(Seq::empty()) == plain);
    assert(encode_utf8(plain).len() <= 255);
    good_names_are_kept(dir, plain);
}

/// An upload may be as long as memory and the numbers of its chunks allow, and
/// no shorter.
pub proof fn uploads_end_where_numbers_do(n: int)
    ensures
        n <= upload_limit() <==> n <= isize::MAX && n <= 4_294_967_295 * 20_447_232,
{
}

} // verus!

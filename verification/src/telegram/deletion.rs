//! Deleting a stored file: its message and, for a large upload, the messages
//! of its chunks.
//!
//! A deletion goes from one `DeleteAction` to the next. It begins with the
//! identifier of the file; where the file may be a manifest it is fetched and
//! the chunks that it names are deleted; the message of the file itself comes
//! last. Each action carries the job that takes what came of it, so that no
//! step can be left out or done twice.
use vstd::prelude::*;
use vstd::string::*;
use vstd::utf8::*;

use crate::outside::lossy_utf8;
use crate::telegram::manifest::body_lines;
use crate::telegram::manifest::is_line;
use crate::telegram::manifest::is_manifest;
use crate::telegram::manifest::is_manifest_body;
use crate::telegram::manifest::manifest_reads_back;
use crate::telegram::manifest::manifest_text;
use crate::telegram::request::Exchange;
use crate::telegram::service::CompositeIdError;
use crate::telegram::service::TelegramService;
use crate::telegram::service::composite_reads_back;
use crate::telegram::service::composite_text;
use crate::telegram::service::message_of;
use crate::telegram::service::parse_composite_id;
use crate::telegram::service::redacted;
use crate::text::behind;
use crate::text::join;
use crate::text::lines_from;
use crate::text::views;

verus! {

/// What became of a deletion.
#[derive(Debug)]
pub struct DeleteResult {
    pub status: String,
    pub main_file_id: String,
    pub deleted_chunks: Vec<String>,
    pub failed_chunks: Vec<String>,
    pub main_message_deleted: bool,
    pub main_delete_reason: String,
    pub is_manifest: bool,
    pub reason: String,
}

/// The contents of a `DeleteResult`.
#[verifier::ext_equal]
pub struct DeleteResultView {
    pub status: Seq<char>,
    pub main_file_id: Seq<char>,
    pub deleted_chunks: Seq<Seq<char>>,
    pub failed_chunks: Seq<Seq<char>>,
    pub main_message_deleted: bool,
    pub main_delete_reason: Seq<char>,
    pub is_manifest: bool,
    pub reason: Seq<char>,
}

impl View for DeleteResult {
    type V = DeleteResultView;

    open spec fn view(&self) -> DeleteResultView {
        DeleteResultView {
            status: self.status@,
            main_file_id: self.main_file_id@,
            deleted_chunks: views(self.deleted_chunks@),
            failed_chunks: views(self.failed_chunks@),
            main_message_deleted: self.main_message_deleted,
            main_delete_reason: self.main_delete_reason@,
            is_manifest: self.is_manifest,
            reason: self.reason@,
        }
    }
}

/// A result about `file_id` in which nothing has happened yet.
pub open spec fn blank_result(file_id: Seq<char>) -> DeleteResultView {
    DeleteResultView {
        status: Seq::empty(),
        main_file_id: file_id,
        deleted_chunks: Seq::empty(),
        failed_chunks: Seq::empty(),
        main_message_deleted: false,
        main_delete_reason: Seq::empty(),
        is_manifest: false,
        reason: Seq::empty(),
    }
}

impl Default for DeleteResult {
    fn default() -> (r: Self)
        ensures
            r@ == blank_result(Seq::empty()),
    {
        let r: DeleteResult = DeleteResult {
            status: String::new(),
            main_file_id: String::new(),
            deleted_chunks: Vec::new(),
            failed_chunks: Vec::new(),
            main_message_deleted: false,
            main_delete_reason: String::new(),
            is_manifest: false,
            reason: String::new(),
        };
        proof {
            assert(r@ =~= blank_result(Seq::empty()));
        }
        r
    }
}

/// A chunk to delete: its identifier, and its message if the identifier
/// names one.
#[derive(Debug)]
pub struct ChunkTask {
    pub id: String,
    pub message_id: Option<i64>,
}

/// The chunk that a line of a manifest names.
pub open spec fn task_of(line: Seq<char>) -> (Seq<char>, Option<i64>) {
    (
        line,
        if line.contains(':') {
            message_of(line)
        } else {
            None
        },
    )
}

/// The chunks that the lines of a manifest name: all lines behind the header
/// and the file name.
pub open spec fn tasks_of(lines: Seq<Seq<char>>) -> Seq<(Seq<char>, Option<i64>)> {
    if lines.len() >= 3 {
        lines.skip(2).map_values(|l: Seq<char>| task_of(l))
    } else {
        Seq::empty()
    }
}

/// The identifiers and messages of a list of chunks.
pub open spec fn task_views(ts: Seq<ChunkTask>) -> Seq<(Seq<char>, Option<i64>)> {
    ts.map_values(|t: ChunkTask| (t.id@, t.message_id))
}

/// The chunks that the lines of a manifest name.
pub fn chunk_tasks(lines: &Vec<String>) -> (r: Vec<ChunkTask>)
    ensures
        task_views(r@) == tasks_of(views(lines@)),
{
    let mut out: Vec<ChunkTask> = Vec::new();
    let ghost all = tasks_of(views(lines@));
    let mut i: usize = 2;
    if lines.len() < 3 {
        proof {
            assert(task_views(out@) =~= all);
        }
        return out;
    }
    proof {
        assert(task_views(out@) =~= all.take(0));
    }
    while i < lines.len()
        invariant
            2 <= i <= lines@.len(),
            lines@.len() >= 3,
            all == tasks_of(views(lines@)),
            task_views(out@) == all.take(i - 2),
        decreases lines@.len() - i,
    {
        let id: &str = lines[i].as_str();
        let message_id: Option<i64> = match parse_composite_id(id) {
            Ok((m, _)) => Some(m),
            Err(_) => None,
        };
        let ghost done = out@;
        let task: ChunkTask = ChunkTask { id: String::from_str(id), message_id };
        out.push(task);
        proof {
            assert(views(lines@)[i as int] == id@);
            assert(views(lines@).skip(2)[i - 2] == id@);
            assert(all[i - 2] == task_of(id@));
            assert(task_views(out@) =~= task_views(done).push((task.id@, task.message_id)));
            assert(task_views(out@) =~= all.take(i - 1));
        }
        i += 1;
    }
    proof {
        assert(all.take(i - 2) =~= all);
    }
    out
}

/// A chunk is deleted if its identifier names a message and the deletion of
/// that message went well.
pub open spec fn chunk_gone(task: (Seq<char>, Option<i64>), ok: bool) -> bool {
    task.1 is Some && ok
}

/// Of the chunks whose deletion came to an end, those that are gone, or those
/// that are not, in order.
pub open spec fn chunks_where(
    tasks: Seq<(Seq<char>, Option<i64>)>,
    outcomes: Seq<Option<bool>>,
    gone: bool,
) -> Seq<Seq<char>>
    decreases tasks.len(),
{
    if tasks.len() == 0 || outcomes.len() != tasks.len() {
        Seq::empty()
    } else {
        let rest = chunks_where(tasks.drop_last(), outcomes.drop_last(), gone);
        match outcomes.last() {
            Some(ok) => if chunk_gone(tasks.last(), ok) == gone {
                rest.push(tasks.last().0)
            } else {
                rest
            },
            None => rest,
        }
    }
}

/// The outcomes of `n` chunks. A chunk of which nothing is reported counts as
/// one whose deletion broke off.
pub open spec fn outcomes_of(outcomes: Seq<Option<bool>>, n: nat) -> Seq<Option<bool>> {
    Seq::new(
        n,
        |i: int|
            if i < outcomes.len() {
                outcomes[i]
            } else {
                None
            },
    )
}

/// What is known of a deletion under way.
#[derive(Debug)]
struct DeleteJob {
    message_id: i64,
    chunks: Vec<ChunkTask>,
    result: DeleteResult,
}

/// What is known of a deletion under way.
#[verifier::ext_equal]
pub struct DeleteModel {
    /// The message of the file.
    pub message_id: i64,
    /// The chunks that are being deleted.
    pub chunks: Seq<(Seq<char>, Option<i64>)>,
    /// What happened so far.
    pub result: DeleteResultView,
}

impl View for DeleteJob {
    type V = DeleteModel;

    closed spec fn view(&self) -> DeleteModel {
        DeleteModel {
            message_id: self.message_id,
            chunks: task_views(self.chunks@),
            result: self.result@,
        }
    }
}

/// A deletion that waits for the file.
#[derive(Debug)]
pub struct ManifestJob {
    job: DeleteJob,
}

impl View for ManifestJob {
    type V = DeleteModel;

    closed spec fn view(&self) -> DeleteModel {
        self.job@
    }
}

/// A deletion that waits for its chunks.
#[derive(Debug)]
pub struct ChunksJob {
    job: DeleteJob,
}

impl View for ChunksJob {
    type V = DeleteModel;

    closed spec fn view(&self) -> DeleteModel {
        self.job@
    }
}

/// A deletion that waits for the message of the file.
#[derive(Debug)]
pub struct MessageJob {
    job: DeleteJob,
}

impl View for MessageJob {
    type V = DeleteModel;

    closed spec fn view(&self) -> DeleteModel {
        self.job@
    }
}

/// What to do next for a deletion.
#[derive(Debug)]
pub enum DeleteAction {
    /// Fetch the file with this identifier of Telegram's: it may be a
    /// manifest.
    Fetch { file_id: String, job: ManifestJob },
    /// Delete the messages of the chunks. A chunk whose identifier names no
    /// message has none.
    DeleteChunks { messages: Vec<Option<i64>>, job: ChunksJob },
    /// Delete the message of the file.
    DeleteMessage { message_id: i64, job: MessageJob },
    /// Nothing: the deletion cannot begin.
    Done(DeleteResult),
}

/// What a `DeleteAction` says.
pub enum DeleteActionView {
    Fetch { file_id: Seq<char>, job: DeleteModel },
    DeleteChunks { messages: Seq<Option<i64>>, job: DeleteModel },
    DeleteMessage { message_id: i64, job: DeleteModel },
    Done(DeleteResultView),
}

impl View for DeleteAction {
    type V = DeleteActionView;

    open spec fn view(&self) -> DeleteActionView {
        match self {
            DeleteAction::Fetch { file_id, job } => DeleteActionView::Fetch {
                file_id: file_id@,
                job: job@,
            },
            DeleteAction::DeleteChunks { messages, job } => DeleteActionView::DeleteChunks {
                messages: messages@,
                job: job@,
            },
            DeleteAction::DeleteMessage { message_id, job } => DeleteActionView::DeleteMessage {
                message_id: *message_id,
                job: job@,
            },
            DeleteAction::Done(r) => DeleteActionView::Done(r@),
        }
    }
}

/// The beginning of the deletion of the file `file_id`, which may be a manifest
/// or not. Only files that the service itself stored as large uploads are; a
/// file of a user may begin with the same bytes and must not be read as one.
pub open spec fn deletion_start(file_id: Seq<char>, allow_manifest: bool) -> DeleteActionView {
    if !file_id.contains(':') {
        DeleteActionView::Done(
            DeleteResultView {
                status: "error"@,
                reason: "Invalid file_id format"@,
                ..blank_result(file_id)
            },
        )
    } else {
        match message_of(file_id) {
            None => DeleteActionView::Done(
                DeleteResultView {
                    status: "error"@,
                    reason: "Invalid message_id"@,
                    ..blank_result(file_id)
                },
            ),
            Some(message_id) => {
                let job = DeleteModel {
                    message_id,
                    chunks: Seq::empty(),
                    result: blank_result(file_id),
                };
                if allow_manifest {
                    DeleteActionView::Fetch { file_id: behind(file_id, ':'), job }
                } else {
                    DeleteActionView::DeleteMessage { message_id, job }
                }
            },
        }
    }
}

/// What follows the fetching of the file: if it is a manifest with these
/// lines, its chunks are deleted; if it is none, or names no chunk, the
/// message of the file.
pub open spec fn after_fetch(m: DeleteModel, manifest: Option<Seq<Seq<char>>>) -> DeleteActionView {
    match manifest {
        None => DeleteActionView::DeleteMessage { message_id: m.message_id, job: m },
        Some(lines) => {
            let job = DeleteModel {
                chunks: tasks_of(lines),
                result: DeleteResultView { is_manifest: true, ..m.result },
                ..m
            };
            if tasks_of(lines).len() == 0 {
                DeleteActionView::DeleteMessage { message_id: m.message_id, job }
            } else {
                DeleteActionView::DeleteChunks {
                    messages: tasks_of(lines).map_values(|t: (Seq<char>, Option<i64>)| t.1),
                    job,
                }
            }
        },
    }
}

/// What follows the chunks: the message of the file is deleted.
pub open spec fn after_chunks(m: DeleteModel, outcomes: Seq<Option<bool>>) -> DeleteActionView {
    let all = outcomes_of(outcomes, m.chunks.len());
    DeleteActionView::DeleteMessage {
        message_id: m.message_id,
        job: DeleteModel {
            result: DeleteResultView {
                deleted_chunks: m.result.deleted_chunks + chunks_where(m.chunks, all, true),
                failed_chunks: m.result.failed_chunks + chunks_where(m.chunks, all, false),
                ..m.result
            },
            ..m
        },
    }
}

/// The end of a deletion. It succeeded if the message of the file is gone and
/// no chunk is left behind.
pub open spec fn after_message(m: DeleteModel, gone: bool, reason: Seq<char>) -> DeleteResultView {
    DeleteResultView {
        main_message_deleted: gone,
        main_delete_reason: reason,
        status: if gone && m.result.failed_chunks.len() == 0 {
            "success"@
        } else {
            "partial_failure"@
        },
        ..m.result
    }
}

impl TelegramService {
    /// Begins to delete a file that may be a large upload.
    pub fn delete_file_with_chunks(&self, file_id: &str) -> (r: DeleteAction)
        ensures
            r@ == deletion_start(file_id@, true),
    {
        delete_file_with_chunks_if_manifest(file_id, true)
    }

    /// Begins to delete a file that is no large upload.
    pub fn delete_regular_file(&self, file_id: &str) -> (r: DeleteAction)
        ensures
            r@ == deletion_start(file_id@, false),
    {
        delete_file_with_chunks_if_manifest(file_id, false)
    }

    /// Where the manifest can be fetched, by the outcome of asking for it.
    pub fn manifest_url(&self, url: Result<Option<String>, String>) -> (r: Result<String, String>)
        ensures
            match url {
                Ok(Some(u)) => r == Ok::<String, String>(u),
                Ok(None) => r matches Err(e) && e@ == "No download URL"@,
                Err(e) => r == Err::<String, String>(e),
            },
    {
        match url {
            Ok(Some(u)) => Ok(u),
            Ok(None) => Err(String::from_str("No download URL")),
            Err(e) => Err(e),
        }
    }

    /// The name of the file that a manifest describes, by the outcome of
    /// fetching it.
    pub fn try_get_manifest_original_filename(&self, body: Exchange<Vec<u8>>) -> (r: Result<
        String,
        String,
    >)
        ensures
            match body {
                Exchange::Failed(e) => r matches Err(t) && t@ == "Download manifest failed: "@
                    + redacted(e@, self.bot_token@),
                Exchange::Unreadable(e) => r matches Err(t) && t@ == redacted(
                    e@,
                    self.bot_token@,
                ),
                Exchange::Answer(b) => {
                    &&& original_name_is(is_manifest_body(b@), lines_from(lossy_utf8(b@), 0), r)
                    &&& valid_utf8(b@) ==> original_name_is(
                        is_manifest_body(b@),
                        lines_from(decode_utf8(b@), 0),
                        r,
                    )
                },
            },
    {
        match body {
            Exchange::Failed(e) => Err(
                join("Download manifest failed: ", self.sanitize_error(e.as_str()).as_str()),
            ),
            Exchange::Unreadable(e) => Err(self.sanitize_error(e.as_str())),
            Exchange::Answer(b) => original_name(is_manifest(&b), &body_lines(&b)),
        }
    }
}

/// `r` is the file name in the lines of a manifest, or why there is none.
pub open spec fn original_name_is(
    manifest: bool,
    lines: Seq<Seq<char>>,
    r: Result<String, String>,
) -> bool {
    if !manifest {
        r matches Err(e) && e@ == "Not a manifest file"@
    } else if lines.len() < 2 {
        r matches Err(e) && e@ == "Invalid manifest format"@
    } else {
        r matches Ok(n) && n@ == lines[1]
    }
}

/// The file name in the lines of a manifest.
pub fn original_name(manifest: bool, lines: &Vec<String>) -> (r: Result<String, String>)
    ensures
        original_name_is(manifest, views(lines@), r),
{
    if !manifest {
        Err(String::from_str("Not a manifest file"))
    } else if lines.len() < 2 {
        Err(String::from_str("Invalid manifest format"))
    } else {
        Ok(String::from_str(lines[1].as_str()))
    }
}

fn delete_file_with_chunks_if_manifest(file_id: &str, allow_manifest: bool) -> (r: DeleteAction)
    ensures
        r@ == deletion_start(file_id@, allow_manifest),
{
    let mut result: DeleteResult = DeleteResult::default();
    result.main_file_id = String::from_str(file_id);
    match parse_composite_id(file_id) {
        Ok((message_id, actual)) => {
            let job: DeleteJob = DeleteJob { message_id, chunks: Vec::new(), result };
            proof {
                assert(job@.result =~= blank_result(file_id@));
                assert(job@.chunks =~= Seq::<(Seq<char>, Option<i64>)>::empty());
            }
            if allow_manifest {
                DeleteAction::Fetch { file_id: actual, job: ManifestJob { job } }
            } else {
                DeleteAction::DeleteMessage { message_id, job: MessageJob { job } }
            }
        },
        Err(e) => {
            result.status = String::from_str("error");
            result.reason = match e {
                CompositeIdError::Format => String::from_str("Invalid file_id format"),
                CompositeIdError::MessageId => String::from_str("Invalid message_id"),
            };
            DeleteAction::Done(result)
        },
    }
}

fn messages_of(tasks: &Vec<ChunkTask>) -> (r: Vec<Option<i64>>)
    ensures
        r@ == task_views(tasks@).map_values(|t: (Seq<char>, Option<i64>)| t.1),
{
    let mut out: Vec<Option<i64>> = Vec::new();
    let mut i: usize = 0;
    while i < tasks.len()
        invariant
            i == out@.len() <= tasks@.len(),
            forall|j: int| 0 <= j < i ==> out@[j] == (#[trigger] tasks@[j]).message_id,
        decreases tasks@.len() - i,
    {
        out.push(tasks[i].message_id);
        i += 1;
    }
    proof {
        assert(out@ =~= task_views(tasks@).map_values(|t: (Seq<char>, Option<i64>)| t.1));
    }
    out
}

impl ManifestJob {
    /// Takes the bytes of the file, none if they could not be fetched.
    pub fn fetched(self, body: Option<Vec<u8>>) -> (r: DeleteAction)
        ensures
            r@ == after_fetch(
                self@,
                match body {
                    Some(b) => if is_manifest_body(b@) {
                        Some(lines_from(lossy_utf8(b@), 0))
                    } else {
                        None
                    },
                    None => None,
                },
            ),
            body is Some && valid_utf8(body->0@) && is_manifest_body(body->0@) ==> r@
                == after_fetch(self@, Some(lines_from(decode_utf8(body->0@), 0))),
    {
        if let Some(b) = body {
            if is_manifest(&b) {
                let lines: Vec<String> = body_lines(&b);
                return self.read(Some(lines));
            }
        }
        self.read(None)
    }

    /// Takes the lines of the manifest, none if the file is no manifest.
    pub fn read(self, lines: Option<Vec<String>>) -> (r: DeleteAction)
        ensures
            r@ == after_fetch(
                self@,
                match lines {
                    Some(l) => Some(views(l@)),
                    None => None,
                },
            ),
    {
        let mut job: DeleteJob = self.job;
        let message_id: i64 = job.message_id;
        let lines: Vec<String> = match lines {
            Some(l) => l,
            None => {
                return DeleteAction::DeleteMessage { message_id, job: MessageJob { job } };
            },
        };
        job.result.is_manifest = true;
        job.chunks = chunk_tasks(&lines);
        proof {
            assert(task_views(job.chunks@).len() == job.chunks@.len());
        }
        if job.chunks.len() == 0 {
            DeleteAction::DeleteMessage { message_id, job: MessageJob { job } }
        } else {
            DeleteAction::DeleteChunks {
                messages: messages_of(&job.chunks),
                job: ChunksJob { job },
            }
        }
    }
}

impl ChunksJob {
    /// Takes what became of the chunks: for each of them whether its message
    /// was deleted, or none if its deletion broke off.
    pub fn chunks_ended(self, outcomes: &Vec<Option<bool>>) -> (r: DeleteAction)
        ensures
            r@ == after_chunks(self@, outcomes@),
    {
        let mut result: DeleteResult = self.job.result;
        let message_id: i64 = self.job.message_id;
        let chunks: Vec<ChunkTask> = self.job.chunks;
        let ghost tasks = task_views(chunks@);
        let ghost all = outcomes_of(outcomes@, tasks.len());
        let ghost before = result@;
        let mut i: usize = 0;
        proof {
            assert(before.deleted_chunks + chunks_where(tasks.take(0), all.take(0), true)
                =~= before.deleted_chunks);
            assert(before.failed_chunks + chunks_where(tasks.take(0), all.take(0), false)
                =~= before.failed_chunks);
        }
        while i < chunks.len()
            invariant
                i <= chunks@.len(),
                tasks == task_views(chunks@),
                all == outcomes_of(outcomes@, tasks.len()),
                result@ == (DeleteResultView {
                    deleted_chunks: before.deleted_chunks + chunks_where(
                        tasks.take(i as int),
                        all.take(i as int),
                        true,
                    ),
                    failed_chunks: before.failed_chunks + chunks_where(
                        tasks.take(i as int),
                        all.take(i as int),
                        false,
                    ),
                    ..before
                }),
            decreases chunks@.len() - i,
        {
            let ghost now = result@;
            proof {
                assert(tasks.take(i + 1).drop_last() =~= tasks.take(i as int));
                assert(tasks.take(i + 1).last() == tasks[i as int]);
                assert(all.take(i + 1).drop_last() =~= all.take(i as int));
                assert(all.take(i + 1).last() == all[i as int]);
            }
            let outcome: Option<bool> = if i < outcomes.len() {
                outcomes[i]
            } else {
                None
            };
            if let Some(ok) = outcome {
                let id: String = String::from_str(chunks[i].id.as_str());
                if chunks[i].message_id.is_some() && ok {
                    result.deleted_chunks.push(id);
                    proof {
                        assert(result@.deleted_chunks =~= now.deleted_chunks.push(id@));
                    }
                } else {
                    result.failed_chunks.push(id);
                    proof {
                        assert(result@.failed_chunks =~= now.failed_chunks.push(id@));
                    }
                }
            }
            i += 1;
            proof {
                let goal = DeleteResultView {
                    deleted_chunks: before.deleted_chunks + chunks_where(
                        tasks.take(i as int),
                        all.take(i as int),
                        true,
                    ),
                    failed_chunks: before.failed_chunks + chunks_where(
                        tasks.take(i as int),
                        all.take(i as int),
                        false,
                    ),
                    ..before
                };
                assert(result@.deleted_chunks =~= goal.deleted_chunks);
                assert(result@.failed_chunks =~= goal.failed_chunks);
                assert(result@ == goal);
            }
        }
        proof {
            assert(tasks.take(i as int) =~= tasks);
            assert(all.take(i as int) =~= all);
        }
        let job: DeleteJob = DeleteJob { message_id, chunks, result };
        DeleteAction::DeleteMessage { message_id, job: MessageJob { job } }
    }
}

impl MessageJob {
    /// Takes what became of the message of the file and ends the deletion.
    pub fn finish(self, main_message: (bool, String)) -> (r: DeleteResult)
        ensures
            r@ == after_message(self@, main_message.0, main_message.1@),
    {
        let mut result: DeleteResult = self.job.result;
        result.main_message_deleted = main_message.0;
        result.main_delete_reason = main_message.1;
        result.status = if main_message.0 && result.failed_chunks.len() == 0 {
            String::from_str("success")
        } else {
            String::from_str("partial_failure")
        };
        result
    }
}

/// Whatever is fetched and whatever becomes of the chunks, the message of the
/// file is deleted once, and last; and nothing is fetched, and no chunk is
/// deleted, where the file may not be a manifest. Only an identifier that
/// names no message ends a deletion before.
pub proof fn messages_are_deleted_once_and_last(
    file_id: Seq<char>,
    allow_manifest: bool,
    manifest: Option<Seq<Seq<char>>>,
    outcomes: Seq<Option<bool>>,
)
    ensures
        match deletion_start(file_id, allow_manifest) {
            DeleteActionView::Done(r) => {
                &&& !file_id.contains(':') || message_of(file_id) is None
                &&& r.status == "error"@
                &&& !r.main_message_deleted
            },
            DeleteActionView::DeleteMessage { message_id, .. } => {
                &&& !allow_manifest
                &&& message_of(file_id) == Some(message_id)
            },
            DeleteActionView::Fetch { file_id: fetched, job } => {
                &&& allow_manifest
                &&& fetched == behind(file_id, ':')
                &&& match after_fetch(job, manifest) {
                    DeleteActionView::DeleteMessage { message_id, .. } => message_of(file_id)
                        == Some(message_id),
                    DeleteActionView::DeleteChunks { job, .. } => {
                        &&& manifest is Some
                        &&& after_chunks(job, outcomes) matches DeleteActionView::DeleteMessage {
                            message_id,
                            ..
                        }
                        &&& message_of(file_id) == Some(message_id)
                    },
                    _ => false,
                }
            },
            DeleteActionView::DeleteChunks { .. } => false,
        },
{
}

/// Every chunk whose deletion came to an end is reported, as gone or as left
/// behind according to how it ended, and no chunk is reported twice: the two
/// lists together are as long as the number of such chunks.
pub proof fn chunks_are_accounted_for(
    tasks: Seq<(Seq<char>, Option<i64>)>,
    outcomes: Seq<Option<bool>>,
)
    requires
        tasks.len() == outcomes.len(),
    ensures
        forall|i: int|
            0 <= i < tasks.len() && outcomes[i] is Some ==> chunks_where(
                tasks,
                outcomes,
                chunk_gone(tasks[i], outcomes[i]->0),
            ).contains(#[trigger] tasks[i].0),
        chunks_where(tasks, outcomes, true).len() + chunks_where(tasks, outcomes, false).len()
            == outcomes.filter(|o: Option<bool>| o is Some).len(),
    decreases tasks.len(),
{
    reveal(Seq::filter);
    if tasks.len() > 0 {
        let ts = tasks.drop_last();
        let os = outcomes.drop_last();
        chunks_are_accounted_for(ts, os);
        assert forall|i: int| 0 <= i < tasks.len() && outcomes[i] is Some implies chunks_where(
            tasks,
            outcomes,
            chunk_gone(tasks[i], outcomes[i]->0),
        ).contains(#[trigger] tasks[i].0) by {
            let gone = chunk_gone(tasks[i], outcomes[i]->0);
            let whole = chunks_where(tasks, outcomes, gone);
            let rest = chunks_where(ts, os, gone);
            if i < ts.len() {
                assert(ts[i] == tasks[i]);
                assert(rest.contains(ts[i].0));
                let k = choose|k: int| 0 <= k < rest.len() && rest[k] == tasks[i].0;
                assert(whole[k] == tasks[i].0);
            } else {
                assert(whole[whole.len() - 1] == tasks[i].0);
            }
        }
    }
}

/// Deleting a large upload goes for every chunk that its manifest was written
/// with: the tasks are the chunks in order, each with its message.
pub proof fn deletion_reaches_every_chunk(
    name: Seq<char>,
    messages: Seq<i64>,
    files: Seq<Seq<char>>,
)
    requires
        is_line(name),
        messages.len() == files.len() > 0,
        forall|i: int| 0 <= i < files.len() ==> is_line(#[trigger] files[i]),
    ensures
        ({
            let ids = Seq::new(
                files.len(),
                |i: int| composite_text(messages[i] as int, files[i]),
            );
            let body = encode_utf8(manifest_text(name, ids));
            &&& is_manifest_body(body)
            &&& tasks_of(lines_from(decode_utf8(body), 0)) == Seq::new(
                files.len(),
                |i: int| (ids[i], Some(messages[i])),
            )
        }),
{
    let ids = Seq::new(files.len(), |i: int| composite_text(messages[i] as int, files[i]));
    reveal_strlit(":");
    assert forall|i: int| 0 <= i < ids.len() implies is_line(#[trigger] ids[i]) by {
        let m = crate::decimal::decimal_int(messages[i] as int);
        crate::decimal::lemma_decimal_int(messages[i] as int);
        assert(is_line(files[i]));
        assert(ids[i] =~= m + seq![':'] + files[i]);
        assert forall|j: int| 0 <= j < ids[i].len() implies ids[i][j] != '\n' by {
            if j < m.len() {
                assert(ids[i][j] == m[j]);
            } else if j > m.len() {
                assert(ids[i][j] == files[i][j - m.len() - 1]);
                assert(files[i].contains(files[i][j - m.len() - 1]));
            }
        }
        if files[i].len() > 0 {
            assert(ids[i].last() == files[i].last());
        }
    }
    manifest_reads_back(name, ids);
    let lines = seq!["tgstate-blob"@, name] + ids;
    let goal = Seq::new(files.len(), |i: int| (ids[i], Some(messages[i])));
    assert(lines.skip(2) =~= ids);
    assert forall|i: int| 0 <= i < goal.len() implies tasks_of(lines)[i] == goal[i] by {
        composite_reads_back(messages[i], files[i]);
        assert(lines.skip(2)[i] == ids[i]);
    }
    assert(tasks_of(lines) =~= goal);
}

/// The chunk was left behind: its deletion came to an end, and either its
/// identifier names no message or that message is still there.
pub open spec fn left_behind(task: (Seq<char>, Option<i64>), outcome: Option<bool>) -> bool {
    outcome == Some(false) || (outcome == Some(true) && task.1 is None)
}

/// The chunks that were deleted, and those that were left behind, are listed
/// in the order of the manifest: each list is the row of tasks without those
/// that do not belong there.
pub proof fn chunks_are_listed_in_order(
    tasks: Seq<(Seq<char>, Option<i64>)>,
    outcomes: Seq<Option<bool>>,
)
    requires
        tasks.len() == outcomes.len(),
    ensures
        ({
            let all = Seq::new(tasks.len(), |i: int| (tasks[i], outcomes[i]));
            &&& chunks_where(tasks, outcomes, true) == all.filter(
                |x: ((Seq<char>, Option<i64>), Option<bool>)| x.1 == Some(true) && x.0.1 is Some,
            ).map_values(|x: ((Seq<char>, Option<i64>), Option<bool>)| x.0.0)
            &&& chunks_where(tasks, outcomes, false) == all.filter(
                |x: ((Seq<char>, Option<i64>), Option<bool>)| left_behind(x.0, x.1),
            ).map_values(|x: ((Seq<char>, Option<i64>), Option<bool>)| x.0.0)
        }),
    decreases tasks.len(),
{
    reveal(Seq::filter);
    let all = Seq::new(tasks.len(), |i: int| (tasks[i], outcomes[i]));
    let gone = |x: ((Seq<char>, Option<i64>), Option<bool>)| x.1 == Some(true) && x.0.1 is Some;
    let left = |x: ((Seq<char>, Option<i64>), Option<bool>)| left_behind(x.0, x.1);
    let id = |x: ((Seq<char>, Option<i64>), Option<bool>)| x.0.0;
    if tasks.len() > 0 {
        let ts = tasks.drop_last();
        let os = outcomes.drop_last();
        chunks_are_listed_in_order(ts, os);
        let rest = Seq::new(ts.len(), |i: int| (ts[i], os[i]));
        assert(all.drop_last() =~= rest);
        assert(all.last() == (tasks.last(), outcomes.last()));
        assert(chunks_where(tasks, outcomes, true) =~= all.filter(gone).map_values(id));
        assert(chunks_where(tasks, outcomes, false) =~= all.filter(left).map_values(id));
    } else {
        assert(chunks_where(tasks, outcomes, true) =~= all.filter(gone).map_values(id));
        assert(chunks_where(tasks, outcomes, false) =~= all.filter(left).map_values(id));
    }
}

proof fn lemma_none_left(tasks: Seq<(Seq<char>, Option<i64>)>, outcomes: Seq<Option<bool>>)
    requires
        tasks.len() == outcomes.len(),
    ensures
        chunks_where(tasks, outcomes, false).len() == 0 <==> forall|i: int|
            0 <= i < tasks.len() ==> !left_behind(#[trigger] tasks[i], outcomes[i]),
    decreases tasks.len(),
{
    if tasks.len() > 0 {
        let ts = tasks.drop_last();
        let os = outcomes.drop_last();
        lemma_none_left(ts, os);
        let n = tasks.len() - 1;
        assert(tasks[n] == tasks.last() && outcomes[n] == outcomes.last());
        if forall|i: int| 0 <= i < tasks.len() ==> !left_behind(#[trigger] tasks[i], outcomes[i]) {
            assert forall|i: int| 0 <= i < ts.len() implies !left_behind(
                #[trigger] ts[i],
                os[i],
            ) by {
                assert(ts[i] == tasks[i]);
            }
        }
        if forall|i: int| 0 <= i < ts.len() ==> !left_behind(#[trigger] ts[i], os[i]) {
            assert forall|i: int| 0 <= i < ts.len() implies !left_behind(
                #[trigger] tasks[i],
                outcomes[i],
            ) by {
                assert(ts[i] == tasks[i]);
            }
        }
    }
}

/// A deletion is a success if and only if the message of the file is gone and
/// no chunk was left behind; else it is a partial failure. The reason that is
/// reported is the one for the message of the file.
pub proof fn deletions_succeed_only_as_a_whole(
    m: DeleteModel,
    outcomes: Seq<Option<bool>>,
    gone: bool,
    reason: Seq<char>,
)
    requires
        m.result.failed_chunks.len() == 0,
        outcomes.len() == m.chunks.len(),
    ensures
        ({
            let job = after_chunks(m, outcomes)->DeleteMessage_job;
            let r = after_message(job, gone, reason);
            &&& r.status == "success"@ <==> gone && forall|i: int|
                0 <= i < m.chunks.len() ==> !left_behind(#[trigger] m.chunks[i], outcomes[i])
            &&& r.status != "success"@ ==> r.status == "partial_failure"@
            &&& r.main_message_deleted == gone
            &&& r.main_delete_reason == reason
            &&& r.main_file_id == m.result.main_file_id
            &&& r.is_manifest == m.result.is_manifest
        }),
{
    reveal_strlit("success");
    reveal_strlit("partial_failure");
    assert("success"@.len() == 7 && "partial_failure"@.len() == 15);
    assert(outcomes_of(outcomes, m.chunks.len()) =~= outcomes);
    lemma_none_left(m.chunks, outcomes);
}

/// Without chunks, the message of the file alone decides.
pub proof fn single_messages_decide(m: DeleteModel, gone: bool, reason: Seq<char>)
    requires
        m.result.failed_chunks.len() == 0,
    ensures
        after_message(m, gone, reason).status == "success"@ <==> gone,
        after_message(m, gone, reason).main_message_deleted == gone,
        after_message(m, gone, reason).main_delete_reason == reason,
        after_message(m, gone, reason).main_file_id == m.result.main_file_id,
        after_message(m, gone, reason).deleted_chunks == m.result.deleted_chunks,
        after_message(m, gone, reason).failed_chunks == m.result.failed_chunks,
        after_message(m, gone, reason).is_manifest == m.result.is_manifest,
        after_message(m, gone, reason).reason == m.result.reason,
{
    reveal_strlit("success");
    reveal_strlit("partial_failure");
    assert("success"@.len() == 7 && "partial_failure"@.len() == 15);
}

/// The tasks of a manifest are its lines from the third on, none left out and
/// in order; a line names a message by the number before its first colon.
pub proof fn every_line_is_a_task(lines: Seq<Seq<char>>)
    ensures
        lines.len() >= 2 ==> tasks_of(lines).len() == lines.len() - 2,
        lines.len() < 2 ==> tasks_of(lines).len() == 0,
        forall|i: int|
            2 <= i < lines.len() ==> (#[trigger] tasks_of(lines)[i - 2]).0 == lines[i],
        forall|i: int|
            2 <= i < lines.len() && !lines[i].contains(':') ==> (#[trigger] tasks_of(lines)[i
                - 2]).1 is None,
        forall|i: int|
            2 <= i < lines.len() && lines[i].contains(':') ==> (#[trigger] tasks_of(lines)[i - 2]).1
                == message_of(lines[i]),
{
}

/// The name in a manifest is its second line; without one, and without a
/// manifest, there is no name.
pub proof fn names_are_second_lines(
    manifest: bool,
    lines: Seq<Seq<char>>,
    r: Result<String, String>,
)
    requires
        original_name_is(manifest, lines, r),
    ensures
        r is Ok <==> manifest && lines.len() >= 2,
        r matches Ok(n) ==> n@ == lines[1],
        r matches Err(e) ==> e@ == (if manifest {
            "Invalid manifest format"@
        } else {
            "Not a manifest file"@
        }),
{
}

/// A deletion begins with the message that the identifier names and with
/// nothing deleted yet. An identifier without a colon, or without a number
/// before it, is refused for that reason.
pub proof fn deletions_begin_with_their_message(file_id: Seq<char>, allow_manifest: bool)
    ensures
        ({
            let a = deletion_start(file_id, allow_manifest);
            let bad_form = !file_id.contains(':');
            let bad_number = file_id.contains(':') && message_of(file_id) is None;
            &&& a is Done <==> bad_form || bad_number
            &&& a is Fetch <==> allow_manifest && !bad_form && !bad_number
            &&& a is DeleteMessage <==> !allow_manifest && !bad_form && !bad_number
            &&& a matches DeleteActionView::Done(r) ==> {
                &&& r.status == "error"@
                &&& r.reason == if bad_form {
                    "Invalid file_id format"@
                } else {
                    "Invalid message_id"@
                }
                &&& r.main_file_id == file_id
                &&& r.deleted_chunks.len() == 0 && r.failed_chunks.len() == 0
                &&& !r.main_message_deleted && !r.is_manifest && r.main_delete_reason.len() == 0
            }
            &&& a matches DeleteActionView::Fetch { file_id: fetched, job } ==> {
                &&& fetched == behind(file_id, ':')
                &&& is_fresh(job, file_id)
            }
            &&& a matches DeleteActionView::DeleteMessage { message_id, job } ==> {
                &&& Some(message_id) == message_of(file_id)
                &&& is_fresh(job, file_id)
            }
        }),
{
}

/// Nothing of the deletion of this file is done yet.
pub open spec fn is_fresh(job: DeleteModel, file_id: Seq<char>) -> bool {
    &&& Some(job.message_id) == message_of(file_id)
    &&& job.chunks.len() == 0
    &&& job.result.main_file_id == file_id
    &&& job.result.deleted_chunks.len() == 0
    &&& job.result.failed_chunks.len() == 0
    &&& !job.result.main_message_deleted
    &&& !job.result.is_manifest
    &&& job.result.status.len() == 0
    &&& job.result.reason.len() == 0
    &&& job.result.main_delete_reason.len() == 0
}

/// Of a manifest with chunks, the messages of the chunks are deleted, in
/// order; a manifest without chunks, and a file that is none, is deleted at
/// once. Only what was read as a manifest counts as one.
pub proof fn manifests_have_their_chunks_deleted(
    m: DeleteModel,
    manifest: Option<Seq<Seq<char>>>,
)
    ensures
        ({
            let a = after_fetch(m, manifest);
            &&& manifest is None ==> a == (DeleteActionView::DeleteMessage {
                message_id: m.message_id,
                job: m,
            })
            &&& a is DeleteChunks <==> manifest is Some && manifest->0.len() >= 3
            &&& manifest is Some && manifest->0.len() < 3 ==> a is DeleteMessage
                && a->DeleteMessage_message_id == m.message_id
                && a->DeleteMessage_job.result.is_manifest && a->DeleteMessage_job.chunks.len() == 0
            &&& a matches DeleteActionView::DeleteChunks { messages, job } ==> {
                let lines = manifest->0;
                &&& job.message_id == m.message_id
                &&& job.result.is_manifest
                &&& job.result.main_file_id == m.result.main_file_id
                &&& job.result.deleted_chunks == m.result.deleted_chunks
                &&& job.result.failed_chunks == m.result.failed_chunks
                &&& job.chunks == tasks_of(lines)
                &&& messages.len() == lines.len() - 2
                &&& forall|i: int|
                    0 <= i < messages.len() ==> #[trigger] messages[i] == (if lines[i + 2].contains(
                        ':',
                    ) {
                        message_of(lines[i + 2])
                    } else {
                        None
                    })
            }
        }),
{
}

/// When the chunks are through, each one that was tried is listed as deleted
/// or as left behind, in order, and the message of the file comes next. A
/// chunk without an outcome is in neither list.
pub proof fn outcomes_of_chunks_are_listed(m: DeleteModel, outcomes: Seq<Option<bool>>)
    ensures
        ({
            let all = Seq::new(
                m.chunks.len(),
                |i: int|
                    (
                        m.chunks[i],
                        if i < outcomes.len() {
                            outcomes[i]
                        } else {
                            None
                        },
                    ),
            );
            let gone = all.filter(
                |x: ((Seq<char>, Option<i64>), Option<bool>)| x.1 == Some(true) && x.0.1 is Some,
            ).map_values(|x: ((Seq<char>, Option<i64>), Option<bool>)| x.0.0);
            let left = all.filter(
                |x: ((Seq<char>, Option<i64>), Option<bool>)| left_behind(x.0, x.1),
            ).map_values(|x: ((Seq<char>, Option<i64>), Option<bool>)| x.0.0);
            let a = after_chunks(m, outcomes);
            &&& a is DeleteMessage
            &&& a->DeleteMessage_message_id == m.message_id
            &&& a->DeleteMessage_job.result.deleted_chunks == m.result.deleted_chunks + gone
            &&& a->DeleteMessage_job.result.failed_chunks == m.result.failed_chunks + left
            &&& a->DeleteMessage_job.result.is_manifest == m.result.is_manifest
            &&& a->DeleteMessage_job.result.main_file_id == m.result.main_file_id
        }),
{
    let padded = outcomes_of(outcomes, m.chunks.len());
    chunks_are_listed_in_order(m.chunks, padded);
    let all = Seq::new(
        m.chunks.len(),
        |i: int|
            (
                m.chunks[i],
                if i < outcomes.len() {
                    outcomes[i]
                } else {
                    None
                },
            ),
    );
    assert(Seq::new(m.chunks.len(), |i: int| (m.chunks[i], padded[i])) =~= all);
}

} // verus!

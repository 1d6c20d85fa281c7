//! The index of files, the stored settings and the sessions: what goes into
//! the tables and what comes out of them.
use vstd::prelude::*;
use vstd::string::*;

use crate::config::AppSettingsMap;
use crate::config::Settings;
use crate::config::empty_database_leaves_environment;
use crate::config::env_settings;
use crate::config::not_blank;
use crate::config::overlaid;
use crate::config::setting;
use crate::config::values_count_unless_blank;
use crate::constants::SHORT_ID_LENGTH;
use crate::decimal::decimal_i64;
use crate::decimal::decimal_int;
use crate::decimal::is_digit;
use crate::decimal::lemma_decimal_int;
use crate::outside::CALENDAR_END_SECS;
use crate::outside::clock;
use crate::outside::random_below;
use crate::outside::rfc3339;
use crate::outside::rfc3339_text;
use crate::telegram::service::composite_text;
use crate::text::all_space;
use crate::text::begins;
use crate::text::chars_of;
use crate::text::ends;
use crate::text::ends_with;
use crate::text::join;
use crate::text::join3;
use crate::text::lemma_trimmed;
use crate::text::opt_copy;
use crate::text::opt_str_view;
use crate::text::opt_view;
use crate::text::same;
use crate::text::trim;
use crate::text::trimmed;
use crate::text::views;

verus! {

/// A file in the index.
#[derive(Debug, Clone)]
pub struct FileMetadata {
    pub filename: String,
    pub file_id: String,
    pub filesize: i64,
    pub upload_date: String,
    pub short_id: Option<String>,
}

/// The contents of a `FileMetadata`.
pub struct FileView {
    pub filename: Seq<char>,
    pub file_id: Seq<char>,
    pub filesize: i64,
    pub upload_date: Seq<char>,
    pub short_id: Option<Seq<char>>,
}

impl View for FileMetadata {
    type V = FileView;

    open spec fn view(&self) -> FileView {
        FileView {
            filename: self.filename@,
            file_id: self.file_id@,
            filesize: self.filesize,
            upload_date: self.upload_date@,
            short_id: opt_view(self.short_id),
        }
    }
}

impl FileMetadata {
    /// A copy of the entry.
    pub fn copy(&self) -> (r: Self)
        ensures
            r@ == self@,
    {
        FileMetadata {
            filename: String::from_str(self.filename.as_str()),
            file_id: String::from_str(self.file_id.as_str()),
            filesize: self.filesize,
            upload_date: String::from_str(self.upload_date.as_str()),
            short_id: opt_copy(&self.short_id),
        }
    }
}

/// A login under way.
#[derive(Debug, Clone)]
pub struct OidcLoginState {
    pub nonce: String,
    pub pkce_verifier: String,
    pub next_path: Option<String>,
}

/// The contents of an `OidcLoginState`.
pub struct LoginStateView {
    pub nonce: Seq<char>,
    pub pkce_verifier: Seq<char>,
    pub next_path: Option<Seq<char>>,
}

/// The contents of a login under way.
pub open spec fn login_state_view(s: OidcLoginState) -> LoginStateView {
    LoginStateView {
        nonce: s.nonce@,
        pkce_verifier: s.pkce_verifier@,
        next_path: opt_view(s.next_path),
    }
}

/// A login that is saved under its state, until the provider calls back.
#[derive(Debug)]
pub struct LoginRow {
    pub state: String,
    pub nonce: String,
    pub pkce_verifier: String,
    pub next_path: Option<String>,
    /// For how long it is good, in seconds.
    pub ttl_secs: i64,
}

/// The contents of a `LoginRow`.
pub struct LoginRowView {
    pub state: Seq<char>,
    pub login: LoginStateView,
    pub ttl_secs: i64,
}

impl View for LoginRow {
    type V = LoginRowView;

    open spec fn view(&self) -> LoginRowView {
        LoginRowView {
            state: self.state@,
            login: LoginStateView {
                nonce: self.nonce@,
                pkce_verifier: self.pkce_verifier@,
                next_path: opt_view(self.next_path),
            },
            ttl_secs: self.ttl_secs,
        }
    }
}

/// A user with a session.
#[derive(Debug, Clone)]
pub struct AuthSession {
    pub subject: String,
    pub username: Option<String>,
    pub email: Option<String>,
}

/// The name of the database file.
pub const DB_FILE: &'static str = "file_metadata.db";

/// The database file in a directory.
pub open spec fn path_in(dir: Seq<char>) -> Seq<char> {
    if dir.len() == 0 || ends(dir, "/"@) {
        dir + DB_FILE@
    } else {
        dir + "/"@ + DB_FILE@
    }
}

/// The path of the database in the data directory.
pub fn db_path(data_dir: &str) -> (r: String)
    ensures
        r@ == path_in(data_dir@),
{
    if data_dir.is_empty() || ends_with(data_dir, "/") {
        join(data_dir, DB_FILE)
    } else {
        join3(data_dir, "/", DB_FILE)
    }
}

/// Whether a table lacks a column, by the names of its columns.
pub fn lacks_column(columns: &Vec<String>, name: &str) -> (r: bool)
    ensures
        r == !views(columns@).contains(name@),
{
    let mut i: usize = 0;
    while i < columns.len()
        invariant
            i <= columns@.len(),
            forall|j: int| 0 <= j < i ==> (#[trigger] views(columns@)[j]) != name@,
        decreases columns@.len() - i,
    {
        proof {
            assert(views(columns@)[i as int] == columns@[i as int]@);
        }
        if same(columns[i].as_str(), name) {
            return false;
        }
        i += 1;
    }
    true
}

/// What brings an older database up to date: a statement for each of the two
/// columns that its tables lack, given the columns of the table of files and
/// of that of settings.
pub open spec fn migration(files: Seq<Seq<char>>, settings: Seq<Seq<char>>) -> (
    Option<Seq<char>>,
    Option<Seq<char>>,
) {
    (
        if files.contains("short_id"@) {
            None
        } else {
            Some("ALTER TABLE files ADD COLUMN short_id TEXT"@)
        },
        if settings.contains("session_token"@) {
            None
        } else {
            Some("ALTER TABLE app_settings ADD COLUMN session_token TEXT"@)
        },
    )
}

/// What brings an older database up to date, in order: the columns that its
/// tables lack.
pub fn init_db(file_columns: &Vec<String>, settings_columns: &Vec<String>) -> (r: (
    Option<String>,
    Option<String>,
))
    ensures
        (opt_view(r.0), opt_view(r.1)) == migration(views(file_columns@), views(settings_columns@)),
{
    let files: Option<String> = if lacks_column(file_columns, "short_id") {
        Some(String::from_str("ALTER TABLE files ADD COLUMN short_id TEXT"))
    } else {
        None
    };
    let settings: Option<String> = if lacks_column(settings_columns, "session_token") {
        Some(String::from_str("ALTER TABLE app_settings ADD COLUMN session_token TEXT"))
    } else {
        None
    };
    (files, settings)
}

/// A database that has both columns needs no change.
pub proof fn current_databases_need_no_change(files: Seq<Seq<char>>, settings: Seq<Seq<char>>)
    requires
        files.contains("short_id"@),
        settings.contains("session_token"@),
    ensures
        migration(files, settings) == (None::<Seq<char>>, None::<Seq<char>>),
{
}

/// The columns of a table after a migration that adds the column `name`, if it
/// has a statement at all.
pub open spec fn columns_after(
    columns: Seq<Seq<char>>,
    statement: Option<Seq<char>>,
    name: Seq<char>,
) -> Seq<Seq<char>> {
    match statement {
        Some(_) => columns.push(name),
        None => columns,
    }
}

/// A second start alters no table: once the columns that a database lacked
/// are there, nothing is left to change.
pub proof fn second_starts_alter_nothing(files: Seq<Seq<char>>, settings: Seq<Seq<char>>)
    ensures
        ({
            let m = migration(files, settings);
            migration(
                columns_after(files, m.0, "short_id"@),
                columns_after(settings, m.1, "session_token"@),
            ) == (None::<Seq<char>>, None::<Seq<char>>)
        }),
{
    let m = migration(files, settings);
    let f = columns_after(files, m.0, "short_id"@);
    let s = columns_after(settings, m.1, "session_token"@);
    if m.0 is Some {
        assert(f[files.len() as int] == "short_id"@);
    }
    if m.1 is Some {
        assert(s[settings.len() as int] == "session_token"@);
    }
    current_databases_need_no_change(f, s);
}

/// The characters of short identifiers.
pub const SHORT_ID_CHARS: &'static str =
    "abcdefghijklmnopqrstuvwxyzABCDEFGHIJKLMNOPQRSTUVWXYZ0123456789";

/// The characters of `SHORT_ID_CHARS` at the given places.
pub open spec fn short_id_of(places: Seq<usize>) -> Seq<char> {
    places.map_values(|p: usize| SHORT_ID_CHARS@[p as int])
}

/// Nothing but characters of short identifiers, `length` of them.
pub open spec fn is_short_id(s: Seq<char>, length: nat) -> bool {
    &&& s.len() == length
    &&& forall|i: int| 0 <= i < s.len() ==> SHORT_ID_CHARS@.contains(#[trigger] s[i])
}

/// The short identifier made of the characters at the given places.
pub fn short_id_from(places: &Vec<usize>) -> (r: String)
    requires
        forall|i: int| 0 <= i < places@.len() ==> (#[trigger] places@[i]) < 62,
    ensures
        r@ == short_id_of(places@),
        is_short_id(r@, places@.len()),
{
    let chars: Vec<char> = chars_of(SHORT_ID_CHARS);
    proof {
        lemma_alphabet();
    }
    let mut out: String = String::new();
    let mut i: usize = 0;
    while i < places.len()
        invariant
            i <= places@.len(),
            chars@ == SHORT_ID_CHARS@,
            chars@.len() == 62,
            forall|j: int| 0 <= j < places@.len() ==> (#[trigger] places@[j]) < 62,
            out@ == short_id_of(places@.take(i as int)),
        decreases places@.len() - i,
    {
        let ghost done = out@;
        out.push(chars[places[i]]);
        i += 1;
        proof {
            assert(places@.take(i as int) =~= places@.take(i - 1).push(places@[i - 1]));
            assert(out@ =~= short_id_of(places@.take(i as int)));
        }
    }
    proof {
        assert(places@.take(i as int) =~= places@);
        assert forall|j: int| 0 <= j < out@.len() implies SHORT_ID_CHARS@.contains(
            #[trigger] out@[j],
        ) by {
            assert(out@[j] == SHORT_ID_CHARS@[places@[j] as int]);
        }
    }
    out
}

proof fn lemma_alphabet()
    ensures
        SHORT_ID_CHARS@.len() == 62,
{
    reveal_strlit("abcdefghijklmnopqrstuvwxyzABCDEFGHIJKLMNOPQRSTUVWXYZ0123456789");
}

/// A random short identifier.
pub fn generate_short_id(length: usize) -> (r: String)
    ensures
        is_short_id(r@, length as nat),
{
    let mut places: Vec<usize> = Vec::new();
    while places.len() < length
        invariant
            places@.len() <= length,
            forall|i: int| 0 <= i < places@.len() ==> (#[trigger] places@[i]) < 62,
        decreases length - places@.len(),
    {
        places.push(random_below(62));
    }
    short_id_from(&places)
}

/// How often a file is inserted before giving up.
pub const INSERT_ATTEMPTS: u32 = 5;

/// What became of an insertion into the index.
#[derive(Debug)]
pub enum InsertOutcome {
    /// The file is in the index.
    Inserted,
    /// The file or the short identifier was there before; here is the short
    /// identifier of the file, if it has one.
    Conflict(Option<String>),
    /// The database failed.
    Failed(String),
}

/// What to do next for a file that is added to the index.
#[derive(Debug)]
pub enum IndexAction {
    /// Insert it under this short identifier.
    Insert { short_id: String },
    /// Give the row that is there this short identifier.
    Update { short_id: String },
    /// It is in the index under this short identifier.
    Done { short_id: String },
    /// Give up.
    Fail { reason: String },
}

/// What an `IndexAction` says.
pub enum IndexActionView {
    Insert { short_id: Seq<char> },
    Update { short_id: Seq<char> },
    Done { short_id: Seq<char> },
    Fail { reason: Seq<char> },
}

impl View for IndexAction {
    type V = IndexActionView;

    open spec fn view(&self) -> IndexActionView {
        match self {
            IndexAction::Insert { short_id } => IndexActionView::Insert { short_id: short_id@ },
            IndexAction::Update { short_id } => IndexActionView::Update { short_id: short_id@ },
            IndexAction::Done { short_id } => IndexActionView::Done { short_id: short_id@ },
            IndexAction::Fail { reason } => IndexActionView::Fail { reason: reason@ },
        }
    }
}

/// A file that is added to the index.
#[derive(Debug)]
pub struct AddFile {
    /// The number of insertions so far.
    pub attempts: u32,
    /// The short identifier of the last insertion.
    pub short_id: String,
}

/// What follows an insertion, with `fresh` as the next short identifier: the
/// number of insertions, the short identifier in use, and what to do.
pub open spec fn after_insert(
    attempts: u32,
    short_id: Seq<char>,
    outcome: InsertOutcome,
    fresh: Seq<char>,
) -> (int, Seq<char>, IndexActionView) {
    match outcome {
        InsertOutcome::Inserted => (attempts as int, short_id, IndexActionView::Done { short_id }),
        InsertOutcome::Failed(e) => (
            attempts as int,
            short_id,
            IndexActionView::Fail { reason: e@ },
        ),
        InsertOutcome::Conflict(Some(known)) => if known@.len() > 0 {
            (attempts as int, short_id, IndexActionView::Done { short_id: known@ })
        } else {
            (attempts as int, fresh, IndexActionView::Update { short_id: fresh })
        },
        InsertOutcome::Conflict(None) => if attempts < INSERT_ATTEMPTS {
            (attempts + 1, fresh, IndexActionView::Insert { short_id: fresh })
        } else {
            (
                attempts as int,
                short_id,
                IndexActionView::Fail { reason: "Failed to generate unique short_id"@ },
            )
        },
    }
}

impl AddFile {
    /// Begins to add a file under this short identifier.
    pub fn start_with(short_id: String) -> (r: (Self, IndexAction))
        ensures
            r.0.attempts == 1,
            r.0.short_id@ == short_id@,
            r.1@ == (IndexActionView::Insert { short_id: short_id@ }),
    {
        let action: IndexAction = IndexAction::Insert {
            short_id: String::from_str(short_id.as_str()),
        };
        (AddFile { attempts: 1, short_id }, action)
    }

    /// Takes what became of an insertion, with `fresh` as the next short
    /// identifier.
    pub fn inserted_with(&mut self, outcome: InsertOutcome, fresh: String) -> (r: IndexAction)
        ensures
            (final(self).attempts as int, final(self).short_id@, r@) == after_insert(
                old(self).attempts,
                old(self).short_id@,
                outcome,
                fresh@,
            ),
    {
        match outcome {
            InsertOutcome::Inserted => IndexAction::Done {
                short_id: String::from_str(self.short_id.as_str()),
            },
            InsertOutcome::Failed(e) => IndexAction::Fail { reason: e },
            InsertOutcome::Conflict(Some(known)) => {
                if !known.as_str().is_empty() {
                    IndexAction::Done { short_id: known }
                } else {
                    self.short_id = String::from_str(fresh.as_str());
                    IndexAction::Update { short_id: fresh }
                }
            },
            InsertOutcome::Conflict(None) => {
                if self.attempts < INSERT_ATTEMPTS {
                    self.attempts = self.attempts + 1;
                    self.short_id = String::from_str(fresh.as_str());
                    IndexAction::Insert { short_id: fresh }
                } else {
                    IndexAction::Fail {
                        reason: String::from_str("Failed to generate unique short_id"),
                    }
                }
            },
        }
    }

    /// Takes what became of an insertion. A next short identifier is random.
    pub fn inserted(&mut self, outcome: InsertOutcome) -> (r: IndexAction)
        ensures
            exists|fresh: Seq<char>|
                is_short_id(fresh, SHORT_ID_LENGTH as nat) && (
                    final(self).attempts as int,
                    final(self).short_id@,
                    r@,
                ) == #[trigger] after_insert(
                    old(self).attempts,
                    old(self).short_id@,
                    outcome,
                    fresh,
                ),
    {
        let fresh: String = generate_short_id(SHORT_ID_LENGTH);
        self.inserted_with(outcome, fresh)
    }

    /// Takes what became of an update: the database may have failed.
    pub fn updated(&self, failure: Option<String>) -> (r: IndexAction)
        ensures
            r@ == match failure {
                None => IndexActionView::Done { short_id: self.short_id@ },
                Some(e) => IndexActionView::Fail { reason: e@ },
            },
    {
        match failure {
            None => IndexAction::Done { short_id: String::from_str(self.short_id.as_str()) },
            Some(e) => IndexAction::Fail { reason: e },
        }
    }
}

/// Begins to add a file to the index, under a random short identifier.
pub fn add_file_metadata() -> (r: (AddFile, IndexAction))
    ensures
        r.0.attempts == 1,
        is_short_id(r.0.short_id@, SHORT_ID_LENGTH as nat),
        r.1@ == (IndexActionView::Insert { short_id: r.0.short_id@ }),
{
    AddFile::start_with(generate_short_id(SHORT_ID_LENGTH))
}

/// The number of insertions stays within its bound: another one follows only
/// below it.
pub proof fn insertions_are_bounded(
    attempts: u32,
    short_id: Seq<char>,
    outcome: InsertOutcome,
    fresh: Seq<char>,
)
    requires
        attempts <= INSERT_ATTEMPTS,
    ensures
        after_insert(attempts, short_id, outcome, fresh).0 <= INSERT_ATTEMPTS,
        after_insert(attempts, short_id, outcome, fresh).2 is Insert ==> after_insert(
            attempts,
            short_id,
            outcome,
            fresh,
        ).0 == attempts + 1,
{
}

/// A row of the table of files: the file with a short identifier.
pub open spec fn with_short_id(file: FileView, short_id: Seq<char>) -> FileView {
    FileView { short_id: Some(short_id), ..file }
}

/// The two rows cannot stand in one table of files: the identifiers of a file
/// are unique, each for itself.
pub open spec fn rows_clash(a: FileView, b: FileView) -> bool {
    a.file_id == b.file_id || (a.short_id is Some && a.short_id == b.short_id)
}

/// The row clashes with one of the table.
pub open spec fn clashes_in(table: Seq<FileView>, row: FileView) -> bool {
    exists|i: int| 0 <= i < table.len() && rows_clash(#[trigger] table[i], row)
}

/// The identifiers in the table of files: those of files name a message before
/// a colon, and short ones are made of the characters of short identifiers.
pub open spec fn is_index(table: Seq<FileView>) -> bool {
    forall|i: int|
        #![trigger table[i]]
        0 <= i < table.len() ==> table[i].file_id.contains(':') && (table[i].short_id matches Some(s)
            ==> is_short_id(s, s.len()))
}

/// How the table of files answers an insertion: it takes a row that clashes
/// with none, reports the short identifier of the file for one that does, and
/// may fail at any time.
pub open spec fn answers(table: Seq<FileView>, row: FileView, outcome: InsertOutcome) -> bool {
    match outcome {
        InsertOutcome::Inserted => !clashes_in(table, row),
        InsertOutcome::Conflict(known) => clashes_in(table, row) && match known {
            Some(s) => exists|i: int|
                0 <= i < table.len() && (#[trigger] table[i]).file_id == row.file_id
                    && table[i].short_id == Some(s@),
            None => forall|i: int|
                0 <= i < table.len() ==> (#[trigger] table[i]).file_id == row.file_id
                    ==> table[i].short_id is None,
        },
        InsertOutcome::Failed(_) => true,
    }
}

/// The table of files behind an insertion.
pub open spec fn table_after(
    table: Seq<FileView>,
    row: FileView,
    outcome: InsertOutcome,
) -> Seq<FileView> {
    match outcome {
        InsertOutcome::Inserted => table.push(row),
        _ => table,
    }
}

/// Adding a file, step by step: the number of insertions, the short identifier
/// in use, what to do, and the table of files, behind as many insertions as
/// there are outcomes. `ids` are the short identifiers that are drawn.
pub open spec fn adding(
    table: Seq<FileView>,
    file: FileView,
    ids: Seq<Seq<char>>,
    outcomes: Seq<InsertOutcome>,
) -> (int, Seq<char>, IndexActionView, Seq<FileView>)
    decreases outcomes.len(),
{
    if outcomes.len() == 0 {
        (1, ids[0], IndexActionView::Insert { short_id: ids[0] }, table)
    } else {
        let last = outcomes.last();
        let was = adding(table, file, ids, outcomes.drop_last());
        let next = after_insert(was.0 as u32, was.1, last, ids[outcomes.len() as int]);
        (next.0, next.1, next.2, table_after(was.3, with_short_id(file, was.1), last))
    }
}

/// Each of the insertions was asked for, and the table answered it.
pub open spec fn adding_was_answered(
    table: Seq<FileView>,
    file: FileView,
    ids: Seq<Seq<char>>,
    outcomes: Seq<InsertOutcome>,
) -> bool
    decreases outcomes.len(),
{
    outcomes.len() == 0 || {
        let rest = outcomes.drop_last();
        let was = adding(table, file, ids, rest);
        &&& adding_was_answered(table, file, ids, rest)
        &&& was.2 is Insert
        &&& answers(was.3, with_short_id(file, was.1), outcomes.last())
    }
}

/// `row` is the one row of the table that has `identifier` as its short
/// identifier or as the identifier of its file.
pub open spec fn only_match(table: Seq<FileView>, identifier: Seq<char>, row: FileView) -> bool {
    &&& exists|i: int| 0 <= i < table.len() && #[trigger] table[i] == row
    &&& row.short_id == Some(identifier) || row.file_id == identifier
    &&& forall|i: int|
        0 <= i < table.len() && ((#[trigger] table[i]).short_id == Some(identifier)
            || table[i].file_id == identifier) ==> table[i] == row
}

proof fn lemma_adding(
    table: Seq<FileView>,
    file: FileView,
    ids: Seq<Seq<char>>,
    outcomes: Seq<InsertOutcome>,
)
    requires
        forall|i: int| 0 <= i < table.len() ==> (#[trigger] table[i]).file_id != file.file_id,
        forall|i: int|
            0 <= i < ids.len() ==> is_short_id(#[trigger] ids[i], SHORT_ID_LENGTH as nat),
        outcomes.len() < ids.len(),
        adding_was_answered(table, file, ids, outcomes),
    ensures
        ({
            let s = adding(table, file, ids, outcomes);
            &&& 1 <= s.0 <= INSERT_ATTEMPTS
            &&& is_short_id(s.1, SHORT_ID_LENGTH as nat)
            &&& match s.2 {
                IndexActionView::Insert { short_id } => short_id == s.1 && s.3 == table,
                IndexActionView::Fail { .. } => s.3 == table,
                IndexActionView::Done { short_id } => {
                    &&& short_id == s.1
                    &&& s.3 == table.push(with_short_id(file, short_id))
                    &&& !clashes_in(table, with_short_id(file, short_id))
                },
                IndexActionView::Update { .. } => false,
            }
        }),
    decreases outcomes.len(),
{
    if outcomes.len() > 0 {
        lemma_adding(table, file, ids, outcomes.drop_last());
        assert(is_short_id(ids[outcomes.len() as int], SHORT_ID_LENGTH as nat));
    } else {
        assert(is_short_id(ids[0], SHORT_ID_LENGTH as nat));
    }
}

/// A file that is added to the index reads back. For a file that is not yet
/// there: once it is reported as added, under a short identifier that no other
/// file had, the table holds one row more and is else unchanged, and both the
/// short identifier and that of the file find that row and no other. As long
/// as it is not, and when it is given up, the table is as it was. The table
/// is the server's; `answers` and `only_match` describe it.
pub proof fn added_files_read_back(
    table: Seq<FileView>,
    file: FileView,
    ids: Seq<Seq<char>>,
    outcomes: Seq<InsertOutcome>,
)
    requires
        is_index(table),
        file.file_id.contains(':'),
        forall|i: int| 0 <= i < table.len() ==> (#[trigger] table[i]).file_id != file.file_id,
        forall|i: int|
            0 <= i < ids.len() ==> is_short_id(#[trigger] ids[i], SHORT_ID_LENGTH as nat),
        outcomes.len() < ids.len(),
        adding_was_answered(table, file, ids, outcomes),
    ensures
        match adding(table, file, ids, outcomes).2 {
            IndexActionView::Done { short_id } => {
                let row = with_short_id(file, short_id);
                let after = adding(table, file, ids, outcomes).3;
                &&& is_short_id(short_id, SHORT_ID_LENGTH as nat)
                &&& forall|i: int|
                    0 <= i < table.len() ==> (#[trigger] table[i]).short_id != Some(short_id)
                &&& after == table.push(row)
                &&& is_index(after)
                &&& only_match(after, short_id, row)
                &&& only_match(after, file.file_id, row)
            },
            IndexActionView::Update { .. } => false,
            _ => adding(table, file, ids, outcomes).3 == table,
        },
{
    lemma_adding(table, file, ids, outcomes);
    let s = adding(table, file, ids, outcomes);
    if let IndexActionView::Done { short_id } = s.2 {
        let row = with_short_id(file, short_id);
        lemma_no_colon(short_id);
        assert forall|i: int| 0 <= i < table.len() implies (#[trigger] table[i]).short_id != Some(
            short_id,
        ) by {
            assert(!rows_clash(table[i], row));
        }
        assert(s.3[table.len() as int] == row);
        assert forall|i: int| 0 <= i < s.3.len() && i != table.len() implies {
            &&& (#[trigger] s.3[i]).short_id != Some(short_id)
            &&& s.3[i].file_id != short_id
            &&& s.3[i].short_id != Some(file.file_id)
            &&& s.3[i].file_id != file.file_id
        } by {
            assert(s.3[i] == table[i]);
            if let Some(other) = table[i].short_id {
                lemma_no_colon(other);
            }
        }
    }
}

/// Adding a file that is there under a short identifier gives that one again
/// and changes nothing, unless the database fails.
pub proof fn known_files_keep_their_short_id(
    table: Seq<FileView>,
    file: FileView,
    ids: Seq<Seq<char>>,
    outcome: InsertOutcome,
    known: int,
)
    requires
        forall|i: int, j: int|
            0 <= i < j < table.len() ==> !rows_clash(#[trigger] table[i], #[trigger] table[j]),
        0 <= known < table.len(),
        table[known].file_id == file.file_id,
        table[known].short_id is Some,
        table[known].short_id->0.len() > 0,
        adding_was_answered(table, file, ids, seq![outcome]),
    ensures
        ({
            let s = adding(table, file, ids, seq![outcome]);
            &&& s.3 == table
            &&& outcome is Failed || s.2 == (IndexActionView::Done {
                short_id: table[known].short_id->0,
            })
        }),
{
    reveal_with_fuel(adding, 2);
    reveal_with_fuel(adding_was_answered, 2);
    assert(seq![outcome].drop_last() =~= Seq::<InsertOutcome>::empty());
    let row = with_short_id(file, ids[0]);
    assert(rows_clash(table[known], row));
    if let InsertOutcome::Conflict(Some(s)) = outcome {
        let i = choose|i: int|
            0 <= i < table.len() && (#[trigger] table[i]).file_id == row.file_id
                && table[i].short_id == Some(s@);
        if i < known {
            assert(!rows_clash(table[i], table[known]));
        } else if known < i {
            assert(!rows_clash(table[known], table[i]));
        }
    }
}

proof fn lemma_no_colon(s: Seq<char>)
    requires
        is_short_id(s, s.len()),
    ensures
        !s.contains(':'),
{
    reveal_strlit("abcdefghijklmnopqrstuvwxyzABCDEFGHIJKLMNOPQRSTUVWXYZ0123456789");
    if s.contains(':') {
        let i = choose|i: int| 0 <= i < s.len() && s[i] == ':';
        assert(SHORT_ID_CHARS@.contains(s[i]));
        let j = choose|j: int| 0 <= j < SHORT_ID_CHARS@.len() && SHORT_ID_CHARS@[j] == ':';
        assert(SHORT_ID_CHARS@[j] == ':');
    }
}

/// The pattern that the identifiers of the files of a message match.
pub fn message_pattern(message_id: i64) -> (r: String)
    ensures
        r@ == decimal_int(message_id as int) + ":%"@,
        r@ == message_prefix(message_id as int) + "%"@,
{
    proof {
        reveal_strlit(":");
        reveal_strlit("%");
        reveal_strlit(":%");
        assert(decimal_int(message_id as int) + ":%"@ =~= message_prefix(message_id as int)
            + "%"@);
    }
    join(decimal_i64(message_id).as_str(), ":%")
}

/// A value without white space around it, if anything is left of it.
pub fn norm(v: Option<&str>) -> (r: Option<String>)
    ensures
        opt_view(r) == not_blank(opt_str_view(v)),
{
    match v {
        Some(s) => {
            let t: String = trim(s);
            if t.as_str().is_empty() {
                None
            } else {
                Some(t)
            }
        },
        None => None,
    }
}

/// The row of the settings table.
#[derive(Debug)]
pub struct SettingsRow {
    pub bot_token: Option<String>,
    pub channel_name: Option<String>,
    pub picgo_api_key: Option<String>,
    pub base_url: Option<String>,
}

/// `row` holds the settings of `m`, without white space around them, and none
/// that is blank.
pub open spec fn row_of(m: Map<Seq<char>, Option<Seq<char>>>, row: SettingsRow) -> bool {
    &&& opt_view(row.bot_token) == not_blank(setting(m, "BOT_TOKEN"@))
    &&& opt_view(row.channel_name) == not_blank(setting(m, "CHANNEL_NAME"@))
    &&& opt_view(row.picgo_api_key) == not_blank(setting(m, "PICGO_API_KEY"@))
    &&& opt_view(row.base_url) == not_blank(setting(m, "BASE_URL"@))
}

/// The settings in a row.
pub open spec fn settings_of(row: SettingsRow) -> Map<Seq<char>, Option<Seq<char>>> {
    Map::empty().insert("BOT_TOKEN"@, opt_view(row.bot_token)).insert(
        "CHANNEL_NAME"@,
        opt_view(row.channel_name),
    ).insert("PICGO_API_KEY"@, opt_view(row.picgo_api_key)).insert(
        "BASE_URL"@,
        opt_view(row.base_url),
    )
}

fn normed(payload: &AppSettingsMap, name: &str) -> (r: Option<String>)
    ensures
        opt_view(r) == not_blank(setting(payload@, name@)),
{
    match payload.get(name) {
        Some(s) => norm(Some(s.as_str())),
        None => None,
    }
}

/// The row that stores the settings.
pub fn save_app_settings_to_db(payload: &AppSettingsMap) -> (r: SettingsRow)
    ensures
        row_of(payload@, r),
{
    SettingsRow {
        bot_token: normed(payload, "BOT_TOKEN"),
        channel_name: normed(payload, "CHANNEL_NAME"),
        picgo_api_key: normed(payload, "PICGO_API_KEY"),
        base_url: normed(payload, "BASE_URL"),
    }
}

/// The row that stores no setting at all.
pub fn reset_app_settings_in_db() -> (r: SettingsRow)
    ensures
        r.bot_token is None,
        r.channel_name is None,
        r.picgo_api_key is None,
        r.base_url is None,
{
    let mut payload: AppSettingsMap = AppSettingsMap::new();
    payload.insert("BOT_TOKEN", None);
    payload.insert("CHANNEL_NAME", None);
    payload.insert("PICGO_API_KEY", None);
    payload.insert("BASE_URL", None);
    save_app_settings_to_db(&payload)
}

/// The settings in a row; none at all if there is no row.
pub fn get_app_settings_from_db(row: &Option<SettingsRow>) -> (r: AppSettingsMap)
    ensures
        r@ == match *row {
            Some(w) => settings_of(w),
            None => Map::<Seq<char>, Option<Seq<char>>>::empty(),
        },
{
    let mut out: AppSettingsMap = AppSettingsMap::new();
    if let Some(w) = row {
        out.insert("BOT_TOKEN", opt_copy(&w.bot_token));
        out.insert("CHANNEL_NAME", opt_copy(&w.channel_name));
        out.insert("PICGO_API_KEY", opt_copy(&w.picgo_api_key));
        out.insert("BASE_URL", opt_copy(&w.base_url));
    }
    out
}

/// The names of the four settings differ.
pub proof fn lemma_setting_names()
    ensures
        "BOT_TOKEN"@ != "CHANNEL_NAME"@,
        "BOT_TOKEN"@ != "PICGO_API_KEY"@,
        "BOT_TOKEN"@ != "BASE_URL"@,
        "CHANNEL_NAME"@ != "PICGO_API_KEY"@,
        "CHANNEL_NAME"@ != "BASE_URL"@,
        "PICGO_API_KEY"@ != "BASE_URL"@,
{
    reveal_strlit("BOT_TOKEN");
    reveal_strlit("CHANNEL_NAME");
    reveal_strlit("PICGO_API_KEY");
    reveal_strlit("BASE_URL");
    assert("BOT_TOKEN"@.len() == 9);
    assert("CHANNEL_NAME"@.len() == 12);
    assert("PICGO_API_KEY"@.len() == 13);
    assert("BASE_URL"@.len() == 8);
}

/// Each of the four settings reads back from the row that it was saved in,
/// without white space around it, and as none if it was blank; and what was
/// read back is saved as the same row.
pub proof fn saved_settings_read_back(m: Map<Seq<char>, Option<Seq<char>>>, row: SettingsRow)
    requires
        row_of(m, row),
    ensures
        setting(settings_of(row), "BOT_TOKEN"@) == not_blank(setting(m, "BOT_TOKEN"@)),
        setting(settings_of(row), "CHANNEL_NAME"@) == not_blank(setting(m, "CHANNEL_NAME"@)),
        setting(settings_of(row), "PICGO_API_KEY"@) == not_blank(setting(m, "PICGO_API_KEY"@)),
        setting(settings_of(row), "BASE_URL"@) == not_blank(setting(m, "BASE_URL"@)),
        row_of(settings_of(row), row),
{
    lemma_setting_names();
    lemma_not_blank_again(setting(m, "BOT_TOKEN"@));
    lemma_not_blank_again(setting(m, "CHANNEL_NAME"@));
    lemma_not_blank_again(setting(m, "PICGO_API_KEY"@));
    lemma_not_blank_again(setting(m, "BASE_URL"@));
}

proof fn lemma_not_blank_again(v: Option<Seq<char>>)
    ensures
        not_blank(not_blank(v)) == not_blank(v),
{
    match v {
        Some(s) => {
            lemma_trimmed(s);
        },
        None => {},
    }
}

/// A setting that was saved with a value is in force with that value.
pub proof fn saved_settings_take_effect(
    settings: Settings,
    m: Map<Seq<char>, Option<Seq<char>>>,
    row: SettingsRow,
    name: Seq<char>,
)
    requires
        row_of(m, row),
        name == "BOT_TOKEN"@ || name == "CHANNEL_NAME"@ || name == "PICGO_API_KEY"@ || name
            == "BASE_URL"@,
        not_blank(setting(m, name)) is Some,
    ensures
        setting(overlaid(env_settings(settings), settings_of(row)), name) == not_blank(
            setting(m, name),
        ),
{
    saved_settings_read_back(m, row);
    lemma_not_blank_again(setting(m, name));
}

/// After a reset, the settings of the environment are in force again.
pub proof fn reset_restores_the_environment(settings: Settings, row: SettingsRow)
    requires
        row.bot_token is None,
        row.channel_name is None,
        row.picgo_api_key is None,
        row.base_url is None,
    ensures
        overlaid(env_settings(settings), settings_of(row)) == env_settings(settings),
{
    lemma_setting_names();
    empty_database_leaves_environment(env_settings(settings), settings_of(row));
}

/// A table: the names of its columns, and its rows.
#[verifier::ext_equal]
pub struct TableModel<R> {
    pub columns: Seq<Seq<char>>,
    pub rows: Seq<R>,
}

/// The database, with the tables that it has.
#[verifier::ext_equal]
pub struct DatabaseModel {
    pub files: Option<TableModel<FileView>>,
    pub settings: Option<TableModel<SettingsRow>>,
    pub logins: Option<Seq<OidcLoginState>>,
    pub sessions: Option<Seq<AuthSession>>,
}

/// The row of the settings table before anything is saved.
pub open spec fn blank_settings() -> SettingsRow {
    SettingsRow { bot_token: None, channel_name: None, picgo_api_key: None, base_url: None }
}

/// A table as it is, or a new one with these columns.
pub open spec fn table_or_new<R>(
    table: Option<TableModel<R>>,
    columns: Seq<Seq<char>>,
) -> TableModel<R> {
    match table {
        Some(t) => t,
        None => TableModel { columns, rows: Seq::empty() },
    }
}

/// Rows as they are, or none.
pub open spec fn rows_or_none<R>(rows: Option<Seq<R>>) -> Seq<R> {
    match rows {
        Some(r) => r,
        None => Seq::empty(),
    }
}

/// The database after a start of the server: tables that are missing are
/// created, the settings get a row if they have none, and the tables get the
/// columns that `init_db` finds missing. This describes the statements that
/// the server runs; the library only chooses those of the migration.
pub open spec fn started(db: DatabaseModel) -> DatabaseModel {
    let files = table_or_new(
        db.files,
        seq!["id"@, "filename"@, "file_id"@, "filesize"@, "upload_date"@, "short_id"@],
    );
    let settings = table_or_new(
        db.settings,
        seq!["id"@, "bot_token"@, "channel_name"@, "pass_word"@, "picgo_api_key"@, "base_url"@],
    );
    let m = migration(files.columns, settings.columns);
    DatabaseModel {
        files: Some(
            TableModel {
                columns: columns_after(files.columns, m.0, "short_id"@),
                rows: files.rows,
            },
        ),
        settings: Some(
            TableModel {
                columns: columns_after(settings.columns, m.1, "session_token"@),
                rows: if settings.rows.len() == 0 {
                    seq![blank_settings()]
                } else {
                    settings.rows
                },
            },
        ),
        logins: Some(rows_or_none(db.logins)),
        sessions: Some(rows_or_none(db.sessions)),
    }
}

/// A start of the server loses and resets nothing: every row that was there is
/// there again, and a second start changes nothing at all. A new database
/// holds no file, no login, no session, and none of the four settings.
pub proof fn starts_lose_nothing(db: DatabaseModel)
    ensures
        started(started(db)) == started(db),
        started(db).files->0.rows == (match db.files {
            Some(t) => t.rows,
            None => Seq::empty(),
        }),
        db.settings matches Some(t) && t.rows.len() > 0 ==> started(db).settings->0.rows
            == db.settings->0.rows,
        db.settings is None ==> started(db).settings->0.rows == seq![blank_settings()],
        started(db).logins == Some(rows_or_none(db.logins)),
        started(db).sessions == Some(rows_or_none(db.sessions)),
        settings_of(blank_settings()) == Map::<Seq<char>, Option<Seq<char>>>::empty().insert(
            "BOT_TOKEN"@,
            None,
        ).insert("CHANNEL_NAME"@, None).insert("PICGO_API_KEY"@, None).insert("BASE_URL"@, None),
{
    let files = table_or_new(
        db.files,
        seq!["id"@, "filename"@, "file_id"@, "filesize"@, "upload_date"@, "short_id"@],
    );
    let settings = table_or_new(
        db.settings,
        seq!["id"@, "bot_token"@, "channel_name"@, "pass_word"@, "picgo_api_key"@, "base_url"@],
    );
    second_starts_alter_nothing(files.columns, settings.columns);
    assert(started(started(db)) =~= started(db));
}

/// A point in time `ttl_secs` after another, as text, if the calendar reaches
/// it.
pub fn expiry(now_secs: i64, now_nanos: u32, ttl_secs: i64) -> (r: Option<String>)
    ensures
        opt_view(r) == if i64::MIN <= now_secs + ttl_secs <= i64::MAX {
            rfc3339_text((now_secs + ttl_secs) as i64, now_nanos)
        } else {
            None
        },
        0 <= now_secs + ttl_secs <= CALENDAR_END_SECS && now_nanos < 1_000_000_000 ==> r is Some,
{
    match now_secs.checked_add(ttl_secs) {
        Some(t) => rfc3339(t, now_nanos),
        None => None,
    }
}

/// The point in time `ttl_secs` from now, as text. Both the login states and
/// the sessions are stored with such a text, and a session gets a new one
/// whenever it is found, so that it slides. There is such a text unless the
/// clock stands so near to an end of the calendar that the point in time lies
/// behind it.
pub fn expires_in(ttl_secs: i64) -> (r: Option<String>)
    ensures
        exists|secs: i64, nanos: u32|
            #![trigger rfc3339_text((secs + ttl_secs) as i64, nanos)]
            0 <= secs <= CALENDAR_END_SECS && nanos < 1_000_000_000 && opt_view(r) == (if i64::MIN
                <= secs + ttl_secs <= i64::MAX {
                rfc3339_text((secs + ttl_secs) as i64, nanos)
            } else {
                None
            }) && (0 <= secs + ttl_secs <= CALENDAR_END_SECS ==> r is Some),
        ttl_secs == 0 ==> r is Some,
{
    let (secs, nanos): (i64, u32) = clock();
    expiry(secs, nanos, ttl_secs)
}

/// A session that ends at `expires_at` is still good.
pub open spec fn is_current(expires_at: int, now: int) -> bool {
    now < expires_at
}

/// When a session ends after requests at the times `visits`, each of which
/// sets its end anew, given when it ended before; none once a request came
/// too late. This describes what the queries of the server do to a row of the
/// session table; no function of the library looks a session up.
pub open spec fn session_end(expires_at: int, visits: Seq<int>, ttl: int) -> Option<int>
    decreases visits.len(),
{
    if visits.len() == 0 {
        Some(expires_at)
    } else {
        match session_end(expires_at, visits.drop_last(), ttl) {
            Some(end) => if is_current(end, visits.last()) {
                Some(visits.last() + ttl)
            } else {
                None
            },
            None => None,
        }
    }
}

/// Whether a request at `now` finds the session that `session_end` describes.
pub open spec fn session_found(expires_at: int, visits: Seq<int>, ttl: int, now: int) -> bool {
    session_end(expires_at, visits, ttl) matches Some(end) && is_current(end, now)
}

/// Who comes back before a session's age is over stays logged in, for ever:
/// a session that begins at `start` survives any row of requests in which
/// each follows the one before in less than the session's age. It speaks of
/// the session table as `session_end` describes it.
pub proof fn visits_keep_a_session_alive(start: int, visits: Seq<int>, ttl: int)
    requires
        ttl > 0,
        visits.len() > 0 ==> visits[0] < start + ttl,
        forall|i: int| 0 < i < visits.len() ==> #[trigger] visits[i] < visits[i - 1] + ttl,
    ensures
        session_end(start + ttl, visits, ttl) == Some(
            if visits.len() == 0 {
                start + ttl
            } else {
                visits.last() + ttl
            },
        ),
    decreases visits.len(),
{
    if visits.len() > 0 {
        let rest = visits.drop_last();
        assert forall|i: int| 0 < i < rest.len() implies #[trigger] rest[i] < rest[i - 1]
            + ttl by {
            assert(visits[i] < visits[i - 1] + ttl);
        }
        visits_keep_a_session_alive(start, rest, ttl);
        if rest.len() > 0 {
            assert(visits[visits.len() - 1] < visits[visits.len() - 2] + ttl);
        }
    }
}

/// Who comes back too late has to log in again: once a request finds the
/// session over, no later one revives it. It speaks of the session table as
/// `session_end` describes it.
pub proof fn late_visits_end_a_session(expires_at: int, visits: Seq<int>, late: int, ttl: int)
    requires
        session_end(expires_at, visits, ttl) matches Some(end) ==> !is_current(end, late),
    ensures
        session_end(expires_at, visits.push(late), ttl) is None,
        forall|more: int| session_end(expires_at, #[trigger] visits.push(late).push(more), ttl) is None,
{
    assert(visits.push(late).drop_last() =~= visits);
    assert forall|more: int| session_end(
        expires_at,
        #[trigger] visits.push(late).push(more),
        ttl,
    ) is None by {
        assert(visits.push(late).push(more).drop_last() =~= visits.push(late));
    }
}

/// A row of the table of logins: the login and when it ends.
pub struct LoginEntry {
    pub login: LoginStateView,
    pub expires_at: int,
}

/// What happens to the table of logins.
pub enum LoginTableEvent {
    /// A login is saved.
    Saved { row: LoginRowView, at: int },
    /// The login with this state is asked for, once and for all.
    Taken { state: Seq<char>, at: int },
}

/// The logins that have not ended. Each access removes the others first.
pub open spec fn current_logins(table: Map<Seq<char>, LoginEntry>, now: int) -> Map<
    Seq<char>,
    LoginEntry,
> {
    Map::new(
        |k: Seq<char>| table.dom().contains(k) && is_current(table[k].expires_at, now),
        |k: Seq<char>| table[k],
    )
}

/// The table of logins after one was saved. A state that is there is not
/// overwritten.
pub open spec fn login_saved(table: Map<Seq<char>, LoginEntry>, row: LoginRowView, at: int) -> Map<
    Seq<char>,
    LoginEntry,
> {
    let current = current_logins(table, at);
    if current.dom().contains(row.state) {
        current
    } else {
        current.insert(
            row.state,
            LoginEntry { login: row.login, expires_at: at + row.ttl_secs },
        )
    }
}

/// The login that is found under a state: one that has not ended.
pub open spec fn login_found(
    table: Map<Seq<char>, LoginEntry>,
    state: Seq<char>,
    now: int,
) -> Option<LoginStateView> {
    if table.dom().contains(state) && is_current(table[state].expires_at, now) {
        Some(table[state].login)
    } else {
        None
    }
}

/// The table of logins after one was asked for: it is gone, found or not.
pub open spec fn login_taken(
    table: Map<Seq<char>, LoginEntry>,
    state: Seq<char>,
    now: int,
) -> Map<Seq<char>, LoginEntry> {
    current_logins(table, now).remove(state)
}

/// The table of logins after all that happened to it, from an empty one on.
/// This and the functions above describe what the queries of the server do.
pub open spec fn login_table(history: Seq<LoginTableEvent>) -> Map<Seq<char>, LoginEntry>
    decreases history.len(),
{
    if history.len() == 0 {
        Map::empty()
    } else {
        let before = login_table(history.drop_last());
        match history.last() {
            LoginTableEvent::Saved { row, at } => login_saved(before, row, at),
            LoginTableEvent::Taken { state, at } => login_taken(before, state, at),
        }
    }
}

/// The `i`th event saved a login under the state, and it was not asked for
/// since.
pub open spec fn unused_since(history: Seq<LoginTableEvent>, state: Seq<char>, i: int) -> bool {
    &&& 0 <= i < history.len()
    &&& history[i] is Saved
    &&& history[i]->row.state == state
    &&& forall|j: int|
        i < j < history.len() ==> !((#[trigger] history[j]) matches LoginTableEvent::Taken {
            state: s,
            ..
        } && s == state)
}

/// The `i`th event saved a login under the state that is still good: it was
/// not asked for since, and it has not ended.
pub open spec fn is_open_login(
    history: Seq<LoginTableEvent>,
    state: Seq<char>,
    now: int,
    i: int,
) -> bool {
    &&& unused_since(history, state, i)
    &&& is_current(history[i]->Saved_at + history[i]->row.ttl_secs, now)
}

proof fn lemma_login_table(history: Seq<LoginTableEvent>, state: Seq<char>) -> (i: int)
    requires
        login_table(history).dom().contains(state),
    ensures
        unused_since(history, state, i),
        login_table(history)[state] == (LoginEntry {
            login: history[i]->row.login,
            expires_at: history[i]->Saved_at + history[i]->row.ttl_secs,
        }),
    decreases history.len(),
{
    let rest = history.drop_last();
    let last = history.len() - 1;
    let before = login_table(rest);
    if let LoginTableEvent::Saved { row, at } = history.last() {
        if row.state == state && !current_logins(before, at).dom().contains(state) {
            return last;
        }
    }
    assert(before.dom().contains(state));
    let i = lemma_login_table(rest, state);
    assert(history[i] == rest[i]);
    assert forall|j: int| i < j < history.len() implies !((#[trigger] history[j])
        matches LoginTableEvent::Taken { state: s, .. } && s == state) by {
        if j < last {
            assert(history[j] == rest[j]);
        }
    }
    i
}

/// A login is found only if it was saved under its state, was not asked for
/// since, and has not ended; and it is the login that was saved. So a state
/// that was never saved, that is too old or that was used finds nothing.
pub proof fn found_logins_are_open(history: Seq<LoginTableEvent>, state: Seq<char>, now: int)
    ensures
        login_found(login_table(history), state, now) matches Some(login) ==> exists|i: int|
            #[trigger] is_open_login(history, state, now, i) && history[i]->row.login == login,
{
    if login_found(login_table(history), state, now) is Some {
        let i = lemma_login_table(history, state);
        assert(is_open_login(history, state, now, i));
    }
}

/// A login is good once: whatever the first time found, a second time finds
/// nothing. Other logins are found as before.
pub proof fn logins_are_good_once(
    table: Map<Seq<char>, LoginEntry>,
    state: Seq<char>,
    now: int,
    later: int,
)
    ensures
        login_found(login_taken(table, state, now), state, later) is None,
        forall|other: Seq<char>|
            other != state && now <= later ==> #[trigger] login_found(
                login_taken(table, state, now),
                other,
                later,
            ) == login_found(table, other, later),
{
}

/// A login that was saved under a new state is found until it ends, and not
/// from then on.
pub proof fn saved_logins_are_good_for_a_while(
    table: Map<Seq<char>, LoginEntry>,
    row: LoginRowView,
    at: int,
    now: int,
)
    requires
        login_found(table, row.state, at) is None,
    ensures
        login_found(login_saved(table, row, at), row.state, now) == if now < at + row.ttl_secs {
            Some(row.login)
        } else {
            None
        },
{
}

/// The database lies in the data directory, under one name, with one slash
/// before it.
pub proof fn databases_lie_in_their_directory(dir: Seq<char>)
    ensures
        dir.len() > 0 && dir.last() != '/' ==> path_in(dir) == dir + "/file_metadata.db"@,
        dir.len() > 0 && dir.last() == '/' ==> path_in(dir) == dir + "file_metadata.db"@,
        dir.len() == 0 ==> path_in(dir) == "file_metadata.db"@,
{
    reveal_strlit("/");
    reveal_strlit("file_metadata.db");
    reveal_strlit("/file_metadata.db");
    if dir.len() > 0 {
        assert(dir.subrange(dir.len() - 1, dir.len() as int) =~= seq![dir.last()]);
        assert(ends(dir, "/"@) <==> dir.last() == '/') by {
            assert("/"@ =~= seq!['/']);
            if ends(dir, "/"@) {
                assert(dir.subrange(dir.len() - 1, dir.len() as int)[0] == '/');
            }
        }
        assert(dir + "/"@ + DB_FILE@ =~= dir + "/file_metadata.db"@);
    } else {
        assert(path_in(dir) =~= "file_metadata.db"@);
    }
}

/// A table gets the column that it lacks, and only then.
pub proof fn tables_get_the_column_they_lack(files: Seq<Seq<char>>, settings: Seq<Seq<char>>)
    ensures
        migration(files, settings).0 is Some <==> !files.contains("short_id"@),
        migration(files, settings).1 is Some <==> !settings.contains("session_token"@),
        migration(files, settings).0 matches Some(s) ==> begins(s, "ALTER TABLE files "@) && ends(
            s,
            "ADD COLUMN short_id TEXT"@,
        ),
        migration(files, settings).1 matches Some(s) ==> begins(s, "ALTER TABLE app_settings "@)
            && ends(s, "ADD COLUMN session_token TEXT"@),
{
    reveal_strlit("ALTER TABLE files ADD COLUMN short_id TEXT");
    reveal_strlit("ALTER TABLE app_settings ADD COLUMN session_token TEXT");
    reveal_strlit("ALTER TABLE files ");
    reveal_strlit("ALTER TABLE app_settings ");
    reveal_strlit("ADD COLUMN short_id TEXT");
    reveal_strlit("ADD COLUMN session_token TEXT");
    let a = "ALTER TABLE files ADD COLUMN short_id TEXT"@;
    let b = "ALTER TABLE app_settings ADD COLUMN session_token TEXT"@;
    assert(a.subrange(0, 18) =~= "ALTER TABLE files "@);
    assert(a.subrange(18, 42) =~= "ADD COLUMN short_id TEXT"@);
    assert(b.subrange(0, 25) =~= "ALTER TABLE app_settings "@);
    assert(b.subrange(25, 54) =~= "ADD COLUMN session_token TEXT"@);
}

/// The characters of short identifiers are the letters and digits of ASCII,
/// each of them once.
pub proof fn short_ids_are_letters_and_digits(c: char)
    ensures
        SHORT_ID_CHARS@.len() == 62,
        SHORT_ID_CHARS@.contains(c) <==> 'a' <= c <= 'z' || 'A' <= c <= 'Z' || '0' <= c <= '9',
{
    reveal_strlit("abcdefghijklmnopqrstuvwxyzABCDEFGHIJKLMNOPQRSTUVWXYZ0123456789");
    let s = SHORT_ID_CHARS@;
    let n = c as int;
    assert forall|i: int| 0 <= i < 62 implies s[i] as int == if i < 26 {
        97 + i
    } else if i < 52 {
        65 + i - 26
    } else {
        48 + i - 52
    } by {}
    if 'a' <= c <= 'z' {
        assert(s[n - 97] == c);
    } else if 'A' <= c <= 'Z' {
        assert(s[n - 65 + 26] == c);
    } else if '0' <= c <= '9' {
        assert(s[n - 48 + 52] == c);
    }
}

/// Different places give different short identifiers, of the same length.
pub proof fn short_ids_are_different(a: Seq<usize>, b: Seq<usize>)
    requires
        forall|i: int| 0 <= i < a.len() ==> (#[trigger] a[i]) < 62,
        forall|i: int| 0 <= i < b.len() ==> (#[trigger] b[i]) < 62,
        short_id_of(a) == short_id_of(b),
    ensures
        a == b,
        short_id_of(a).len() == a.len(),
{
    reveal_strlit("abcdefghijklmnopqrstuvwxyzABCDEFGHIJKLMNOPQRSTUVWXYZ0123456789");
    let s = SHORT_ID_CHARS@;
    assert forall|i: int| 0 <= i < 62 implies #[trigger] s[i] as int == if i < 26 {
        97 + i
    } else if i < 52 {
        65 + i - 26
    } else {
        48 + i - 52
    } by {}
    assert(short_id_of(a).len() == a.len());
    assert(short_id_of(b).len() == b.len());
    assert forall|i: int| 0 <= i < a.len() implies a[i] == b[i] by {
        assert(short_id_of(a)[i] == s[a[i] as int]);
        assert(short_id_of(b)[i] == s[b[i] as int]);
    }
    assert(a =~= b);
}

/// A file whose row lacks a short identifier gets the one that was drawn; one
/// that cannot be inserted is tried again under another, five times in all.
pub proof fn insertions_are_tried_again(
    attempts: u32,
    short_id: Seq<char>,
    fresh: Seq<char>,
    known: String,
)
    ensures
        known@.len() == 0 ==> after_insert(
            attempts,
            short_id,
            InsertOutcome::Conflict(Some(known)),
            fresh,
        ).2 == (IndexActionView::Update { short_id: fresh }),
        known@.len() > 0 ==> after_insert(
            attempts,
            short_id,
            InsertOutcome::Conflict(Some(known)),
            fresh,
        ).2 == (IndexActionView::Done { short_id: known@ }),
        attempts < 5 ==> after_insert(attempts, short_id, InsertOutcome::Conflict(None), fresh) == (
            attempts + 1,
            fresh,
            IndexActionView::Insert { short_id: fresh },
        ),
        attempts >= 5 ==> after_insert(
            attempts,
            short_id,
            InsertOutcome::Conflict(None),
            fresh,
        ).2 is Fail,
        after_insert(attempts, short_id, InsertOutcome::Inserted, fresh).2
            == (IndexActionView::Done { short_id }),
        after_insert(attempts, short_id, InsertOutcome::Failed(known), fresh).2
            == (IndexActionView::Fail { reason: known@ }),
{
}

/// What the identifiers of the files of a message begin with.
pub open spec fn message_prefix(message_id: int) -> Seq<char> {
    decimal_int(message_id) + ":"@
}

/// The pattern of a message matches the identifiers of its own files and no
/// others.
pub proof fn patterns_match_their_message(message_id: int, other: int, file_id: Seq<char>)
    ensures
        begins(composite_text(other, file_id), message_prefix(message_id)) <==> message_id
            == other,
{
    reveal_strlit(":");
    let p = message_prefix(message_id);
    let c = composite_text(other, file_id);
    let m = decimal_int(message_id);
    let o = decimal_int(other);
    lemma_decimal_int(message_id);
    lemma_decimal_int(other);
    if message_id == other {
        assert(c.subrange(0, p.len() as int) =~= p);
    }
    if begins(c, p) {
        let head = c.subrange(0, p.len() as int);
        if m.len() < o.len() {
            assert(head[m.len() as int] == ':');
            assert(c[m.len() as int] == o[m.len() as int]);
            assert(is_digit(o[m.len() as int]) || o[m.len() as int] == '-');
        } else if m.len() > o.len() {
            assert(head[o.len() as int] == m[o.len() as int]);
            assert(c[o.len() as int] == ':');
            assert(is_digit(m[o.len() as int]) || m[o.len() as int] == '-');
        } else {
            assert forall|i: int| 0 <= i < m.len() implies m[i] == o[i] by {
                assert(head[i] == p[i]);
            }
            assert(m =~= o);
        }
    }
}

/// Each column of the settings row is the setting of its name, stored without
/// the white space around it; a blank one is stored as none.
pub proof fn columns_are_their_settings(m: Map<Seq<char>, Option<Seq<char>>>, row: SettingsRow)
    requires
        row_of(m, row),
    ensures
        column_is(setting(m, "BOT_TOKEN"@), row.bot_token),
        column_is(setting(m, "CHANNEL_NAME"@), row.channel_name),
        column_is(setting(m, "PICGO_API_KEY"@), row.picgo_api_key),
        column_is(setting(m, "BASE_URL"@), row.base_url),
{
    values_count_unless_blank(setting(m, "BOT_TOKEN"@));
    values_count_unless_blank(setting(m, "CHANNEL_NAME"@));
    values_count_unless_blank(setting(m, "PICGO_API_KEY"@));
    values_count_unless_blank(setting(m, "BASE_URL"@));
}

/// The column holds the value, without the white space around it, if there is
/// more to it than white space.
pub open spec fn column_is(value: Option<Seq<char>>, column: Option<String>) -> bool {
    if value is Some && !all_space(value->0) {
        column is Some && column->0@ == trimmed(value->0)
    } else {
        column is None
    }
}

/// A row that is read gives each of the four settings its column, and no
/// other setting.
pub proof fn rows_give_four_settings(row: SettingsRow, name: Seq<char>)
    ensures
        setting(settings_of(row), "BOT_TOKEN"@) == opt_view(row.bot_token),
        setting(settings_of(row), "CHANNEL_NAME"@) == opt_view(row.channel_name),
        setting(settings_of(row), "PICGO_API_KEY"@) == opt_view(row.picgo_api_key),
        setting(settings_of(row), "BASE_URL"@) == opt_view(row.base_url),
        settings_of(row).dom().contains(name) <==> name == "BOT_TOKEN"@ || name == "CHANNEL_NAME"@
            || name == "PICGO_API_KEY"@ || name == "BASE_URL"@,
{
    lemma_setting_names();
}

/// What an insertion goes by afterwards: the identifier that was drawn last,
/// and no more attempts unless one was made. The fifth clash is the last.
pub proof fn insertions_remember_their_identifier(
    attempts: u32,
    short_id: Seq<char>,
    fresh: Seq<char>,
    known: String,
)
    ensures
        after_insert(attempts, short_id, InsertOutcome::Inserted, fresh).0 == attempts,
        after_insert(attempts, short_id, InsertOutcome::Inserted, fresh).1 == short_id,
        after_insert(attempts, short_id, InsertOutcome::Failed(known), fresh).0 == attempts,
        after_insert(attempts, short_id, InsertOutcome::Failed(known), fresh).1 == short_id,
        after_insert(attempts, short_id, InsertOutcome::Conflict(Some(known)), fresh).0
            == attempts,
        after_insert(attempts, short_id, InsertOutcome::Conflict(Some(known)), fresh).1
            == if known@.len() == 0 {
            fresh
        } else {
            short_id
        },
        attempts >= 5 ==> after_insert(attempts, short_id, InsertOutcome::Conflict(None), fresh)
            == (
            attempts as int,
            short_id,
            IndexActionView::Fail { reason: "Failed to generate unique short_id"@ },
        ),
{
}

} // verus!

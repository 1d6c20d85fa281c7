//! What the pages show.
use vstd::prelude::*;
use vstd::string::*;
use vstd::utf8::*;

use crate::config::AppSettingsMap;
use crate::config::setting;
use crate::database::FileMetadata;
use crate::database::FileView;
use crate::outside::lowercase;
use crate::outside::percent_bytes;
use crate::outside::percent_encode;
use crate::outside::to_lowercase;
use crate::sizes::bytes_text;
use crate::sizes::filesize_mb;
use crate::sizes::format_bytes;
use crate::sizes::mib_text;
use crate::text::all_space;
use crate::text::ascii_lower;
use crate::text::before;
use crate::text::blank;
use crate::text::endings_are_behind;
use crate::text::ends;
use crate::text::ends_with;
use crate::text::first_part;
use crate::text::is_blank;
use crate::text::join;
use crate::text::join3;
use crate::text::opt_str_view;
use crate::text::or_empty;
use crate::text::parts_around_a_character;
use crate::text::repeated;
use crate::text::text_or_empty;
use crate::text::trailing_characters_go;
use crate::text::trim_end_matches;
use crate::text::trimming_cuts_white_space_alone;
use crate::text::views;
use crate::text::without_trailing;

verus! {

/// What every page of the administration knows of the bot.
#[derive(Debug)]
pub struct PageCfg {
    pub bot_ready: bool,
    pub bot_running: bool,
    /// The settings that the bot lacks.
    pub missing: Vec<String>,
}

/// The settings that the bot lacks.
pub open spec fn missing_settings(m: Map<Seq<char>, Option<Seq<char>>>) -> Seq<Seq<char>> {
    let token = if blank(or_empty(setting(m, "BOT_TOKEN"@))) {
        seq!["BOT_TOKEN"@]
    } else {
        Seq::empty()
    };
    let channel = if blank(or_empty(setting(m, "CHANNEL_NAME"@))) {
        seq!["CHANNEL_NAME"@]
    } else {
        Seq::empty()
    };
    token + channel
}

/// What every page of the administration knows of the bot. It is ready if it
/// lacks nothing.
pub fn page_cfg(app_settings: &AppSettingsMap, bot_running: bool) -> (r: PageCfg)
    ensures
        views(r.missing@) == missing_settings(app_settings@),
        r.bot_ready == (missing_settings(app_settings@).len() == 0),
        r.bot_running == bot_running,
{
    let mut missing: Vec<String> = Vec::new();
    if is_blank(app_settings.text("BOT_TOKEN").as_str()) {
        missing.push(String::from_str("BOT_TOKEN"));
    }
    if is_blank(app_settings.text("CHANNEL_NAME").as_str()) {
        missing.push(String::from_str("CHANNEL_NAME"));
    }
    proof {
        assert(views(missing@) =~= missing_settings(app_settings@));
    }
    PageCfg { bot_ready: missing.len() == 0, bot_running, missing }
}

/// The identifier that a file is shown under: the short one if it has one.
pub open spec fn shown_id(f: FileView) -> Seq<char> {
    match f.short_id {
        Some(s) => if s.len() > 0 {
            s
        } else {
            f.file_id
        },
        None => f.file_id,
    }
}

/// The identifier that a file is shown under.
pub fn display_id(f: &FileMetadata) -> (r: String)
    ensures
        r@ == shown_id(f@),
{
    match &f.short_id {
        Some(s) if !s.as_str().is_empty() => String::from_str(s.as_str()),
        _ => String::from_str(f.file_id.as_str()),
    }
}

/// A file as the lists show it.
#[derive(Debug)]
pub struct ListedFile {
    pub file_id: String,
    pub short_id: String,
    pub filename: String,
    pub filesize: i64,
    pub filesize_mb: String,
    pub upload_date: String,
    pub upload_date_short: String,
    pub display_id: String,
}

/// `l` is how the lists show the file `f`.
pub open spec fn lists(f: FileView, l: ListedFile) -> bool {
    &&& l.file_id@ == f.file_id
    &&& l.short_id@ == or_empty(f.short_id)
    &&& l.filename@ == f.filename
    &&& l.filesize == f.filesize
    &&& l.filesize_mb@ == mib_text(f.filesize)
    &&& l.upload_date@ == f.upload_date
    &&& l.upload_date_short@ == before(f.upload_date, ' ')
    &&& l.display_id@ == shown_id(f)
}

/// How the lists show files, in the same order.
pub fn enrich_files(files: &Vec<FileMetadata>) -> (r: Vec<ListedFile>)
    ensures
        r@.len() == files@.len(),
        forall|i: int| 0 <= i < r@.len() ==> lists(files@[i]@, #[trigger] r@[i]),
{
    let mut out: Vec<ListedFile> = Vec::new();
    let mut i: usize = 0;
    while i < files.len()
        invariant
            i <= files@.len(),
            out@.len() == i,
            forall|j: int| 0 <= j < i ==> lists(files@[j]@, #[trigger] out@[j]),
        decreases files@.len() - i,
    {
        let f: &FileMetadata = &files[i];
        out.push(
            ListedFile {
                file_id: String::from_str(f.file_id.as_str()),
                short_id: text_or_empty(&f.short_id),
                filename: String::from_str(f.filename.as_str()),
                filesize: f.filesize,
                filesize_mb: filesize_mb(f.filesize),
                upload_date: String::from_str(f.upload_date.as_str()),
                upload_date_short: first_part(f.upload_date.as_str(), ' '),
                display_id: display_id(f),
            },
        );
        i += 1;
    }
    out
}

/// A name in lower case that ends like one of an image.
pub open spec fn has_image_ending(lowered: Seq<char>) -> bool {
    ||| ends(lowered, ".jpg"@)
    ||| ends(lowered, ".jpeg"@)
    ||| ends(lowered, ".png"@)
    ||| ends(lowered, ".gif"@)
    ||| ends(lowered, ".webp"@)
    ||| ends(lowered, ".svg"@)
    ||| ends(lowered, ".bmp"@)
    ||| ends(lowered, ".ico"@)
    ||| ends(lowered, ".tiff"@)
}

/// Whether a name in lower case ends like one of an image.
pub fn has_image_extension(lowered: &str) -> (r: bool)
    ensures
        r == has_image_ending(lowered@),
{
    ends_with(lowered, ".jpg") || ends_with(lowered, ".jpeg") || ends_with(lowered, ".png")
        || ends_with(lowered, ".gif") || ends_with(lowered, ".webp") || ends_with(lowered, ".svg")
        || ends_with(lowered, ".bmp") || ends_with(lowered, ".ico") || ends_with(lowered, ".tiff")
}

/// Whether a file is an image, by its name.
pub fn is_image(filename: &str) -> (r: bool)
    ensures
        r == has_image_ending(lowercase(filename@)),
        is_ascii_chars(filename@) ==> r == has_image_ending(ascii_lower(filename@)),
{
    has_image_extension(to_lowercase(filename).as_str())
}

/// The views of a list of files.
pub open spec fn file_views(files: Seq<FileMetadata>) -> Seq<FileView> {
    files.map_values(|f: FileMetadata| f@)
}

/// The images among the files, in the same order.
pub open spec fn images_among(files: Seq<FileView>) -> Seq<FileView>
    decreases files.len(),
{
    if files.len() == 0 {
        Seq::empty()
    } else if has_image_ending(lowercase(files.last().filename)) {
        images_among(files.drop_last()).push(files.last())
    } else {
        images_among(files.drop_last())
    }
}

/// The files that are marked, in the same order.
pub open spec fn marked(files: Seq<FileView>, marks: Seq<bool>) -> Seq<FileView>
    decreases files.len(),
{
    if files.len() == 0 || files.len() != marks.len() {
        Seq::empty()
    } else if marks.last() {
        marked(files.drop_last(), marks.drop_last()).push(files.last())
    } else {
        marked(files.drop_last(), marks.drop_last())
    }
}

/// The files that are marked, in the same order.
pub fn marked_files(files: &Vec<FileMetadata>, marks: &Vec<bool>) -> (r: Vec<FileMetadata>)
    requires
        files@.len() == marks@.len(),
    ensures
        file_views(r@) == marked(file_views(files@), marks@),
{
    let mut out: Vec<FileMetadata> = Vec::new();
    let mut i: usize = 0;
    let ghost all = file_views(files@);
    proof {
        assert(file_views(out@) =~= marked(all.take(0), marks@.take(0)));
    }
    while i < files.len()
        invariant
            i <= files@.len(),
            files@.len() == marks@.len(),
            all == file_views(files@),
            file_views(out@) == marked(all.take(i as int), marks@.take(i as int)),
        decreases files@.len() - i,
    {
        let ghost done = out@;
        proof {
            assert(all.take(i + 1).drop_last() =~= all.take(i as int));
            assert(all.take(i + 1).last() == files@[i as int]@);
            assert(marks@.take(i + 1).drop_last() =~= marks@.take(i as int));
            assert(marks@.take(i + 1).last() == marks@[i as int]);
        }
        if marks[i] {
            let f: FileMetadata = files[i].copy();
            out.push(f);
            proof {
                assert(file_views(out@) =~= file_views(done).push(f@));
            }
        }
        i += 1;
    }
    proof {
        assert(all.take(i as int) =~= all);
        assert(marks@.take(i as int) =~= marks@);
    }
    out
}

/// Marks by which the images are marked.
spec fn marks_images(files: Seq<FileView>, marks: Seq<bool>) -> bool {
    &&& files.len() == marks.len()
    &&& forall|i: int|
        0 <= i < marks.len() ==> #[trigger] marks[i] == has_image_ending(
            lowercase(files[i].filename),
        )
}

proof fn lemma_marked_images(files: Seq<FileView>, marks: Seq<bool>)
    requires
        marks_images(files, marks),
    ensures
        marked(files, marks) == images_among(files),
    decreases files.len(),
{
    if files.len() > 0 {
        assert(marks.last() == marks[marks.len() - 1]);
        assert forall|i: int| 0 <= i < marks.drop_last().len() implies #[trigger] marks.drop_last()[i]
            == has_image_ending(lowercase(files.drop_last()[i].filename)) by {
            assert(marks.drop_last()[i] == marks[i]);
        }
        lemma_marked_images(files.drop_last(), marks.drop_last());
    }
}

/// The images among the files, in the same order.
pub fn image_hosting(files: &Vec<FileMetadata>) -> (r: Vec<FileMetadata>)
    ensures
        file_views(r@) == images_among(file_views(files@)),
{
    let mut marks: Vec<bool> = Vec::new();
    let mut i: usize = 0;
    while i < files.len()
        invariant
            i <= files@.len(),
            marks@.len() == i,
            forall|j: int|
                0 <= j < i ==> #[trigger] marks@[j] == has_image_ending(
                    lowercase(files@[j].filename@),
                ),
        decreases files@.len() - i,
    {
        marks.push(is_image(files[i].filename.as_str()));
        i += 1;
    }
    proof {
        lemma_marked_images(file_views(files@), marks@);
    }
    marked_files(files, &marks)
}

/// The size of all files together.
pub open spec fn sum_of_sizes(files: Seq<FileView>) -> int
    decreases files.len(),
{
    if files.len() == 0 {
        0
    } else {
        sum_of_sizes(files.drop_last()) + files.last().filesize
    }
}

/// The sizes can be added up, one after the other, in 64 bits.
pub open spec fn sizes_add_up(files: Seq<FileView>) -> bool {
    forall|k: int|
        0 <= k <= files.len() ==> i64::MIN <= sum_of_sizes(#[trigger] files.take(k)) <= i64::MAX
}

/// The size of all files together, if it can be added up.
pub fn total_size(files: &Vec<FileMetadata>) -> (r: Option<i64>)
    ensures
        r == if sizes_add_up(file_views(files@)) {
            Some(sum_of_sizes(file_views(files@)) as i64)
        } else {
            None
        },
{
    let ghost all = file_views(files@);
    let mut sum: i64 = 0;
    let mut i: usize = 0;
    while i < files.len()
        invariant
            i <= files@.len(),
            all == file_views(files@),
            sum == sum_of_sizes(all.take(i as int)),
            forall|k: int|
                0 <= k <= i ==> i64::MIN <= sum_of_sizes(#[trigger] all.take(k)) <= i64::MAX,
        decreases files@.len() - i,
    {
        proof {
            assert(all.take(i + 1).drop_last() =~= all.take(i as int));
            assert(all.take(i + 1).last() == files@[i as int]@);
        }
        match sum.checked_add(files[i].filesize) {
            Some(s) => {
                sum = s;
            },
            None => {
                return None;
            },
        }
        i += 1;
    }
    proof {
        assert(all.take(i as int) =~= all);
    }
    Some(sum)
}

/// The figures of a list of files.
#[derive(Debug)]
pub struct FileStats {
    pub total_count: usize,
    pub visible_count: usize,
    pub image_count: usize,
    pub total_size: i64,
    pub total_size_human: String,
}

/// The figures of a list of files.
pub fn file_stats(files: &Vec<FileMetadata>, visible_count: usize) -> (r: FileStats)
    requires
        sizes_add_up(file_views(files@)),
    ensures
        r.total_count == files@.len(),
        r.visible_count == visible_count,
        r.image_count == images_among(file_views(files@)).len(),
        r.total_size == sum_of_sizes(file_views(files@)),
        r.total_size_human@ == bytes_text(r.total_size),
{
    let mut total: i64 = 0;
    if let Some(t) = total_size(files) {
        total = t;
    }
    let images: Vec<FileMetadata> = image_hosting(files);
    proof {
        assert(file_views(images@).len() == images@.len());
        assert(files@.len() == file_views(files@).len());
        assert(sizes_add_up(file_views(files@)));
        let all = file_views(files@);
        assert(all.take(all.len() as int) =~= all);
    }
    FileStats {
        total_count: files.len(),
        visible_count,
        image_count: images.len(),
        total_size: total,
        total_size_human: format_bytes(total),
    }
}

/// Whether the front page is the welcome page: as long as no access secret is
/// set.
pub fn index_shows_welcome(active_password: Option<&str>) -> (r: bool)
    ensures
        r == blank(or_empty(opt_str_view(active_password))),
        r == welcomes(opt_str_view(active_password)),
{
    match active_password {
        Some(p) => is_blank(p),
        None => true,
    }
}

/// A file as its share page shows it.
#[derive(Debug)]
pub struct SharedFile {
    pub filename: String,
    pub filesize: i64,
    pub filesize_mb: String,
    pub upload_date: String,
    pub upload_date_short: String,
    pub file_url: String,
    pub html_code: String,
    pub markdown_code: String,
}

/// Where a file is downloaded, below the public address of the site if that
/// is set.
pub open spec fn file_address(base_url: Seq<char>, f: FileView) -> Seq<char> {
    without_trailing(base_url, '/') + "/d/"@ + shown_id(f) + "/"@ + percent_bytes(
        encode_utf8(f.filename),
    )
}

/// What the share page of a file shows, and the path of that page.
pub fn share_page(f: &FileMetadata, base_url: &str, file_id: &str) -> (r: (SharedFile, String))
    ensures
        r.0.filename@ == f@.filename,
        r.0.filesize == f@.filesize,
        r.0.filesize_mb@ == mib_text(f@.filesize),
        r.0.upload_date@ == f@.upload_date,
        r.0.upload_date_short@ == before(f@.upload_date, ' '),
        r.0.file_url@ == file_address(base_url@, f@),
        r.0.html_code@ == "<a href=\""@ + file_address(base_url@, f@) + "\">"@ + f@.filename
            + "</a>"@,
        r.0.markdown_code@ == "["@ + f@.filename + "]("@ + file_address(base_url@, f@) + ")"@,
        r.1@ == "/share/"@ + file_id@,
{
    let base: String = trim_end_matches(base_url, '/');
    let id: String = display_id(f);
    let name: &str = f.filename.as_str();
    let head: String = join3(base.as_str(), "/d/", id.as_str());
    let url: String = join3(head.as_str(), "/", percent_encode(name).as_str());
    let open_tag: String = join3("<a href=\"", url.as_str(), "\">");
    let html_code: String = join3(open_tag.as_str(), name, "</a>");
    let label: String = join3("[", name, "](");
    let markdown_code: String = join3(label.as_str(), url.as_str(), ")");
    (
        SharedFile {
            filename: String::from_str(name),
            filesize: f.filesize,
            filesize_mb: filesize_mb(f.filesize),
            upload_date: String::from_str(f.upload_date.as_str()),
            upload_date_short: first_part(f.upload_date.as_str(), ' '),
            file_url: url,
            html_code,
            markdown_code,
        },
        join("/share/", file_id),
    )
}

/// Every file on the image page is an image of the index, and every image of
/// the index is on it.
pub proof fn image_page_shows_the_images(files: Seq<FileView>)
    ensures
        images_among(files).len() <= files.len(),
        forall|f: FileView| #[trigger]
            images_among(files).contains(f) <==> files.contains(f) && has_image_ending(
                lowercase(f.filename),
            ),
    decreases files.len(),
{
    if files.len() > 0 {
        let rest = files.drop_last();
        let last = files.last();
        image_page_shows_the_images(rest);
        let images = images_among(files);
        let fewer = images_among(rest);
        assert(files =~= rest.push(last));
        assert forall|f: FileView| #[trigger]
            images.contains(f) <==> files.contains(f) && has_image_ending(
                lowercase(f.filename),
            ) by {
            if rest.contains(f) {
                let i = choose|i: int| 0 <= i < rest.len() && rest[i] == f;
                assert(files[i] == f);
            }
            if files.contains(f) && f != last {
                let i = choose|i: int| 0 <= i < files.len() && files[i] == f;
                assert(rest[i] == f);
            }
            assert(files[files.len() - 1] == last);
            if fewer.contains(f) {
                let i = choose|i: int| 0 <= i < fewer.len() && fewer[i] == f;
                assert(images[i] == f);
            }
            if images.contains(f) && f != last {
                let i = choose|i: int| 0 <= i < images.len() && images[i] == f;
                assert(fewer[i] == f);
            }
            if has_image_ending(lowercase(last.filename)) {
                assert(images[images.len() - 1] == last);
            }
        }
    }
}

/// The bot lacks its token if that is not set or white space alone, its
/// channel likewise, and nothing else. The token comes first.
pub proof fn bots_lack_what_is_not_set(m: Map<Seq<char>, Option<Seq<char>>>)
    ensures
        missing_settings(m).contains("BOT_TOKEN"@) <==> !(setting(m, "BOT_TOKEN"@) matches Some(v)
            && !all_space(v)),
        missing_settings(m).contains("CHANNEL_NAME"@) <==> !(setting(
            m,
            "CHANNEL_NAME"@,
        ) matches Some(v) && !all_space(v)),
        forall|name: Seq<char>| #[trigger]
            missing_settings(m).contains(name) ==> name == "BOT_TOKEN"@ || name == "CHANNEL_NAME"@,
        missing_settings(m).no_duplicates(),
        missing_settings(m).len() > 1 ==> missing_settings(m)[0] == "BOT_TOKEN"@,
{
    reveal_strlit("BOT_TOKEN");
    reveal_strlit("CHANNEL_NAME");
    assert("BOT_TOKEN"@[0] == 'B');
    assert("CHANNEL_NAME"@[0] == 'C');
    trimming_cuts_white_space_alone(or_empty(setting(m, "BOT_TOKEN"@)));
    trimming_cuts_white_space_alone(or_empty(setting(m, "CHANNEL_NAME"@)));
    let missing = missing_settings(m);
    if blank(or_empty(setting(m, "BOT_TOKEN"@))) {
        assert(missing[0] == "BOT_TOKEN"@);
    }
    if blank(or_empty(setting(m, "CHANNEL_NAME"@))) {
        assert(missing[missing.len() - 1] == "CHANNEL_NAME"@);
    }
}

/// A file is shown under its short identifier if that is not empty, else under
/// its own.
pub proof fn files_are_shown_by_their_short_id(f: FileView)
    ensures
        f.short_id matches Some(s) && s.len() > 0 ==> Some(shown_id(f)) == f.short_id,
        !(f.short_id matches Some(s) && s.len() > 0) ==> shown_id(f) == f.file_id,
{
}

/// The endings of image names.
pub open spec fn image_endings() -> Seq<Seq<char>> {
    seq![
        ".jpg"@,
        ".jpeg"@,
        ".png"@,
        ".gif"@,
        ".webp"@,
        ".svg"@,
        ".bmp"@,
        ".ico"@,
        ".tiff"@,
    ]
}

/// A name is one of an image if and only if it is something, or nothing, and
/// one of these endings behind it.
pub proof fn images_end_with_their_format(name: Seq<char>)
    ensures
        has_image_ending(name) <==> exists|stem: Seq<char>, k: int|
            0 <= k < 9 && name == #[trigger] (stem + image_endings()[k]),
{
    let all = image_endings();
    assert(all.len() == 9);
    endings_are_behind(name, ".jpg"@);
    endings_are_behind(name, ".jpeg"@);
    endings_are_behind(name, ".png"@);
    endings_are_behind(name, ".gif"@);
    endings_are_behind(name, ".webp"@);
    endings_are_behind(name, ".svg"@);
    endings_are_behind(name, ".bmp"@);
    endings_are_behind(name, ".ico"@);
    endings_are_behind(name, ".tiff"@);
    if has_image_ending(name) {
        let k: int = if ends(name, ".jpg"@) {
            0
        } else if ends(name, ".jpeg"@) {
            1
        } else if ends(name, ".png"@) {
            2
        } else if ends(name, ".gif"@) {
            3
        } else if ends(name, ".webp"@) {
            4
        } else if ends(name, ".svg"@) {
            5
        } else if ends(name, ".bmp"@) {
            6
        } else if ends(name, ".ico"@) {
            7
        } else {
            8
        };
        assert(ends(name, all[k]));
        endings_are_behind(name, all[k]);
        let stem = choose|stem: Seq<char>| name == #[trigger] (stem + all[k]);
        assert(name == stem + image_endings()[k]);
    }
    if exists|stem: Seq<char>, k: int| 0 <= k < 9 && name == #[trigger] (stem + image_endings()[k]) {
        let (stem, k) = choose|stem: Seq<char>, k: int|
            0 <= k < 9 && name == #[trigger] (stem + image_endings()[k]);
        endings_are_behind(name, all[k]);
        assert(ends(name, all[k]));
        assert(k == 0 || k == 1 || k == 2 || k == 3 || k == 4 || k == 5 || k == 6 || k == 7 || k
            == 8);
    }
}

/// The image page shows the files of the index in their order, each as often
/// as it stands there, but only the images.
pub proof fn image_pages_leave_out_the_rest(files: Seq<FileView>)
    ensures
        images_among(files) == files.filter(
            |f: FileView| has_image_ending(lowercase(f.filename)),
        ),
    decreases files.len(),
{
    reveal(Seq::filter);
    if files.len() > 0 {
        image_pages_leave_out_the_rest(files.drop_last());
    }
}

/// Lists that are put together are marked each for itself; of a single file,
/// the mark says whether it stays.
pub proof fn marks_select_their_files(
    files: Seq<FileView>,
    marks: Seq<bool>,
    f: FileView,
    mark: bool,
)
    requires
        files.len() == marks.len(),
    ensures
        marked(files.push(f), marks.push(mark)) == if mark {
            marked(files, marks).push(f)
        } else {
            marked(files, marks)
        },
        marked(Seq::empty(), Seq::empty()) == Seq::<FileView>::empty(),
{
    assert(files.push(f).drop_last() =~= files);
    assert(marks.push(mark).drop_last() =~= marks);
}

/// The size of two lists together is that of the one and that of the other,
/// and the size of a single file is its own.
pub proof fn sizes_are_added(a: Seq<FileView>, b: Seq<FileView>, f: FileView)
    ensures
        sum_of_sizes(a + b) == sum_of_sizes(a) + sum_of_sizes(b),
        sum_of_sizes(seq![f]) == f.filesize,
    decreases b.len(),
{
    assert(seq![f].drop_last() =~= Seq::<FileView>::empty());
    assert(sum_of_sizes(Seq::<FileView>::empty()) == 0);
    if b.len() > 0 {
        sizes_are_added(a, b.drop_last(), f);
        assert((a + b).drop_last() =~= a + b.drop_last());
        assert((a + b).last() == b.last());
    } else {
        assert(a + b =~= a);
    }
}

/// A file is downloaded below the public address, under its identifier and its
/// name; slashes behind the address do not count, and without an address the
/// path alone is left.
pub proof fn files_are_downloaded_below_the_site(site: Seq<char>, slashes: nat, f: FileView)
    requires
        site.len() > 0 ==> site.last() != '/',
    ensures
        file_address(site + repeated('/', slashes), f) == site + "/d/"@ + (
        if f.short_id is Some && f.short_id->0.len() > 0 {
            f.short_id->0
        } else {
            f.file_id
        }) + "/"@ + percent_bytes(encode_utf8(f.filename)),
{
    trailing_characters_go(site, '/', slashes);
}

/// A list shows a file as it is, with the day of its date: what stands before
/// the first space.
pub proof fn lists_show_files_as_they_are(
    f: FileView,
    l: ListedFile,
    day: Seq<char>,
    time: Seq<char>,
)
    requires
        lists(f, l),
        f.upload_date == day + seq![' '] + time,
        !day.contains(' '),
    ensures
        l.upload_date_short@ == day,
        l.upload_date@ == f.upload_date,
        l.file_id@ == f.file_id,
        l.filename@ == f.filename,
        l.filesize == f.filesize,
        f.short_id is None ==> l.short_id@.len() == 0,
        f.short_id matches Some(s) ==> l.short_id@ == s,
        l.display_id@ == if f.short_id is Some && f.short_id->0.len() > 0 {
            f.short_id->0
        } else {
            f.file_id
        },
{
    parts_around_a_character(day, ' ', time);
}

/// The front page is the welcome page.
pub open spec fn welcomes(password: Option<Seq<char>>) -> bool {
    blank(or_empty(password))
}

/// The front page is the welcome page unless an access secret is set that is
/// more than white space.
pub proof fn front_pages_welcome_without_a_secret(password: Option<Seq<char>>)
    ensures
        welcomes(password) <==> !(password matches Some(p) && !all_space(p)),
{
    trimming_cuts_white_space_alone(or_empty(password));
}

/// Sizes that are not negative add up if and only if all of them together fit
/// in 64 bits.
pub proof fn sizes_add_up_if_the_sum_fits(files: Seq<FileView>)
    requires
        forall|i: int| 0 <= i < files.len() ==> 0 <= (#[trigger] files[i]).filesize,
    ensures
        sizes_add_up(files) <==> sum_of_sizes(files) <= 0x7fff_ffff_ffff_ffff,
{
    assert(files.take(files.len() as int) =~= files);
    assert forall|k: int| 0 <= k <= files.len() implies 0 <= sum_of_sizes(#[trigger] files.take(k))
        <= sum_of_sizes(files) by {
        let a = files.take(k);
        let b = files.skip(k);
        assert(files =~= a + b);
        sizes_are_added(a, b, arbitrary());
        assert forall|i: int| 0 <= i < a.len() implies 0 <= (#[trigger] a[i]).filesize by {
            assert(a[i] == files[i]);
        }
        assert forall|i: int| 0 <= i < b.len() implies 0 <= (#[trigger] b[i]).filesize by {
            assert(b[i] == files[i + k]);
        }
        lemma_sum_is_not_negative(a);
        lemma_sum_is_not_negative(b);
    }
}

proof fn lemma_sum_is_not_negative(files: Seq<FileView>)
    requires
        forall|i: int| 0 <= i < files.len() ==> 0 <= (#[trigger] files[i]).filesize,
    ensures
        0 <= sum_of_sizes(files),
    decreases files.len(),
{
    if files.len() > 0 {
        let rest = files.drop_last();
        assert forall|i: int| 0 <= i < rest.len() implies 0 <= (#[trigger] rest[i]).filesize by {
            assert(rest[i] == files[i]);
        }
        lemma_sum_is_not_negative(rest);
        assert(files.last() == files[files.len() - 1]);
    }
}

} // verus!

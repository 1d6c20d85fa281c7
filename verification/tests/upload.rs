use tgstate::config::AppSettingsMap;
use tgstate::constants::{TELEGRAM_CHUNK_FILENAME_MARKER, TELEGRAM_CHUNK_SIZE};
use tgstate::filename::{base_of, extension_of, sanitize_filename};
use tgstate::routes::api_upload::{
    upload_field, upload_response, upload_service, Upload, UploadAction, UploadPhase,
};
use tgstate::telegram::bot_polling::should_skip_file_sync;
use tgstate::telegram::manifest::{body_lines, is_manifest};

fn sent(a: UploadAction) -> (Vec<u8>, String, Option<i64>) {
    match a {
        UploadAction::Send { data, name, reply_to } => (data, name, reply_to),
        other => panic!("{:?}", other),
    }
}

fn failure(a: UploadAction) -> String {
    match a {
        UploadAction::Fail { reason } => reason,
        other => panic!("{:?}", other),
    }
}

fn stored(a: UploadAction) -> (String, i64) {
    match a {
        UploadAction::Store { file_id, size } => (file_id, size),
        other => panic!("{:?}", other),
    }
}

fn id(s: &str) -> Option<String> {
    Some(s.to_string())
}

#[test]
fn upload_route_rejects_missing_file_field() {
    assert_eq!(upload_field(Some("note"), None), None);
    let e = upload_response(None).unwrap_err();
    assert_eq!(e.status, 400);
    assert_eq!(e.message, "未提供文件");
    assert_eq!(e.code, "no_file");
}

#[test]
fn empty_files_fail() {
    let mut u = Upload::start("a");
    assert!(matches!(u.receive(&[]), UploadAction::Read));
    assert_eq!(failure(u.end()), "文件为空");
    assert_eq!(u.phase(), UploadPhase::Done);
}

#[test]
fn small_files_go_whole() {
    let mut u = Upload::start("a.txt");
    assert!(u.fits(5));
    assert!(matches!(u.receive(b"hel"), UploadAction::Read));
    assert!(matches!(u.receive(b"lo"), UploadAction::Read));
    assert_eq!(u.total_size(), 5);
    assert_eq!(sent(u.end()), (b"hello".to_vec(), "a.txt".to_string(), None));
    assert_eq!(u.phase(), UploadPhase::Single);
    assert_eq!(stored(u.posted(3, id("F"))), ("3:F".to_string(), 5));

    let mut u = Upload::start("a.txt");
    u.receive(b"x");
    u.end();
    assert_eq!(failure(u.posted(3, None)), "No document in response");
}

#[test]
fn large_files_go_in_chunks() {
    let mut data: Vec<u8> = Vec::new();
    for i in 0..(2 * TELEGRAM_CHUNK_SIZE + 10) {
        data.push((i % 251) as u8);
    }
    let mut u = Upload::start("v.mp4");
    let mut pieces: Vec<u8> = Vec::new();

    let (d, n, r) = sent(u.receive(&data));
    assert_eq!((d.len(), n.as_str(), r), (TELEGRAM_CHUNK_SIZE, "v.mp4.tgstate-part1", None));
    pieces.extend(d);
    let (d, n, r) = sent(u.posted(100, id("A")));
    assert_eq!((d.len(), n.as_str(), r), (TELEGRAM_CHUNK_SIZE, "v.mp4.tgstate-part2", Some(100)));
    pieces.extend(d);
    assert!(matches!(u.posted(101, id("B")), UploadAction::Read));
    assert_eq!(u.phase(), UploadPhase::Reading);
    let (d, n, r) = sent(u.end());
    assert_eq!((d.len(), n.as_str(), r), (10, "v.mp4.tgstate-part3", Some(100)));
    assert_eq!(u.phase(), UploadPhase::LastChunk);
    assert!(n.contains(TELEGRAM_CHUNK_FILENAME_MARKER) && should_skip_file_sync(&n, 10));
    pieces.extend(d);
    assert!(pieces == data);

    let (d, n, r) = sent(u.posted(102, id("C")));
    assert_eq!((n.as_str(), r), ("v.mp4.manifest", Some(100)));
    assert!(should_skip_file_sync(&n, 10));
    assert!(is_manifest(&d));
    assert_eq!(body_lines(&d), vec!["tgstate-blob", "v.mp4", "100:A", "101:B", "102:C"]);
    assert_eq!(
        stored(u.posted(103, id("M"))),
        ("103:M".to_string(), data.len() as i64)
    );
}

#[test]
fn a_file_of_one_chunk_gets_a_manifest() {
    let data = vec![7u8; TELEGRAM_CHUNK_SIZE];
    let mut u = Upload::start("f");
    let (d, _, _) = sent(u.receive(&data));
    assert_eq!(d.len(), TELEGRAM_CHUNK_SIZE);
    assert!(matches!(u.posted(1, id("A")), UploadAction::Read));
    let (d, n, r) = sent(u.end());
    assert_eq!((n.as_str(), r), ("f.manifest", Some(1)));
    assert_eq!(d, b"tgstate-blob\nf\n1:A\n".to_vec());
    assert_eq!(failure(u.posted(2, None)), "No document in manifest response");
}

#[test]
fn chunks_without_a_document_fail() {
    let data = vec![7u8; TELEGRAM_CHUNK_SIZE + 1];
    let mut u = Upload::start("f");
    u.receive(&data);
    assert_eq!(failure(u.posted(1, None)), "No document in chunk response");
    let mut u = Upload::start("f");
    u.receive(&data);
    u.posted(1, id("A"));
    u.end();
    assert_eq!(failure(u.posted(2, None)), "No document in last chunk response");
}

#[test]
fn uploads_have_a_limit() {
    let mut u = Upload::start("f");
    assert!(!u.fits(usize::MAX));
    u.receive(b"x");
    assert!(!u.fits(isize::MAX as usize));
}

#[test]
fn file_names_are_made_safe() {
    assert_eq!(sanitize_filename("a.txt"), "a.txt");
    assert_eq!(sanitize_filename("/etc/passwd"), "passwd");
    assert_eq!(sanitize_filename("../x/"), "x");
    assert_eq!(sanitize_filename("a/."), "a");
    assert_eq!(sanitize_filename(".."), "upload");
    assert_eq!(sanitize_filename("a/.."), "upload");
    assert_eq!(sanitize_filename("."), "upload");
    assert_eq!(sanitize_filename(""), "upload");
    assert_eq!(sanitize_filename("///"), "upload");
    assert_eq!(sanitize_filename("a\u{0}b\n\u{7f}\u{85}c"), "abc");
    assert_eq!(sanitize_filename("\u{1}\u{2}"), "upload");
    assert_eq!(sanitize_filename("c:\\x"), "c:\\x");
    assert_eq!(sanitize_filename(&"a".repeat(255)), "a".repeat(255));
    assert_eq!(sanitize_filename(&"a".repeat(300)), "a".repeat(255));
    assert_eq!(sanitize_filename(&"文".repeat(85)), "文".repeat(85));
    assert_eq!(sanitize_filename(&"文".repeat(86)), "文".repeat(85));
    assert_eq!(
        sanitize_filename(&format!("{}😀", "a".repeat(252))),
        "a".repeat(252)
    );
}

#[test]
fn safe_names_stay_as_they_are() {
    for raw in ["a/b\u{1}c", "", "文/文", "x.tar.gz/", "..\u{2}.a"] {
        let once = sanitize_filename(raw);
        assert_eq!(sanitize_filename(&once), once);
        assert!(!once.is_empty() && once.len() <= 255);
        assert!(!once.contains('/') && !once.chars().any(|c| c.is_control()));
    }
    // Removing a control character can leave the name of a directory.
    assert_eq!(sanitize_filename("..\u{1}"), "..");
}

#[test]
fn names_agree_with_paths() {
    for raw in ["a", "a/b", "/a//b/", "./a", "a/./.", "..", "../..", "a..", ".a", "a.b/c.d", "/", "."] {
        let path = std::path::Path::new(raw);
        let name = path.file_name().and_then(|n| n.to_str()).map(|n| n.to_string());
        assert_eq!(base_of(raw), name, "{}", raw);
        let ext = path.extension().and_then(|n| n.to_str()).unwrap_or("");
        assert_eq!(extension_of(raw), ext, "{}", raw);
    }
    assert_eq!(extension_of("x.tar.gz"), "gz");
}

#[test]
fn upload_fields() {
    assert_eq!(upload_field(Some("file"), Some("d/a.txt")).as_deref(), Some("a.txt"));
    assert_eq!(upload_field(Some("file"), None).as_deref(), Some("upload"));
    assert_eq!(upload_field(None, Some("a")), None);
    assert_eq!(upload_field(Some("File"), Some("a")), None);
}

#[test]
fn uploads_need_a_bot() {
    let mut m = AppSettingsMap::new();
    m.insert("BOT_TOKEN", Some("t".to_string()));
    for channel in [None, Some(String::new())] {
        m.insert("CHANNEL_NAME", channel);
        let e = upload_service(&m).unwrap_err();
        assert_eq!(e.status, 503);
        assert_eq!(e.code, "cfg_missing");
        assert_eq!(e.message, "缺少 BOT_TOKEN 或 CHANNEL_NAME，无法上传");
    }
    m.insert("CHANNEL_NAME", Some("@c".to_string()));
    let s = upload_service(&m).unwrap();
    assert_eq!((s.bot_token.as_str(), s.channel_name.as_str()), ("t", "@c"));
}

#[test]
fn upload_responses() {
    let r = upload_response(Some(Ok("abc".to_string()))).unwrap();
    assert_eq!(r.file_id, "abc");
    assert_eq!(r.short_id, "abc");
    assert_eq!(r.download_path, "/d/abc");
    assert_eq!(r.path, "/d/abc");
    assert_eq!(r.url, "/d/abc");
    let e = upload_response(Some(Err("boom".to_string()))).unwrap_err();
    assert_eq!((e.status, e.code.as_str()), (500, "upload_failed"));
    assert_eq!(e.message, "文件上传失败");
}

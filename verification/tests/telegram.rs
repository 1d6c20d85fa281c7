use tgstate::constants;
use tgstate::error::AppErrorKind;
use tgstate::telegram::bot_polling::{
    file_added, get_updates, get_updates_request, handle_get_reply, handle_new_file, link_answer,
    manifest_answer, message_from_configured_channel, process_update, send_message_request,
    should_skip_file_sync, GetReply, NewFile, PollStep, Poller,
};
use tgstate::telegram::deletion::{
    chunk_tasks, original_name, ChunksJob, DeleteAction, DeleteResult, ManifestJob, MessageJob,
};
use tgstate::telegram::manifest::{body_lines, build_manifest, is_manifest};
use tgstate::telegram::request::{ApiRequest, Exchange, Param};
use tgstate::telegram::service::{
    composite_id, deletion_of, parse_composite_id, sanitize_bot_token_in_text, CompositeIdError,
    TelegramService,
};
use tgstate::telegram::types::{
    BotUser, Chat, Document, Message, PhotoSize, TelegramFile, TelegramResponse, Update,
};

fn service() -> TelegramService {
    TelegramService::new("123:abc".to_string(), "@chan".to_string())
}

fn message(id: i64) -> Message {
    Message {
        message_id: id,
        chat: Chat {
            id: -1001,
            username: Some("chan".to_string()),
        },
        text: None,
        document: None,
        photo: None,
        date: None,
        reply_to_message: None,
    }
}

fn with_document(id: i64, name: Option<&str>, size: Option<i64>) -> Message {
    let mut m = message(id);
    m.document = Some(Document {
        file_id: "F".to_string(),
        file_name: name.map(|s| s.to_string()),
        file_size: size,
    });
    m
}

fn with_photos(id: i64, sizes: &[i64]) -> Message {
    let mut m = message(id);
    m.photo = Some(
        sizes
            .iter()
            .map(|s| PhotoSize {
                file_id: format!("P{}", s),
                file_size: Some(*s),
                width: None,
                height: None,
            })
            .collect(),
    );
    m
}

fn param<'a>(r: &'a ApiRequest, name: &str) -> &'a Param {
    &r.params.iter().find(|p| p.0 == name).unwrap().1
}

fn is_text(p: &Param, s: &str) -> bool {
    matches!(p, Param::Text(t) if t == s)
}

fn is_number(p: &Param, n: i64) -> bool {
    matches!(p, Param::Number(m) if *m == n)
}

#[test]
fn telegram_bot_token_is_redacted_from_urls() {
    let token = "123456:secret-token";
    let err = "error sending request for url (https://api.telegram.org/bot123456:secret-token/getFile)";
    let redacted = sanitize_bot_token_in_text(err, token);
    assert!(!redacted.contains(token));
    assert!(redacted.contains("bot<redacted>"));
}

#[test]
fn redaction_in_detail() {
    assert_eq!(sanitize_bot_token_in_text("a 1:x b", ""), "a 1:x b");
    assert_eq!(sanitize_bot_token_in_text("a 1:x b", "1:x"), "a <redacted> b");
    assert_eq!(
        sanitize_bot_token_in_text("bot1:x/1:x1:x", "1:x"),
        "bot<redacted>/<redacted><redacted>"
    );
    assert_eq!(sanitize_bot_token_in_text("nothing here", "1:x"), "nothing here");
    // A token made of characters of the mark can come back in the mark.
    assert_eq!(sanitize_bot_token_in_text("red", "red"), "<redacted>");
    let text = "bot12:b bot12:bot12:b 12:b12:b bo12:b";
    assert_eq!(
        sanitize_bot_token_in_text(text, "12:b"),
        text.replace("12:b", "<redacted>")
    );
    assert_eq!(sanitize_bot_token_in_text("1bot1bot1", "1bot1"), "1bot<redacted>");
}

#[test]
fn bot_sync_skips_internal_chunk_files() {
    assert!(should_skip_file_sync("video.mp4.tgstate-part3", 1024));
}

#[test]
fn bot_sync_keeps_regular_small_part_named_files() {
    assert!(!should_skip_file_sync("archive.part3", 1024));
}

#[test]
fn bot_sync_skips_large_files_and_manifests() {
    assert!(should_skip_file_sync(
        "large.bin",
        constants::TELEGRAM_CHUNK_SIZE as i64
    ));
    assert!(should_skip_file_sync("large.bin.manifest", 512));
}

#[test]
fn bot_sync_boundaries() {
    assert_eq!(constants::TELEGRAM_CHUNK_SIZE, 20447232);
    assert!(!should_skip_file_sync("a", 20447231));
    assert!(!should_skip_file_sync("a", 0));
    assert!(should_skip_file_sync("a", -1));
    assert!(!should_skip_file_sync("manifest", 1));
    assert!(!should_skip_file_sync("a.manifest.txt", 1));
}

#[test]
fn composite_ids_read_back() {
    assert_eq!(composite_id(42, "a:b"), "42:a:b");
    assert_eq!(parse_composite_id("42:a:b"), Ok((42, "a:b".to_string())));
    assert_eq!(parse_composite_id(&composite_id(i64::MIN, "")), Ok((i64::MIN, String::new())));
    assert_eq!(parse_composite_id("+7:x"), Ok((7, "x".to_string())));
    assert_eq!(parse_composite_id("42"), Err(CompositeIdError::Format));
    assert_eq!(parse_composite_id(":x"), Err(CompositeIdError::MessageId));
    assert_eq!(parse_composite_id("-:x"), Err(CompositeIdError::MessageId));
    assert_eq!(parse_composite_id(" 1:x"), Err(CompositeIdError::MessageId));
    assert_eq!(
        parse_composite_id("9223372036854775808:x"),
        Err(CompositeIdError::MessageId)
    );
    assert_eq!(
        parse_composite_id("-9223372036854775808:x"),
        Ok((i64::MIN, "x".to_string()))
    );
}

#[test]
fn manifests_read_back() {
    let ids = vec!["1:a".to_string(), "2:b".to_string()];
    let text = build_manifest("视频.mp4", &ids);
    assert_eq!(text, "tgstate-blob\n视频.mp4\n1:a\n2:b\n");
    let body = text.into_bytes();
    assert!(is_manifest(&body));
    assert_eq!(body_lines(&body), vec!["tgstate-blob", "视频.mp4", "1:a", "2:b"]);
    assert!(!is_manifest(&b"tgstate-blob".to_vec()));
    assert!(!is_manifest(&b"tgstate-blab\n".to_vec()));
    assert_eq!(
        body_lines(&vec![b'a', 0xff, b'\r', b'\n', b'b', b'\r']),
        vec!["a\u{fffd}", "b\r"]
    );
}

#[test]
fn service_builds_requests() {
    let s = service();
    assert_eq!(s.api_url("getMe"), "https://api.telegram.org/bot123:abc/getMe");
    assert_eq!(
        s.file_url("docs/x.bin"),
        "https://api.telegram.org/file/bot123:abc/docs/x.bin"
    );
    assert_eq!(s.sanitize_error("at bot123:abc/x"), "at bot<redacted>/x");
    let r = s.get_file_request("FID");
    assert_eq!(r.url, "https://api.telegram.org/bot123:abc/getFile");
    assert_eq!(r.params.len(), 1);
    assert!(is_text(param(&r, "file_id"), "FID"));
    assert_eq!(r.timeout_secs, Some(30));
    let d = s.delete_message_request(7);
    assert_eq!(d.url, "https://api.telegram.org/bot123:abc/deleteMessage");
    assert!(is_text(param(&d, "chat_id"), "@chan"));
    assert!(is_number(param(&d, "message_id"), 7));
    assert_eq!(d.timeout_secs, Some(30));
    let f = s.send_document(vec![1, 2, 3], "photo.PNG", Some(-5));
    assert_eq!(f.url, "https://api.telegram.org/bot123:abc/sendDocument");
    assert_eq!(f.chat_id, "@chan");
    assert_eq!(f.file_name, "photo.PNG");
    assert_eq!(f.mime, "image/png");
    assert_eq!(f.data, vec![1, 2, 3]);
    assert_eq!(f.reply_to.as_deref(), Some("-5"));
    for plain in ["noext", ".png", "x.", "x.unknownext", "dir.png/.."] {
        let f = s.send_document(vec![], plain, None);
        assert_eq!(f.mime, "application/octet-stream", "{}", plain);
        assert_eq!(f.reply_to, None);
    }
    assert_eq!(s.send_document(vec![], "a.tar.gz", None).mime, "application/gzip");
}

fn file_answer(ok: bool, path: Option<&str>) -> Exchange<TelegramResponse<TelegramFile>> {
    Exchange::Answer(TelegramResponse {
        ok,
        result: Some(TelegramFile {
            file_id: "F".to_string(),
            file_path: path.map(|s| s.to_string()),
        }),
        description: None,
    })
}

#[test]
fn download_urls() {
    let s = service();
    assert_eq!(
        s.get_download_url(file_answer(true, Some("p"))),
        Ok(Some("https://api.telegram.org/file/bot123:abc/p".to_string()))
    );
    assert_eq!(s.get_download_url(file_answer(true, None)), Ok(None));
    assert_eq!(s.get_download_url(file_answer(false, Some("p"))), Ok(None));
    assert_eq!(
        s.get_download_url(Exchange::Answer(TelegramResponse {
            ok: true,
            result: None,
            description: None,
        })),
        Ok(None)
    );
    assert_eq!(
        s.get_download_url(Exchange::Failed("bot123:abc".to_string())),
        Err("getFile request failed: bot<redacted>".to_string())
    );
    assert_eq!(
        s.get_download_url(Exchange::Unreadable("bad".to_string())),
        Err("Parse error: bad".to_string())
    );
    assert_eq!(s.manifest_url(Ok(Some("u".to_string()))), Ok("u".to_string()));
    assert_eq!(s.manifest_url(Ok(None)), Err("No download URL".to_string()));
    assert_eq!(s.manifest_url(Err("e".to_string())), Err("e".to_string()));
    assert_eq!(BotUser { username: None }.username, None);
}

#[test]
fn sent_documents() {
    let s = service();
    let ok = |result, description: Option<&str>, ok| {
        Exchange::Answer(TelegramResponse {
            ok,
            result,
            description: description.map(|d| d.to_string()),
        })
    };
    assert_eq!(
        s.send_document_raw(ok(Some(message(9)), None, true)).unwrap().message_id,
        9
    );
    assert_eq!(
        s.send_document_raw(ok(None, None, true)).unwrap_err(),
        "No result in response"
    );
    assert_eq!(
        s.send_document_raw(ok(None, Some("too big"), false)).unwrap_err(),
        "sendDocument error: too big"
    );
    assert_eq!(
        s.send_document_raw(ok(Some(message(9)), None, false)).unwrap_err(),
        "sendDocument error: "
    );
    assert_eq!(
        s.send_document_raw(Exchange::Failed("x 123:abc".to_string())).unwrap_err(),
        "x <redacted>"
    );
    match s.sent_document(Exchange::Unreadable("y 123:abc".to_string())) {
        Err(AppErrorKind::Telegram(t)) => assert_eq!(t, "y <redacted>"),
        _ => panic!("no error"),
    }
    assert_eq!(AppErrorKind::Other("o".to_string()).into_message(), "o");
}

#[test]
fn deletions_of_messages() {
    let s = service();
    let reply = |t: &str| s.delete_message(Some(t.as_bytes().to_vec()));
    assert_eq!(reply("{\"ok\":true}"), (true, "deleted".to_string()));
    assert_eq!(
        reply("{\"ok\":false,\"description\":\"message to delete not found\"}"),
        (true, "not_found".to_string())
    );
    assert_eq!(
        reply("{\"ok\":false,\"description\":\"forbidden\"}"),
        (false, "error".to_string())
    );
    assert_eq!(reply("{\"ok\":\"true\"}"), (false, "error".to_string()));
    assert_eq!(reply("not json"), (false, "error".to_string()));
    assert_eq!(s.delete_message(None), (false, "error".to_string()));
    assert_eq!(
        deletion_of(None, &Some("chat not found".to_string())),
        (true, "not_found".to_string())
    );
    assert_eq!(deletion_of(Some(false), &None), (false, "error".to_string()));
}

fn fetching(id: &str) -> (String, ManifestJob) {
    match service().delete_file_with_chunks(id) {
        DeleteAction::Fetch { file_id, job } => (file_id, job),
        other => panic!("{:?}", other),
    }
}

fn clearing(action: DeleteAction) -> (Vec<Option<i64>>, ChunksJob) {
    match action {
        DeleteAction::DeleteChunks { messages, job } => (messages, job),
        other => panic!("{:?}", other),
    }
}

fn ending(action: DeleteAction) -> (i64, MessageJob) {
    match action {
        DeleteAction::DeleteMessage { message_id, job } => (message_id, job),
        other => panic!("{:?}", other),
    }
}

fn refused(action: DeleteAction) -> DeleteResult {
    match action {
        DeleteAction::Done(r) => r,
        other => panic!("{:?}", other),
    }
}

#[test]
fn deletions_need_an_identifier() {
    let s = service();
    let r = refused(s.delete_file_with_chunks("nope"));
    assert_eq!(r.status, "error");
    assert_eq!(r.reason, "Invalid file_id format");
    assert_eq!(r.main_file_id, "nope");
    let r = refused(s.delete_regular_file("x:y"));
    assert_eq!(r.reason, "Invalid message_id");
    assert!(!r.main_message_deleted && !r.is_manifest);
    let d = DeleteResult::default();
    assert_eq!(d.status, "");
    assert!(d.deleted_chunks.is_empty() && d.failed_chunks.is_empty());
}

#[test]
fn deletion_of_a_large_upload_reaches_every_chunk() {
    let ids = vec![composite_id(11, "a"), composite_id(12, "b"), composite_id(13, "c")];
    let body = build_manifest("f", &ids).into_bytes();
    let (file_id, j) = fetching("5:M");
    assert_eq!(file_id, "M");
    let (messages, j) = clearing(j.fetched(Some(body)));
    assert_eq!(messages, vec![Some(11), Some(12), Some(13)]);
    let (message_id, j) = ending(j.chunks_ended(&vec![Some(true), Some(false), None]));
    assert_eq!(message_id, 5);
    let r = j.finish((true, "deleted".to_string()));
    assert!(r.is_manifest);
    assert_eq!(r.deleted_chunks, vec!["11:a"]);
    assert_eq!(r.failed_chunks, vec!["12:b"]);
    assert_eq!(r.status, "partial_failure");
    assert!(r.main_message_deleted);
    assert_eq!(r.main_delete_reason, "deleted");
    assert_eq!(r.main_file_id, "5:M");
}

#[test]
fn deletions_succeed_or_fail() {
    let regular = || ending(service().delete_regular_file("5:F"));
    let (message_id, j) = regular();
    assert_eq!(message_id, 5);
    let r = j.finish((true, "not_found".to_string()));
    assert_eq!(r.status, "success");
    assert_eq!(r.main_delete_reason, "not_found");
    assert!(!r.is_manifest);
    let r = regular().1.finish((false, "error".to_string()));
    assert_eq!(r.status, "partial_failure");
    for (body, is_manifest) in [
        (None, false),
        (Some(b"plain".to_vec()), false),
        (Some(b"tgstate-blob\nf\n".to_vec()), true),
    ] {
        let (message_id, j) = ending(fetching("5:F").1.fetched(body));
        assert_eq!(message_id, 5);
        let r = j.finish((true, "deleted".to_string()));
        assert_eq!(r.is_manifest, is_manifest);
        assert_eq!(r.status, "success");
        assert!(r.deleted_chunks.is_empty() && r.failed_chunks.is_empty());
    }
}

#[test]
fn chunks_without_a_message_fail() {
    let lines: Vec<String> = ["h", "n", "3:x", "bad", "x:y", "4:z"]
        .iter()
        .map(|s| s.to_string())
        .collect();
    let tasks = chunk_tasks(&lines);
    assert_eq!(
        tasks.iter().map(|t| (t.id.clone(), t.message_id)).collect::<Vec<_>>(),
        vec![
            ("3:x".to_string(), Some(3)),
            ("bad".to_string(), None),
            ("x:y".to_string(), None),
            ("4:z".to_string(), Some(4))
        ]
    );
    let (messages, j) = clearing(fetching("5:M").1.read(Some(lines)));
    assert_eq!(messages, vec![Some(3), None, None, Some(4)]);
    let (_, j) = ending(j.chunks_ended(&vec![Some(true), Some(true), Some(false)]));
    let r = j.finish((true, "deleted".to_string()));
    assert_eq!(r.deleted_chunks, vec!["3:x"]);
    assert_eq!(r.failed_chunks, vec!["bad", "x:y"]);
    assert!(matches!(
        fetching("5:M").1.read(None),
        DeleteAction::DeleteMessage { message_id: 5, .. }
    ));
}

#[test]
fn names_in_manifests() {
    let s = service();
    let body = build_manifest("name.bin", &vec!["1:a".to_string()]).into_bytes();
    assert_eq!(
        s.try_get_manifest_original_filename(Exchange::Answer(body)),
        Ok("name.bin".to_string())
    );
    assert_eq!(
        s.try_get_manifest_original_filename(Exchange::Answer(b"x".to_vec())),
        Err("Not a manifest file".to_string())
    );
    assert_eq!(
        s.try_get_manifest_original_filename(Exchange::Answer(b"tgstate-blob\n".to_vec())),
        Err("Invalid manifest format".to_string())
    );
    assert_eq!(
        s.try_get_manifest_original_filename(Exchange::Failed("123:abc".to_string())),
        Err("Download manifest failed: <redacted>".to_string())
    );
    assert_eq!(
        s.try_get_manifest_original_filename(Exchange::Unreadable("123:abc".to_string())),
        Err("<redacted>".to_string())
    );
    let lines = vec!["h".to_string(), "n".to_string()];
    assert_eq!(original_name(true, &lines), Ok("n".to_string()));
    assert_eq!(original_name(false, &lines), Err("Not a manifest file".to_string()));
}

#[test]
fn channels_by_name_and_by_number() {
    let m = message(1);
    assert!(message_from_configured_channel(&m, "@chan"));
    assert!(message_from_configured_channel(&m, "@@chan"));
    assert!(!message_from_configured_channel(&m, "@other"));
    assert!(message_from_configured_channel(&m, "-1001"));
    assert!(!message_from_configured_channel(&m, "chan"));
    let mut anonymous = message(1);
    anonymous.chat.username = None;
    assert!(!message_from_configured_channel(&anonymous, "@chan"));
}

#[test]
fn new_files_of_the_channel() {
    let f = handle_new_file(&with_document(3, Some("a.txt"), Some(10)), "@chan").unwrap();
    assert_eq!(f.composite_id, "3:F");
    assert_eq!(f.file_name, "a.txt");
    assert_eq!(f.file_size, 10);
    let f = handle_new_file(&with_document(3, None, None), "@chan").unwrap();
    assert_eq!(f.file_name, "file_3");
    assert_eq!(f.file_size, 0);
    let f = handle_new_file(&with_photos(4, &[1, 9]), "@chan").unwrap();
    assert_eq!(f.composite_id, "4:P9");
    assert_eq!(f.file_name, "photo_4.jpg");
    assert_eq!(f.file_size, 9);
    assert!(handle_new_file(&with_photos(4, &[]), "@chan").is_none());
    assert!(handle_new_file(&message(4), "@chan").is_none());
    assert!(handle_new_file(&with_document(3, Some("a"), None), "@x").is_none());
    assert!(handle_new_file(&with_document(3, Some("a.manifest"), None), "@chan").is_none());
}

#[test]
fn events_of_new_files() {
    let f = NewFile {
        composite_id: "3:F".to_string(),
        file_name: "a".to_string(),
        file_size: 10,
        date: Some(0),
    };
    let e = file_added(&f, "sid");
    assert_eq!(e.action, "add");
    assert_eq!(e.file_id, "3:F");
    assert_eq!(e.filename.as_deref(), Some("a"));
    assert_eq!(e.filesize, Some(10));
    assert_eq!(e.upload_date.as_deref(), Some("1970-01-01T00:00:00+00:00"));
    assert_eq!(e.short_id.as_deref(), Some("sid"));
    for date in [None, Some(i64::MAX)] {
        let e = file_added(
            &NewFile {
                composite_id: String::new(),
                file_name: String::new(),
                file_size: 0,
                date,
            },
            "",
        );
        assert_eq!(e.upload_date.as_deref(), Some(""));
    }
}

fn reply(text: &str, to: Message) -> Message {
    let mut m = message(50);
    m.text = Some(text.to_string());
    m.reply_to_message = Some(Box::new(to));
    m
}

#[test]
fn get_replies() {
    let m = reply("get", with_document(3, Some("a b.txt"), None));
    match handle_get_reply(&m, "@chan", "https://h//") {
        GetReply::Say { chat_id, text } => {
            assert_eq!(chat_id, -1001);
            assert_eq!(text, "这是 'a b.txt' 的下载链接:\nhttps://h/d/3:F/a%20b%2Etxt");
        }
        other => panic!("{:?}", other),
    }
    match handle_get_reply(&m, "@chan", "") {
        GetReply::Say { text, .. } => assert_eq!(
            text,
            "这是 'a b.txt' 的下载路径 (请自行拼接域名):\n`/d/3:F/a%20b%2Etxt`"
        ),
        other => panic!("{:?}", other),
    }
    for nothing in [message(3), with_photos(3, &[])] {
        match handle_get_reply(&reply("get", nothing), "@chan", "") {
            GetReply::Say { text, .. } => assert_eq!(text, "请回复到一个文件/图片消息"),
            other => panic!("{:?}", other),
        }
    }
    match handle_get_reply(&reply("get", with_document(3, Some("x.manifest"), None)), "@chan", "") {
        GetReply::AskManifest { chat_id, file_id, composite_id } => {
            assert_eq!(chat_id, -1001);
            assert_eq!(file_id, "F");
            assert_eq!(composite_id, "3:F");
        }
        other => panic!("{:?}", other),
    }
    assert_eq!(
        manifest_answer("3:F", Ok("n".to_string()), "http://h"),
        link_answer("http://h", "3:F", "n")
    );
    assert_eq!(
        manifest_answer("3:F", Err("kaputt".to_string()), ""),
        "错误：解析清单文件失败：kaputt"
    );
    let mut elsewhere = with_document(3, Some("a"), None);
    elsewhere.chat.username = None;
    assert!(matches!(
        handle_get_reply(&reply("get", elsewhere), "@chan", ""),
        GetReply::Ignore
    ));
    assert!(matches!(handle_get_reply(&m, "@other", ""), GetReply::Ignore));
    assert!(matches!(handle_get_reply(&message(1), "@chan", ""), GetReply::Ignore));
}

#[test]
fn updates_are_processed() {
    let update = |message, channel_post| Update {
        update_id: 1,
        message,
        channel_post,
    };
    let a = process_update(&update(None, None), "@chan", "");
    assert!(a.new_file.is_none() && matches!(a.reply, GetReply::Ignore));
    let a = process_update(
        &update(None, Some(with_document(3, Some("a"), None))),
        "@chan",
        "",
    );
    assert_eq!(a.new_file.unwrap().composite_id, "3:F");
    for command in ["get", " GET\n", "Get"] {
        let m = reply(command, with_document(3, Some("a"), None));
        let a = process_update(&update(Some(m), Some(with_document(9, None, None))), "@chan", "");
        assert!(a.new_file.is_none());
        assert!(matches!(a.reply, GetReply::Say { .. }), "{}", command);
    }
    for command in ["got", "get it", ""] {
        let m = reply(command, with_document(3, Some("a"), None));
        let a = process_update(&update(Some(m), None), "@chan", "");
        assert!(matches!(a.reply, GetReply::Ignore));
    }
}

#[test]
fn polling() {
    let r = get_updates_request("T", 5, 30);
    assert_eq!(r.url, "https://api.telegram.org/botT/getUpdates");
    assert!(is_number(param(&r, "offset"), 5));
    assert!(is_number(param(&r, "timeout"), 30));
    match param(&r, "allowed_updates") {
        Param::List(l) => assert_eq!(l, &vec!["message".to_string(), "channel_post".to_string()]),
        other => panic!("{:?}", other),
    }
    assert_eq!(r.timeout_secs, Some(40));
    let p = Poller::pending_request("T");
    assert!(is_number(param(&p, "offset"), -1));
    assert!(is_number(param(&p, "timeout"), 0));
    assert_eq!(p.timeout_secs, Some(10));

    let batch = |ids: &[i64]| -> Vec<Update> {
        ids.iter()
            .map(|i| Update {
                update_id: *i,
                message: None,
                channel_post: None,
            })
            .collect()
    };
    assert_eq!(Poller::start(&Ok(batch(&[]))).offset, 0);
    assert_eq!(Poller::start(&Err("x".to_string())).offset, 0);
    let mut p = Poller::start(&Ok(batch(&[7])));
    assert_eq!(p.offset, 8);
    assert!(is_number(param(&p.request("T"), "offset"), 8));
    match p.step(Ok(batch(&[8, 9, 12]))) {
        PollStep::Process(us) => {
            assert_eq!(us.len(), 3);
            assert!(us.iter().all(|u| u.update_id < p.offset));
        }
        other => panic!("{:?}", other),
    }
    assert_eq!(p.offset, 13);
    assert!(matches!(p.step(Err("x".to_string())), PollStep::Wait(5)));
    assert!(matches!(p.step(Ok(batch(&[]))), PollStep::Process(_)));
    assert_eq!(p.offset, 13);

    let answer = |ok, result, description: Option<&str>| {
        Exchange::Answer(TelegramResponse {
            ok,
            result,
            description: description.map(|d| d.to_string()),
        })
    };
    assert_eq!(get_updates("T", answer(true, Some(batch(&[1])), None)).unwrap().len(), 1);
    assert_eq!(get_updates("T", answer(true, None, None)).unwrap().len(), 0);
    assert_eq!(
        get_updates("T", answer(false, None, Some("conflict"))).unwrap_err(),
        "getUpdates error: conflict"
    );
    assert_eq!(
        get_updates("1:x", Exchange::Failed("bot1:x".to_string())).unwrap_err(),
        "Request error: bot<redacted>"
    );
    assert_eq!(
        get_updates("T", Exchange::Unreadable("p".to_string())).unwrap_err(),
        "Parse error: p"
    );
    let m = send_message_request("T", -5, "hi");
    assert_eq!(m.url, "https://api.telegram.org/botT/sendMessage");
    assert!(is_number(param(&m, "chat_id"), -5));
    assert!(is_text(param(&m, "text"), "hi"));
    assert_eq!(m.timeout_secs, None);
}

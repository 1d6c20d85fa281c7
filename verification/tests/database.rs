use tgstate::config::{get_app_settings, AppSettingsMap, EnvVars, Settings};
use tgstate::database::{
    add_file_metadata, db_path, expires_in, expiry, generate_short_id, get_app_settings_from_db,
    init_db, lacks_column, message_pattern, norm, reset_app_settings_in_db,
    save_app_settings_to_db, short_id_from, AddFile, FileMetadata, IndexAction, InsertOutcome,
    INSERT_ATTEMPTS,
};

fn map(pairs: &[(&str, Option<&str>)]) -> AppSettingsMap {
    let mut m = AppSettingsMap::new();
    for (k, v) in pairs {
        m.insert(k, v.map(|s| s.to_string()));
    }
    m
}

fn names(v: &[&str]) -> Vec<String> {
    v.iter().map(|s| s.to_string()).collect()
}

#[test]
fn database_paths() {
    for dir in ["app/data", "/", "data/", ""] {
        assert_eq!(
            db_path(dir),
            std::path::Path::new(dir)
                .join("file_metadata.db")
                .to_string_lossy()
                .to_string()
        );
    }
    assert_eq!(db_path("app/data"), "app/data/file_metadata.db");
}

#[test]
fn older_databases_get_their_columns() {
    assert!(lacks_column(&names(&["a"]), "b"));
    assert!(!lacks_column(&names(&["a", "b"]), "b"));
    assert_eq!(
        init_db(&names(&["id", "short_id"]), &names(&["session_token"])),
        (None, None)
    );
    assert_eq!(
        init_db(&names(&["id"]), &names(&[])),
        (
            Some("ALTER TABLE files ADD COLUMN short_id TEXT".to_string()),
            Some("ALTER TABLE app_settings ADD COLUMN session_token TEXT".to_string())
        )
    );
}

#[test]
fn migrated_databases_need_nothing_more() {
    let mut columns = names(&["id"]);
    let mut settings = names(&["id"]);
    let (a, b) = init_db(&columns, &settings);
    assert!(a.is_some() && b.is_some());
    columns.push("short_id".to_string());
    settings.push("session_token".to_string());
    assert_eq!(init_db(&columns, &settings), (None, None));
}

#[test]
fn short_ids() {
    assert_eq!(short_id_from(&vec![0, 25, 26, 51, 52, 61]), "azAZ09");
    for length in [0, 1, 10] {
        let id = generate_short_id(length);
        assert_eq!(id.len(), length);
        assert!(id.chars().all(|c| c.is_ascii_alphanumeric()));
    }
    assert_ne!(generate_short_id(10), generate_short_id(10));
}

fn insert(a: &IndexAction) -> String {
    match a {
        IndexAction::Insert { short_id } => short_id.clone(),
        other => panic!("{:?}", other),
    }
}

#[test]
fn files_are_added_to_the_index() {
    let (mut f, a) = add_file_metadata();
    let id = insert(&a);
    assert_eq!(id.len(), 10);
    assert!(matches!(
        f.inserted(InsertOutcome::Inserted),
        IndexAction::Done { short_id } if short_id == id
    ));
    let (mut f, _) = add_file_metadata();
    assert!(matches!(
        f.inserted(InsertOutcome::Conflict(Some("known".to_string()))),
        IndexAction::Done { short_id } if short_id == "known"
    ));
    let (mut f, _) = add_file_metadata();
    assert!(matches!(
        f.inserted(InsertOutcome::Failed("disk".to_string())),
        IndexAction::Fail { reason } if reason == "disk"
    ));
}

#[test]
fn rows_without_a_short_id_get_one() {
    let (mut f, _) = AddFile::start_with("one".to_string());
    match f.inserted_with(InsertOutcome::Conflict(Some(String::new())), "two".to_string()) {
        IndexAction::Update { short_id } => assert_eq!(short_id, "two"),
        other => panic!("{:?}", other),
    }
    assert!(matches!(
        f.updated(None),
        IndexAction::Done { short_id } if short_id == "two"
    ));
    assert!(matches!(
        f.updated(Some("disk".to_string())),
        IndexAction::Fail { reason } if reason == "disk"
    ));
}

#[test]
fn added_files_are_found_again() {
    let mut table: Vec<(String, String)> = vec![("1:A".to_string(), "taken".to_string())];
    let (mut f, a) = AddFile::start_with("taken".to_string());
    let first = insert(&a);
    assert!(table.iter().any(|r| r.1 == first));
    let a = f.inserted_with(InsertOutcome::Conflict(None), "fresh".to_string());
    let second = insert(&a);
    assert!(table.iter().all(|r| r.1 != second));
    table.push(("2:B".to_string(), second));
    match f.inserted_with(InsertOutcome::Inserted, "unused".to_string()) {
        IndexAction::Done { short_id } => {
            for identifier in [short_id.as_str(), "2:B"] {
                let found: Vec<_> = table
                    .iter()
                    .filter(|r| r.0 == identifier || r.1 == identifier)
                    .collect();
                assert_eq!(found, vec![&("2:B".to_string(), "fresh".to_string())]);
            }
        }
        other => panic!("{:?}", other),
    }
    let (mut f, _) = AddFile::start_with("new".to_string());
    assert!(matches!(
        f.inserted_with(InsertOutcome::Conflict(Some("fresh".to_string())), "x".to_string()),
        IndexAction::Done { short_id } if short_id == "fresh"
    ));
}

#[test]
fn insertions_end() {
    let (mut f, a) = add_file_metadata();
    let mut seen = vec![insert(&a)];
    for _ in 1..INSERT_ATTEMPTS {
        let a = f.inserted(InsertOutcome::Conflict(None));
        seen.push(insert(&a));
    }
    assert_eq!(seen.len(), 5);
    assert!(matches!(
        f.inserted(InsertOutcome::Conflict(None)),
        IndexAction::Fail { reason } if reason == "Failed to generate unique short_id"
    ));
}

#[test]
fn message_patterns() {
    assert_eq!(message_pattern(-12), "-12:%");
    assert_eq!(norm(Some(" a ")).as_deref(), Some("a"));
    assert_eq!(norm(Some(" \t")), None);
    assert_eq!(norm(None), None);
    let f = FileMetadata {
        filename: "n".to_string(),
        file_id: "1:F".to_string(),
        filesize: 3,
        upload_date: "d".to_string(),
        short_id: Some("s".to_string()),
    };
    let c = f.copy();
    assert_eq!((c.filename.as_str(), c.filesize, c.short_id.as_deref()), ("n", 3, Some("s")));
}

#[test]
fn saved_settings_read_back_and_take_effect() {
    let payload = map(&[
        ("BOT_TOKEN", Some(" t ")),
        ("CHANNEL_NAME", Some("  ")),
        ("BASE_URL", Some("https://x")),
        ("OTHER", Some("dropped")),
    ]);
    let row = save_app_settings_to_db(&payload);
    assert_eq!(row.bot_token.as_deref(), Some("t"));
    assert_eq!(row.channel_name, None);
    assert_eq!(row.picgo_api_key, None);
    assert_eq!(row.base_url.as_deref(), Some("https://x"));
    let stored = get_app_settings_from_db(&Some(row));
    assert_eq!(stored.get("BOT_TOKEN").as_deref(), Some("t"));
    assert_eq!(stored.get("CHANNEL_NAME"), None);
    assert_eq!(stored.get("OTHER"), None);
    let env = Settings::from_env(&EnvVars {
        entries: vec![("CHANNEL_NAME".to_string(), "@env".to_string())],
    });
    let m = get_app_settings(&env, Some(&stored));
    assert_eq!(m.get("BOT_TOKEN").as_deref(), Some("t"));
    assert_eq!(m.get("CHANNEL_NAME").as_deref(), Some("@env"));
    assert_eq!(m.get("BASE_URL").as_deref(), Some("https://x"));
    assert_eq!(get_app_settings_from_db(&None).get("BOT_TOKEN"), None);
}

#[test]
fn a_reset_restores_the_environment() {
    let env = Settings::from_env(&EnvVars {
        entries: vec![("BOT_TOKEN".to_string(), "env".to_string())],
    });
    let stored = get_app_settings_from_db(&Some(reset_app_settings_in_db()));
    let m = get_app_settings(&env, Some(&stored));
    assert_eq!(m.get("BOT_TOKEN").as_deref(), Some("env"));
    assert_eq!(m.get("BASE_URL").as_deref(), Some("http://127.0.0.1:8000"));
    assert_eq!(m.get("PICGO_API_KEY"), None);
}

#[test]
fn points_in_time() {
    assert_eq!(
        expiry(0, 0, 600).as_deref(),
        Some("1970-01-01T00:10:00+00:00")
    );
    assert_eq!(
        expiry(1700000000, 500_000_000, 60).as_deref(),
        Some("2023-11-14T22:14:20.500+00:00")
    );
    assert_eq!(expiry(i64::MAX, 0, 1), None);
    assert!(expiry(0, 999_999_999, 8_210_266_876_799).is_some());
    assert_eq!(expiry(0, 0, 8_210_266_876_800), None);
    assert_eq!(expiry(i64::MAX - 1, 0, 1), None);
    let soon = expires_in(60).unwrap();
    let later = expires_in(3600).unwrap();
    assert!(soon < later);
    assert!(soon > expires_in(0).unwrap());
}

#[test]
fn sessions_slide() {
    // A visit in time sets the end anew; one week later it is still open.
    let week = 604800;
    let mut end = expiry(0, 0, week).unwrap();
    for visit in [600000, 1200000, 1800000] {
        assert!(expiry(visit, 0, 0).unwrap() < end);
        end = expiry(visit, 0, week).unwrap();
    }
    assert!(expiry(1800000 + week, 0, 0).unwrap() >= end);
}

use tgstate::config::AppSettingsMap;
use tgstate::database::FileMetadata;
use tgstate::routes::pages::{
    display_id, enrich_files, file_stats, has_image_extension, image_hosting, index_shows_welcome,
    is_image, marked_files, page_cfg, share_page, total_size,
};
use tgstate::sizes::{filesize_mb, format_bytes};

fn file(name: &str, size: i64, short: Option<&str>) -> FileMetadata {
    FileMetadata {
        filename: name.to_string(),
        file_id: "1:F".to_string(),
        filesize: size,
        upload_date: "2024-05-06 07:08:09".to_string(),
        short_id: short.map(|s| s.to_string()),
    }
}

fn shown_bytes(size: i64) -> String {
    let size = size.max(0) as f64;
    let units = ["B", "KB", "MB", "GB", "TB"];
    let mut value = size;
    let mut unit_idx = 0;
    while value >= 1024.0 && unit_idx < units.len() - 1 {
        value /= 1024.0;
        unit_idx += 1;
    }
    if unit_idx == 0 {
        format!("{} {}", value.round() as i64, units[unit_idx])
    } else {
        format!("{:.2} {}", value, units[unit_idx])
    }
}

#[test]
fn sizes_in_words() {
    assert_eq!(format_bytes(-5), "0 B");
    assert_eq!(format_bytes(0), "0 B");
    assert_eq!(format_bytes(1023), "1023 B");
    assert_eq!(format_bytes(1024), "1.00 KB");
    assert_eq!(format_bytes(1536), "1.50 KB");
    assert_eq!(format_bytes(1048575), "1024.00 KB");
    assert_eq!(format_bytes(1048576), "1.00 MB");
    assert_eq!(format_bytes(5 * 1024 * 1024 * 1024), "5.00 GB");
    assert_eq!(format_bytes(i64::MAX), "8388608.00 TB");
    assert_eq!(filesize_mb(0), "0.00");
    assert_eq!(filesize_mb(1048576), "1.00");
    assert_eq!(filesize_mb(20447232), "19.50");
    assert_eq!(filesize_mb(-1048576), "-1.00");
    assert_eq!(filesize_mb(-1), "-0.00");
    assert_eq!(filesize_mb(i64::MIN), "-8796093022208.00");
}

#[test]
fn sizes_agree_with_floating_point() {
    let mut samples: Vec<i64> = vec![0, 1, -1, i64::MAX, i64::MIN, i64::MAX - 511, i64::MAX - 512];
    for shift in 0..63 {
        let p = 1i64 << shift;
        for d in -3..4 {
            samples.push(p.saturating_add(d));
            samples.push(p.saturating_mul(3) / 2 + d);
            samples.push(-(p.saturating_sub(d)));
        }
    }
    // Ties of the second decimal: a size of n * 2^20 / 200, rounded both ways.
    for n in 0..4000i64 {
        samples.push(n * 1048576 / 200);
        samples.push(n * 131072);
        samples.push(n * 128 + 5);
    }
    let mut x: u64 = 88172645463325252;
    for _ in 0..20000 {
        x ^= x << 13;
        x ^= x >> 7;
        x ^= x << 17;
        samples.push((x >> (x % 60)) as i64);
    }
    for s in samples {
        assert_eq!(
            filesize_mb(s),
            format!("{:.2}", s as f64 / (1024.0 * 1024.0)),
            "{}",
            s
        );
        assert_eq!(format_bytes(s), shown_bytes(s), "{}", s);
    }
}

#[test]
fn pages_know_what_the_bot_lacks() {
    let mut m = AppSettingsMap::new();
    let c = page_cfg(&m, true);
    assert!(!c.bot_ready && c.bot_running);
    assert_eq!(c.missing, vec!["BOT_TOKEN", "CHANNEL_NAME"]);
    m.insert("BOT_TOKEN", Some(" t ".to_string()));
    m.insert("CHANNEL_NAME", Some("  ".to_string()));
    assert_eq!(page_cfg(&m, false).missing, vec!["CHANNEL_NAME"]);
    m.insert("CHANNEL_NAME", Some("@c".to_string()));
    let c = page_cfg(&m, false);
    assert!(c.bot_ready && !c.bot_running && c.missing.is_empty());
}

#[test]
fn files_in_lists() {
    let files = vec![file("a.txt", 1048576, Some("sid")), file("b", 5, Some("")), file("c", 5, None)];
    let l = enrich_files(&files);
    assert_eq!(l.len(), 3);
    assert_eq!(l[0].file_id, "1:F");
    assert_eq!(l[0].short_id, "sid");
    assert_eq!(l[0].filename, "a.txt");
    assert_eq!(l[0].filesize, 1048576);
    assert_eq!(l[0].filesize_mb, "1.00");
    assert_eq!(l[0].upload_date, "2024-05-06 07:08:09");
    assert_eq!(l[0].upload_date_short, "2024-05-06");
    assert_eq!(l[0].display_id, "sid");
    assert_eq!((l[1].short_id.as_str(), l[1].display_id.as_str()), ("", "1:F"));
    assert_eq!((l[2].short_id.as_str(), l[2].display_id.as_str()), ("", "1:F"));
    assert_eq!(display_id(&files[0]), "sid");
    assert!(enrich_files(&vec![]).is_empty());
}

#[test]
fn images_by_name() {
    for name in ["a.jpg", "A.JPEG", "x.Png", "g.gif", "w.webp", "s.svg", "b.bmp", "i.ICO", "t.tiff"] {
        assert!(is_image(name), "{}", name);
    }
    for name in ["a.txt", "jpg", "a.jpg.zip", "a.tif", ""] {
        assert!(!is_image(name), "{}", name);
    }
    assert!(has_image_extension(".png"));
    assert!(!has_image_extension(".PNG"));
    let files = vec![file("a.PNG", 1, None), file("b.txt", 2, None), file("c.jpg", 3, None)];
    let images = image_hosting(&files);
    assert_eq!(
        images.iter().map(|f| f.filename.as_str()).collect::<Vec<_>>(),
        vec!["a.PNG", "c.jpg"]
    );
    let picked = marked_files(&files, &vec![false, true, false]);
    assert_eq!(picked.len(), 1);
    assert_eq!(picked[0].filename, "b.txt");
}

#[test]
fn figures_of_files() {
    let files = vec![file("a.png", 1024, None), file("b.txt", 512, None)];
    assert_eq!(total_size(&files), Some(1536));
    let s = file_stats(&files, 1);
    assert_eq!((s.total_count, s.visible_count, s.image_count), (2, 1, 1));
    assert_eq!(s.total_size, 1536);
    assert_eq!(s.total_size_human, "1.50 KB");
    assert_eq!(total_size(&vec![file("a", i64::MAX, None), file("b", 1, None)]), None);
    assert_eq!(
        total_size(&vec![file("a", i64::MAX, None), file("b", 1, None), file("c", -1, None)]),
        None
    );
    assert_eq!(total_size(&vec![]), Some(0));
}

#[test]
fn the_front_page_welcomes() {
    assert!(index_shows_welcome(None));
    assert!(index_shows_welcome(Some(" \n")));
    assert!(!index_shows_welcome(Some("x")));
}

#[test]
fn share_pages() {
    let (f, path) = share_page(&file("a b.txt", 1048576, Some("sid")), "https://h/", "sid");
    assert_eq!(path, "/share/sid");
    assert_eq!(f.file_url, "https://h/d/sid/a%20b%2Etxt");
    assert_eq!(f.html_code, "<a href=\"https://h/d/sid/a%20b%2Etxt\">a b.txt</a>");
    assert_eq!(f.markdown_code, "[a b.txt](https://h/d/sid/a%20b%2Etxt)");
    assert_eq!(f.filename, "a b.txt");
    assert_eq!((f.filesize, f.filesize_mb.as_str()), (1048576, "1.00"));
    assert_eq!(f.upload_date, "2024-05-06 07:08:09");
    assert_eq!(f.upload_date_short, "2024-05-06");
    let (f, _) = share_page(&file("x", 0, None), "", "1:F");
    assert_eq!(f.file_url, "/d/1:F/x");
}

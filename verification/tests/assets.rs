use peas::assets::{format_file_size, sort_assets, AssetInfo, AssetManager};
use peas::sort::str_lt;

#[test]
fn test_format_file_size() {
    assert_eq!(format_file_size(0), "0 B");
    assert_eq!(format_file_size(500), "500 B");
    assert_eq!(format_file_size(1024), "1.0 KB");
    assert_eq!(format_file_size(1536), "1.5 KB");
    assert_eq!(format_file_size(1048576), "1.0 MB");
    assert_eq!(format_file_size(1073741824), "1.0 GB");
}

#[test]
fn test_asset_file_type() {
    let asset = AssetInfo {
        filename: "screenshot.png".to_string(),
        size: 1024,
        path: "screenshot.png".to_string(),
    };
    assert_eq!(asset.file_type(), "Image");

    let asset = AssetInfo {
        filename: "spec.pdf".to_string(),
        size: 2048,
        path: "spec.pdf".to_string(),
    };
    assert_eq!(asset.file_type(), "PDF");
}

#[test]
fn format_file_size_matches_float_formatting() {
    for size in [1u64, 1023, 1024, 1025, 1280, 1331, 2047, 10_000, 123_456_789, 1 << 40, (1 << 40) * 5 + 7, u64::MAX] {
        let mut x = size as f64;
        let units = ["B", "KB", "MB", "GB", "TB"];
        let mut k = 0;
        while x >= 1024.0 && k < units.len() - 1 {
            x /= 1024.0;
            k += 1;
        }
        let expected = if k == 0 {
            format!("{} {}", x as u64, units[k])
        } else {
            format!("{:.1} {}", x, units[k])
        };
        assert_eq!(format_file_size(size), expected, "size {}", size);
    }
}

#[test]
fn format_file_size_in_terabytes_stays_terabytes() {
    assert_eq!(format_file_size(1u64 << 50), "1024.0 TB");
}

#[test]
fn asset_kinds_by_extension() {
    let kinds = [
        ("a.JPG", "Image"),
        ("notes.md", "Text"),
        ("cfg.toml", "Data"),
        ("x.tar", "Archive"),
        ("clip.webm", "Video"),
        ("s.ogg", "Audio"),
        ("app.ts", "Web"),
        ("main.rs", "Code"),
        ("r.docx", "Document"),
        ("t.ods", "Spreadsheet"),
        ("p.pptx", "Presentation"),
        ("noext", "File"),
        ("weird.xyz", "File"),
    ];
    for (name, kind) in kinds {
        let a = AssetInfo { filename: name.to_string(), size: 1, path: name.to_string() };
        assert_eq!(a.file_type(), kind, "{}", name);
    }
}

#[test]
fn asset_extension_is_lowercased() {
    let a = AssetInfo { filename: "A.PNG".to_string(), size: 3, path: "dir/A.PNG".to_string() };
    assert_eq!(a.extension(), Some("png".to_string()));
    let b = AssetInfo { filename: "README".to_string(), size: 3, path: "README".to_string() };
    assert_eq!(b.extension(), None);
    assert_eq!(a.size_string(), "3 B");
}

#[test]
fn asset_manager_paths() {
    let m = AssetManager::new("/proj");
    assert_eq!(m.assets_path(), "/proj/.peas/assets");
    assert_eq!(m.ticket_assets_path("peas-1"), "/proj/.peas/assets/peas-1");
    assert_eq!(m.get_asset_path("peas-1", "a.png"), "/proj/.peas/assets/peas-1/a.png");
}

#[test]
fn asset_unique_names() {
    let m = AssetManager::new("/proj");
    assert_eq!(m.get_unique_filename("photo.png", 1), Some("photo-1.png".to_string()));
    assert_eq!(m.get_unique_filename("notes", 12), Some("notes-12".to_string()));
    assert_eq!(m.get_unique_filename("archive.tar.gz", 2), Some("archive.tar-2.gz".to_string()));
}

#[test]
fn asset_listing_sorted_by_name() {
    let info = |n: &str, size: u64| AssetInfo { filename: n.to_string(), size, path: format!("/x/{}", n) };
    let sorted = sort_assets(vec![info("b.png", 1), info("a.txt", 2), info("B.md", 3), info("a.txt", 4), info("ä.txt", 5)]);
    let names: Vec<(&str, u64)> = sorted.iter().map(|a| (a.filename.as_str(), a.size)).collect();
    assert_eq!(names, vec![("B.md", 3), ("a.txt", 2), ("a.txt", 4), ("b.png", 1), ("ä.txt", 5)]);
    assert!(str_lt("abc", "abd"));
    assert!(str_lt("ab", "abc"));
    assert!(!str_lt("abc", "abc"));
    assert!(!str_lt("b", "abc"));
    assert!(str_lt("", "a"));
}

#[test]
fn free_asset_name_picks_first_free() {
    let m = AssetManager::new("/proj");
    let taken = vec!["a.png".to_string(), "a-1.png".to_string(), "b".to_string()];
    assert_eq!(m.free_asset_name("c.png", &taken), Some("c.png".to_string()));
    assert_eq!(m.free_asset_name("a.png", &taken), Some("a-2.png".to_string()));
    assert_eq!(m.free_asset_name("b", &taken), Some("b-1".to_string()));
    let all: Vec<String> = std::iter::once("x.txt".to_string())
        .chain((1..1000).map(|i| format!("x-{}.txt", i)))
        .collect();
    assert_eq!(m.free_asset_name("x.txt", &all), None);
}

use gores_map_downloader::catalog::{
    category_index, full_preview_url, get_map_url, str_eq, thumbnail_url, ManifestMap, MapRecord,
};

fn record(name: &str, category: &str, stars: i32) -> MapRecord {
    MapRecord {
        id: 1,
        name: name.to_string(),
        category: category.to_string(),
        stars,
        points: 12,
        author: "someone".to_string(),
        release_date: "2021-01-01".to_string(),
        size: 4096,
        downloaded: false,
        local_path: None,
    }
}

#[test]
fn map_urls_follow_the_layout() {
    let url = get_map_url(&record("Sunny", "Main", 3));
    assert_eq!(
        url,
        "https://raw.githubusercontent.com/wtfseanscool/kog-maps/main/Main/3star/Sunny.map"
    );
}

#[test]
fn preview_urls_follow_the_layout() {
    assert_eq!(
        thumbnail_url("Sunny"),
        "https://raw.githubusercontent.com/wtfseanscool/kog-maps-previews/main/thumbnails/Sunny.png"
    );
    assert_eq!(
        full_preview_url("Sunny"),
        "https://raw.githubusercontent.com/wtfseanscool/kog-maps-previews/main/full/Sunny.png"
    );
}

#[test]
fn category_indices_are_fixed() {
    assert_eq!(category_index("Easy"), Some(0));
    assert_eq!(category_index("Main"), Some(1));
    assert_eq!(category_index("Hard"), Some(2));
    assert_eq!(category_index("Insane"), Some(3));
    assert_eq!(category_index("Extreme"), Some(4));
    assert_eq!(category_index("Solo"), Some(5));
    assert_eq!(category_index("Mod"), Some(6));
    assert_eq!(category_index("Extra"), Some(7));
    assert_eq!(category_index("easy"), None);
    assert_eq!(category_index(""), None);
}

#[test]
fn string_equality_checks_characters() {
    assert!(str_eq("abc", "abc"));
    assert!(!str_eq("abc", "abd"));
    assert!(!str_eq("abc", "ab"));
    assert!(str_eq("", ""));
}

#[test]
fn manifest_entries_import_as_records() {
    let entry = ManifestMap {
        name: "Sunny".to_string(),
        category: "Main".to_string(),
        stars: 3,
        points: 8,
        author: "someone".to_string(),
        release_date: "2020-02-02".to_string(),
        size: 123,
    };
    let rec = entry.to_record(5);
    assert_eq!(rec.id, 5);
    assert_eq!(rec.name, "Sunny");
    assert_eq!(rec.category, "Main");
    assert_eq!(rec.stars, 3);
    assert_eq!(rec.size, 123);
    assert!(!rec.downloaded);
    assert!(rec.local_path.is_none());
}

use heic_ready::normalize::normalize_watch_folder_path;
use heic_ready::output::{has_jpeg_sibling, resolve_output_path, tmp_output_path_for, unique_destination_path};
use heic_ready::pathname::{is_lock_file, is_target_extension, is_target_file};

#[test]
fn normalize_watch_folder_path_trims_and_removes_trailing_separator() {
    let path = normalize_watch_folder_path(" /tmp/heic_ready_perm_test/ ")
        .expect("normalize")
        .expect("path");
    assert_eq!(path, "/tmp/heic_ready_perm_test".to_string());
}

#[test]
fn normalize_watch_folder_path_rejects_relative_path() {
    let err = normalize_watch_folder_path("tmp/heic_ready").expect_err("must fail");
    assert!(err.contains("must be absolute"));
}

#[test]
fn normalize_watch_folder_path_collapses_separators_and_dots() {
    let path = normalize_watch_folder_path("/a//b/./c")
        .expect("normalize")
        .expect("path");
    assert_eq!(path, "/a/b/c".to_string());
}

#[test]
fn normalize_watch_folder_path_empty_input_is_absent() {
    assert_eq!(normalize_watch_folder_path("   ").expect("normalize"), None);
    assert_eq!(normalize_watch_folder_path("").expect("normalize"), None);
}

#[test]
fn normalize_watch_folder_path_keeps_root() {
    let path = normalize_watch_folder_path("/").expect("normalize").expect("path");
    assert_eq!(path, "/".to_string());
}

#[test]
fn target_file_filter_accepts_heic_and_heif() {
    assert!(is_target_file("/tmp/a.heic", true));
    assert!(is_target_file("/tmp/a.heif", true));
    assert!(!is_target_file("/tmp/a.jpg", true));
    assert!(!is_target_file("/tmp/a.heic", false));
    assert!(is_target_extension("/tmp/a.HEIC"));
    assert!(!is_target_extension("/tmp/noext"));
}

#[test]
fn lock_file_extension_is_recognized() {
    assert!(is_lock_file("/tmp/a.lock"));
    assert!(is_lock_file("/tmp/a.LOCK"));
    assert!(!is_lock_file("/tmp/a.heic"));
    assert!(!is_lock_file("/tmp/lock"));
}

#[test]
fn jpeg_sibling_check_detects_existing_converted_file() {
    let heic = "/d/sibling/IMG_0001.heic";
    let without = vec![heic.to_string()];
    assert!(!has_jpeg_sibling(heic, &without));

    let with = vec![heic.to_string(), "/d/sibling/IMG_0001.jpg".to_string()];
    assert!(has_jpeg_sibling(heic, &with));
}

#[test]
fn resolve_output_path_uses_increment_suffix_on_collision() {
    let heic = "/d/collision/IMG_0002.heic";
    let existing = vec![
        "/d/collision/IMG_0002.jpg".to_string(),
        "/d/collision/IMG_0002 (1).jpg".to_string(),
    ];
    let resolved = resolve_output_path(heic, &existing);
    assert_eq!(resolved, "/d/collision/IMG_0002 (2).jpg".to_string());
}

#[test]
fn resolve_output_path_prefers_plain_name() {
    let resolved = resolve_output_path("/pics/photo.heic", &vec![]);
    assert_eq!(resolved, "/pics/photo.jpg".to_string());
}

#[test]
fn resolve_output_path_skips_taken_names() {
    let existing = vec![
        "/pics/photo.jpg".to_string(),
        "/pics/photo (1).jpg".to_string(),
    ];
    let resolved = resolve_output_path("/pics/photo.heic", &existing);
    assert_eq!(resolved, "/pics/photo (2).jpg".to_string());
}

#[test]
fn tmp_output_path_appends_suffix() {
    assert_eq!(
        tmp_output_path_for("/pics/photo.jpg"),
        "/pics/photo.jpg.tmp".to_string()
    );
}

#[test]
fn unique_destination_path_adds_suffix_on_collision() {
    let dir = "/trash_collision";
    let source = "/d/IMG_1000.HEIC";
    let existing = vec!["/trash_collision/IMG_1000.HEIC".to_string()];
    let candidate = unique_destination_path(dir, source, &existing);
    assert_eq!(candidate, "/trash_collision/IMG_1000 (1).HEIC".to_string());
}

#[test]
fn unique_destination_path_without_extension() {
    let existing = vec!["/t/README".to_string(), "/t/README (1)".to_string()];
    let candidate = unique_destination_path("/t", "/d/README", &existing);
    assert_eq!(candidate, "/t/README (2)".to_string());
}

#[test]
fn resolve_output_path_reaches_two_digit_counters() {
    let mut existing = vec!["/p/x.jpg".to_string()];
    for i in 1..=9 {
        existing.push(format!("/p/x ({i}).jpg"));
    }
    let resolved = resolve_output_path("/p/x.heic", &existing);
    assert_eq!(resolved, "/p/x (10).jpg".to_string());
}

#[test]
fn normalize_watch_folder_path_keeps_parent_segments() {
    let path = normalize_watch_folder_path("/a/../b")
        .expect("normalize")
        .expect("path");
    assert_eq!(path, "/a/../b".to_string());
}

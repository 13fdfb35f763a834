use nif_viewer::cookies::{recent_cookie_value, recent_files_cookie};
use nif_viewer::recent::RecentFiles;

#[test]
fn the_recent_files_cookie_is_found_among_others() {
    assert_eq!(
        recent_cookie_value("theme=dark; esp_viewer_recent_files=url%09a.zip%09b.nif ; other=1"),
        Some("url%09a.zip%09b.nif".to_string())
    );
    assert_eq!(
        recent_cookie_value("esp_viewer_recent_files=first;esp_viewer_recent_files=second"),
        Some("first".to_string())
    );
    assert_eq!(recent_cookie_value("theme=dark"), None);
    assert_eq!(recent_cookie_value(""), None);
    assert_eq!(recent_cookie_value("xesp_viewer_recent_files=1"), None);
    assert_eq!(recent_cookie_value("\tesp_viewer_recent_files=\u{a0}"), Some(String::new()));
}

#[test]
fn the_cookie_keeps_the_value_for_a_year() {
    assert_eq!(
        recent_files_cookie("abc"),
        "esp_viewer_recent_files=abc; Max-Age=31536000; Path=/; SameSite=Lax"
    );
}

#[test]
fn a_cookie_value_decodes_to_recent_files() {
    let value = recent_cookie_value("esp_viewer_recent_files=disk\ta.zip\tb.nif").unwrap();
    let files = RecentFiles::decode(&value);
    assert_eq!(files.files.len(), 1);
    assert_eq!(files.files[0].path, "a.zip");
    assert_eq!(files.files[0].file_name, "b.nif");
}

use css2mp4_core::url::{canonical_or_path, file_url_text, to_file_url};

#[test]
fn test_to_file_url_format() {
    let url = to_file_url("Cargo.toml");
    assert!(url.starts_with("file:///"));
    assert!(!url.contains('\\'));
    assert!(!url.contains("?"));
}

#[test]
fn file_url_keeps_converted_url() {
    let url = file_url_text("/tmp/a.html", Some("file:///tmp/a.html".to_string()));
    assert_eq!(url, "file:///tmp/a.html");
}

#[test]
fn file_url_fallback_turns_backslashes() {
    let url = file_url_text("C:\\work\\anim.html", None);
    assert_eq!(url, "file:///C:/work/anim.html");
}

#[test]
fn file_url_of_missing_absolute_path_is_converted() {
    let url = to_file_url("/no/such/dir/page.html");
    assert_eq!(url, "file:///no/such/dir/page.html");
}

#[test]
fn canonical_form_is_preferred() {
    assert_eq!(canonical_or_path("a.html", Some("/work/a.html".to_string())), "/work/a.html");
    assert_eq!(canonical_or_path("a.html", None), "a.html");
}

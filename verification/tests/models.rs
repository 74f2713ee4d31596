use tauri_plugin_vnidrop_share::{ShareOptions, SharedFile, MAX_FILES, MAX_TEXT_BYTES};

fn options(text: Option<&str>, url: Option<&str>, files: Option<Vec<SharedFile>>) -> ShareOptions {
    ShareOptions {
        text: text.map(ToString::to_string),
        title: None,
        url: url.map(ToString::to_string),
        files,
        file_paths: None,
        anchor: None,
    }
}

#[test]
fn empty_options_are_not_shareable() {
    assert!(!options(None, None, None).has_shareable_content());
    assert!(!options(Some(""), Some(""), Some(Vec::new())).has_shareable_content());
}

#[test]
fn text_url_or_files_are_shareable() {
    let file = SharedFile {
        data: "aGVsbG8=".to_string(),
        name: "hello.txt".to_string(),
        mime_type: "text/plain".to_string(),
    };

    assert!(options(Some("hello"), None, None).has_shareable_content());
    assert!(options(None, Some("https://example.com"), None).has_shareable_content());
    assert!(options(None, None, Some(vec![file])).has_shareable_content());
}

#[test]
fn combined_text_preserves_text_and_url() {
    let data = options(Some("hello"), Some("https://example.com"), None);
    assert_eq!(
        data.combined_text().as_deref(),
        Some("hello\nhttps://example.com")
    );
}

#[test]
fn validation_accepts_http_and_https_urls() {
    assert!(options(None, Some("https://example.com"), None)
        .validate()
        .is_ok());
    assert!(options(None, Some("http://example.com"), None)
        .validate()
        .is_ok());
}

#[test]
fn validation_rejects_non_web_url_schemes() {
    assert!(options(None, Some("file:///etc/passwd"), None)
        .validate()
        .is_err());
    assert!(options(None, Some("custom-scheme://value"), None)
        .validate()
        .is_err());
    assert!(options(None, Some("https:///missing-host"), None)
        .validate()
        .is_err());
    assert!(options(
        None,
        Some("https://example.com\nhttps://evil.example"),
        None
    )
    .validate()
    .is_err());
}

#[test]
fn validation_rejects_oversized_text_and_too_many_files() {
    let oversized_text = "a".repeat(MAX_TEXT_BYTES + 1);
    assert!(ShareOptions {
        text: Some(oversized_text),
        title: None,
        url: None,
        files: None,
        file_paths: None,
        anchor: None,
    }
    .validate()
    .is_err());

    let files = (0..=MAX_FILES)
        .map(|index| SharedFile {
            data: "aGVsbG8=".to_string(),
            name: format!("hello-{index}.txt"),
            mime_type: "text/plain".to_string(),
        })
        .collect();
    assert!(options(None, None, Some(files)).validate().is_err());
}

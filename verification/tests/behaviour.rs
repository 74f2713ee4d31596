use tauri_plugin_vnidrop_share::base64_len::estimate_base64_decoded_len;
use tauri_plugin_vnidrop_share::platform::macos::{delegate_step, PickerEvent, ShareOutcome};
use tauri_plugin_vnidrop_share::platform::{macos, windows};
use tauri_plugin_vnidrop_share::temp_file::{accept_decoded_file, decode_shared_file};
use tauri_plugin_vnidrop_share::text::{is_control, is_whitespace};
use tauri_plugin_vnidrop_share::url::validate_web_url;
use tauri_plugin_vnidrop_share::{
    Error, Field, Invalid, ShareOptions, SharedFile, MAX_FILE_BYTES, MAX_FILE_NAME_BYTES,
    MAX_MIME_TYPE_BYTES, MAX_TEXT_BYTES, MAX_TITLE_BYTES, MAX_URL_BYTES,
};

fn empty() -> ShareOptions {
    ShareOptions {
        text: None,
        title: None,
        url: None,
        files: None,
        file_paths: None,
        anchor: None,
    }
}

fn file(data: &str, name: &str) -> SharedFile {
    SharedFile {
        data: data.to_string(),
        name: name.to_string(),
        mime_type: "text/plain".to_string(),
    }
}

fn invalid(res: Result<(), Error>) -> Invalid {
    match res {
        Err(Error::InvalidArgs(e)) => e,
        other => panic!("expected a refusal, got {other:?}"),
    }
}

#[test]
fn char_classes_agree_with_std_for_every_char() {
    for u in 0u32..=0x10FFFF {
        if let Some(c) = char::from_u32(u) {
            assert_eq!(is_control(c), c.is_control(), "is_control({u:#x})");
            assert_eq!(is_whitespace(c), c.is_whitespace(), "is_whitespace({u:#x})");
        }
    }
}

#[test]
fn web_urls_with_hosts_are_accepted() {
    for url in [
        "https://example.com",
        "HTTPS://Example.com/path?q=1#f",
        "HtTp://example.com",
        "https://user:pw@example.com",
        "https://a@b@host.example",
        "https://[::1]:8080/x",
        "https://host:8080",
        "https://x?y",
        "https://]",
    ] {
        assert!(validate_web_url(url).is_ok(), "{url}");
    }
}

#[test]
fn malformed_urls_are_reported_as_malformed() {
    for url in [
        " https://example.com",
        "https://example.com ",
        "https://exa\u{7f}mple.com",
        "https://example.com\u{00A0}",
        "https://example.com\u{2028}",
        "https://example.com\nhttps://evil.example",
    ] {
        assert_eq!(invalid(validate_web_url(url)), Invalid::MalformedUrl, "{url:?}");
    }
}

#[test]
fn non_web_urls_are_reported_as_unsupported() {
    for url in [
        "file:///etc/passwd",
        "custom-scheme://value",
        "https:///missing-host",
        "https://@",
        "https://[]",
        "https://:80",
        "https://:]",
        "https://#frag",
        "http//example.com",
        "ftp://example.com",
        "httpss://example.com",
        "",
    ] {
        assert_eq!(invalid(validate_web_url(url)), Invalid::UnsupportedUrl, "{url:?}");
    }
}

#[test]
fn base64_estimates_follow_length_and_padding() {
    let est = |s: &str| estimate_base64_decoded_len(s).ok();
    assert_eq!(est(""), Some(0));
    assert_eq!(est("aGVsbG8="), Some(5));
    assert_eq!(est("aGVsbA=="), Some(4));
    assert_eq!(est("aGVs"), Some(3));
    assert_eq!(est("aGVsbG8gd29ybGQ="), Some(11));
    assert_eq!(est("abc"), None);
    assert_eq!(est("a==="), None);
    assert_eq!(est("===="), None);
    assert!(matches!(
        estimate_base64_decoded_len("abcde"),
        Err(Error::InvalidArgs(Invalid::InvalidBase64))
    ));
}

#[test]
fn each_limit_reports_its_field() {
    let mut o = empty();
    o.text = Some("a".repeat(MAX_TEXT_BYTES));
    assert!(o.validate().is_ok());
    o.text = Some("é".repeat(MAX_TEXT_BYTES / 2 + 1));
    assert_eq!(
        invalid(o.validate()),
        Invalid::TooLong { field: Field::Text, max_bytes: MAX_TEXT_BYTES }
    );

    let mut o = empty();
    o.title = Some("a".repeat(MAX_TITLE_BYTES + 1));
    assert_eq!(
        invalid(o.validate()),
        Invalid::TooLong { field: Field::Title, max_bytes: MAX_TITLE_BYTES }
    );

    let mut o = empty();
    o.url = Some(format!("https://example.com/{}", "a".repeat(MAX_URL_BYTES)));
    assert_eq!(
        invalid(o.validate()),
        Invalid::TooLong { field: Field::Url, max_bytes: MAX_URL_BYTES }
    );

    let mut o = empty();
    o.files = Some(vec![file("aGVsbG8=", &"n".repeat(MAX_FILE_NAME_BYTES + 1))]);
    assert_eq!(
        invalid(o.validate()),
        Invalid::TooLong { field: Field::FileName, max_bytes: MAX_FILE_NAME_BYTES }
    );

    let mut f = file("aGVsbG8=", "a.txt");
    f.mime_type = "m".repeat(MAX_MIME_TYPE_BYTES + 1);
    let mut o = empty();
    o.files = Some(vec![f]);
    assert_eq!(
        invalid(o.validate()),
        Invalid::TooLong { field: Field::MimeType, max_bytes: MAX_MIME_TYPE_BYTES }
    );
}

#[test]
fn checks_run_in_order_text_title_url_files() {
    let o = ShareOptions {
        text: Some("a".repeat(MAX_TEXT_BYTES + 1)),
        title: Some("a".repeat(MAX_TITLE_BYTES + 1)),
        url: Some("ftp://x".to_string()),
        files: Some(vec![file("bad", "a.txt")]),
        file_paths: None,
        anchor: None,
    };
    assert_eq!(
        invalid(o.validate()),
        Invalid::TooLong { field: Field::Text, max_bytes: MAX_TEXT_BYTES }
    );
    let o = ShareOptions { text: None, ..o };
    assert_eq!(
        invalid(o.validate()),
        Invalid::TooLong { field: Field::Title, max_bytes: MAX_TITLE_BYTES }
    );
    let o = ShareOptions { title: None, ..o };
    assert_eq!(invalid(o.validate()), Invalid::UnsupportedUrl);
    let o = ShareOptions { url: Some(String::new()), ..o };
    assert_eq!(invalid(o.validate()), Invalid::InvalidBase64);
}

#[test]
fn oversized_and_too_many_files_are_refused() {
    let files: Vec<SharedFile> = (0..17).map(|i| file("aGVsbG8=", &format!("f{i}"))).collect();
    let mut o = empty();
    o.files = Some(files);
    assert_eq!(invalid(o.validate()), Invalid::TooManyFiles);

    // 69_905_068 Base64 bytes estimate to 52_428_801 decoded bytes: one past the limit.
    let big = "A".repeat(69_905_068);
    let mut o = empty();
    o.files = Some(vec![file("aGVsbG8=", "small.txt"), file(&big, "big.bin")]);
    assert_eq!(invalid(o.validate()), Invalid::FileTooLarge { index: 1 });

    // Three files of 36 MiB each: each within its limit, together over 100 MiB.
    let part = "A".repeat(36 * 1024 * 1024 / 3 * 4);
    let mut o = empty();
    o.files = Some(vec![file(&part, "a"), file(&part, "b"), file(&part, "c")]);
    assert_eq!(invalid(o.validate()), Invalid::TotalTooLarge);

    let mut o = empty();
    o.files = Some(vec![file(&part, "a"), file(&part, "b")]);
    assert!(o.validate().is_ok());
}

#[test]
fn empty_url_is_not_checked() {
    let mut o = empty();
    o.url = Some(String::new());
    assert!(o.validate().is_ok());
}

#[test]
fn combined_text_uses_what_is_given() {
    let mut o = empty();
    assert_eq!(o.combined_text(), None);
    o.text = Some("hi".to_string());
    assert_eq!(o.combined_text().as_deref(), Some("hi"));
    o.url = Some("https://a.example".to_string());
    assert_eq!(o.combined_text().as_deref(), Some("hi\nhttps://a.example"));
    o.text = Some(String::new());
    assert_eq!(o.combined_text().as_deref(), Some("https://a.example"));
}

#[test]
fn file_paths_alone_are_shareable() {
    let mut o = empty();
    o.file_paths = Some(vec!["/tmp/report.zip".to_string()]);
    assert!(o.has_shareable_content());
    o.file_paths = Some(Vec::new());
    assert!(!o.has_shareable_content());
}

#[test]
fn shared_file_decodes_and_keeps_only_the_final_name() {
    let d = decode_shared_file(&file("aGVsbG8gd29ybGQ=", "hello.txt")).unwrap();
    assert_eq!(d.bytes, b"hello world");
    assert_eq!(d.file_name, "hello.txt");

    let d = decode_shared_file(&file("cGF5bG9hZA==", "../etc/secret.txt")).unwrap();
    assert_eq!(d.bytes, b"payload");
    assert_eq!(d.file_name, "secret.txt");

    assert!(matches!(
        decode_shared_file(&file("not-valid-base64!!!", "bad.txt")),
        Err(Error::InvalidArgs(Invalid::InvalidBase64))
    ));
    assert!(matches!(
        decode_shared_file(&file("aGVsbG8=", "..")),
        Err(Error::InvalidArgs(Invalid::InvalidFileName))
    ));
}

#[test]
fn decoded_files_are_bounded() {
    assert!(matches!(
        accept_decoded_file(Some(vec![0u8; MAX_FILE_BYTES + 1]), Some("x".to_string())),
        Err(Error::InvalidArgs(Invalid::DecodedFileTooLarge))
    ));
    assert!(matches!(
        accept_decoded_file(None, Some("x".to_string())),
        Err(Error::InvalidArgs(Invalid::InvalidBase64))
    ));
    assert!(matches!(
        accept_decoded_file(Some(vec![1, 2]), None),
        Err(Error::InvalidArgs(Invalid::InvalidFileName))
    ));
    let d = accept_decoded_file(Some(vec![1, 2]), Some("x".to_string())).unwrap();
    assert_eq!(d.bytes, vec![1, 2]);
    assert_eq!(d.file_name, "x");
}

#[test]
fn platforms_can_share_and_macos_cleanup_succeeds() {
    assert!(macos::can_share().unwrap().value);
    assert!(windows::can_share().unwrap().value);
    assert!(macos::cleanup().is_ok());
}

#[test]
fn macos_plan_orders_items() {
    let mut o = empty();
    o.text = Some("hello".to_string());
    o.url = Some("https://example.com".to_string());
    let plan = macos::mac_share_plan(&o, true).unwrap();
    assert!(plan.subject.is_none());
    assert!(matches!(
        plan.items.as_slice(),
        [macos::MacShareItem::Url(u), macos::MacShareItem::Text(t)]
            if u == "https://example.com" && t == "hello"
    ));
    let plan = macos::mac_share_plan(&o, false).unwrap();
    assert!(matches!(plan.items.as_slice(), [macos::MacShareItem::Text(t)] if t == "hello"));

    o.title = Some("Report".to_string());
    o.files = Some(vec![file("aGVsbG8=", "a.txt"), file("aGVsbG8=", "b.txt")]);
    o.file_paths = Some(vec!["/tmp/c.zip".to_string()]);
    let plan = macos::mac_share_plan(&o, true).unwrap();
    assert_eq!(plan.subject.as_deref(), Some("Report"));
    assert!(matches!(
        plan.items.as_slice(),
        [macos::MacShareItem::File(0), macos::MacShareItem::File(1), macos::MacShareItem::Path(p)]
            if p == "/tmp/c.zip"
    ));

    o.title = None;
    let plan = macos::mac_share_plan(&o, true).unwrap();
    assert_eq!(plan.subject.as_deref(), Some("hello"));
}

#[test]
fn macos_plan_refuses_nothing_to_share() {
    let mut o = empty();
    o.url = Some("not a url".to_string());
    assert!(matches!(
        macos::mac_share_plan(&o, false),
        Err(Error::InvalidArgs(Invalid::NothingToShare))
    ));
    assert!(matches!(
        macos::mac_share_plan(&empty(), true),
        Err(Error::InvalidArgs(Invalid::NothingToShare))
    ));
}

#[test]
fn windows_title_falls_back_in_order() {
    let mut o = empty();
    assert_eq!(windows::share_title(&o), "Shared content");
    o.files = Some(vec![file("aGVsbG8=", "notes.txt")]);
    assert_eq!(windows::share_title(&o), "notes.txt");
    o.file_paths = Some(vec!["/home/me/report.zip".to_string()]);
    assert_eq!(windows::share_title(&o), "report.zip");
    assert_eq!(windows::share_title_from(&o, None), "notes.txt");
    o.title = Some("Mine".to_string());
    assert_eq!(windows::share_title(&o), "Mine");
}

#[test]
fn windows_text_plan_covers_each_case() {
    let mut o = empty();
    o.text = Some("t".to_string());
    o.url = Some("https://u.example".to_string());
    let p = windows::text_plan(&o, true);
    assert_eq!((p.text.as_deref(), p.web_link.as_deref()), (Some("t"), Some("https://u.example")));
    let p = windows::text_plan(&o, false);
    assert_eq!((p.text.as_deref(), p.web_link.as_deref()), (Some("t\nhttps://u.example"), None));
    o.url = None;
    let p = windows::text_plan(&o, true);
    assert_eq!((p.text.as_deref(), p.web_link.as_deref()), (Some("t"), None));
    o.text = Some(String::new());
    let p = windows::text_plan(&o, true);
    assert_eq!((p.text.as_deref(), p.web_link.as_deref()), (None, None));
    o.text = None;
    o.url = Some("odd".to_string());
    let p = windows::text_plan(&o, false);
    assert_eq!((p.text.as_deref(), p.web_link.as_deref()), (Some("odd"), None));
    let p = windows::text_plan(&o, true);
    assert_eq!((p.text.as_deref(), p.web_link.as_deref()), (None, Some("odd")));
}

#[test]
fn windows_storage_paths_skip_empty_and_use_backslashes() {
    let paths = vec![String::new(), "C:/a/b.txt".to_string(), "x".to_string()];
    assert_eq!(windows::storage_paths(&paths), vec!["C:\\a\\b.txt".to_string(), "x".to_string()]);
    assert_eq!(windows::to_backslashes("/a/é/c"), "\\a\\é\\c");
}

#[test]
fn accepted_request_is_within_every_limit() {
    let o = ShareOptions {
        text: Some("Check this".to_string()),
        title: Some("T".to_string()),
        url: Some("https://example.com".to_string()),
        files: Some(vec![file("aGVsbG8=", "hello.txt")]),
        file_paths: Some(vec!["/tmp/a".to_string()]),
        anchor: None,
    };
    assert!(o.validate().is_ok());
    assert!(o.has_shareable_content());
    let joined = o.combined_text().unwrap();
    assert!(joined.starts_with("Check this"));
    assert!(joined.ends_with("https://example.com"));
}

#[test]
fn estimate_matches_decoded_length_for_valid_data() {
    for (data, decoded) in [
        ("", 0usize),
        ("aA==", 1),
        ("aGk=", 2),
        ("aGVsbG8=", 5),
        ("aGVsbG8gd29ybGQ=", 11),
        ("cGF5bG9hZA==", 7),
    ] {
        let est = estimate_base64_decoded_len(data).unwrap();
        let d = decode_shared_file(&file(data, "x.bin")).unwrap();
        assert_eq!(est, decoded, "{data}");
        assert_eq!(d.bytes.len(), decoded, "{data}");
    }
}

#[test]
fn accepted_urls_begin_with_a_web_scheme() {
    for url in ["HTTPS://Example.com", "http://a", "hTtPs://[::1]", "https://user@host/x"] {
        assert!(validate_web_url(url).is_ok(), "{url}");
        let lower = url.to_ascii_lowercase();
        assert!(lower.starts_with("http://") || lower.starts_with("https://"), "{url}");
        assert!(!url.chars().any(|c| c.is_control() || c.is_whitespace()));
    }
}

#[test]
fn estimate_never_exceeds_three_quarters_of_length() {
    for data in ["", "AAAA", "AA==", "AAA=", "AAAAAAAA", "QUJD"] {
        let est = estimate_base64_decoded_len(data).unwrap();
        assert!(est <= data.len() / 4 * 3, "{data}");
    }
}

#[test]
fn plain_names_are_kept_whole() {
    let mut o = empty();
    o.file_paths = Some(vec!["report.zip".to_string(), "other.txt".to_string()]);
    assert_eq!(windows::share_title(&o), "report.zip");
    let d = decode_shared_file(&file("aGk=", "my notes.txt")).unwrap();
    assert_eq!(d.file_name, "my notes.txt");
    assert_eq!(d.bytes, b"hi");
    assert!(matches!(
        decode_shared_file(&file("aGk=", "")),
        Err(Error::InvalidArgs(Invalid::InvalidFileName))
    ));
}

#[test]
fn simple_paths_keep_their_last_segment() {
    for (name, kept) in [
        ("../etc/secret.txt", Some("secret.txt")),
        ("a//b/", Some("b")),
        ("a/./b/.", Some("b")),
        ("./x", Some("x")),
        ("dir/..", None),
        ("/", None),
        (".", None),
    ] {
        let got = decode_shared_file(&file("aGk=", name));
        match kept {
            Some(k) => assert_eq!(got.unwrap().file_name, k, "{name}"),
            None => assert!(
                matches!(got, Err(Error::InvalidArgs(Invalid::InvalidFileName))),
                "{name}"
            ),
        }
    }
    let mut o = empty();
    o.file_paths = Some(vec!["/home/me/docs/".to_string()]);
    assert_eq!(windows::share_title(&o), "docs");
}

#[test]
fn macos_delegate_reports_once() {
    let s = delegate_step(true, PickerEvent::ServiceChosen);
    assert!(s.waiting && s.deliver.is_none() && !s.release_delegate);
    let s = delegate_step(true, PickerEvent::Failed);
    assert!(!s.waiting && s.deliver == Some(ShareOutcome::Failed) && s.release_delegate);
    let again = delegate_step(s.waiting, PickerEvent::Shared);
    assert!(again.deliver.is_none() && again.release_delegate);
    let s = delegate_step(true, PickerEvent::ClosedWithoutService);
    assert_eq!(s.deliver, Some(ShareOutcome::Completed));
    let s = delegate_step(true, PickerEvent::Shared);
    assert_eq!(s.deliver, Some(ShareOutcome::Completed));
}

#[test]
fn first_position_finds_the_earliest_match() {
    assert_eq!(macos::first_position(&vec![4, 7, 4], 4), Some(0));
    assert_eq!(macos::first_position(&vec![4, 7, 4], 7), Some(1));
    assert_eq!(macos::first_position(&vec![4, 7, 4], 9), None);
    assert_eq!(macos::first_position(&vec![], 9), None);
}

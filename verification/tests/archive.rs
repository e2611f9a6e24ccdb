use ktesio::archive::{extract_from_tar_gz, extract_from_zip, file_name, find_binary, ArchiveItem};

#[test]
fn test_file_name_takes_the_last_normal_component() {
    assert_eq!(file_name("./kt").as_deref(), Some("kt"));
    assert_eq!(file_name("ktesio-v1/kt").as_deref(), Some("kt"));
    assert_eq!(file_name("dir/kt/").as_deref(), Some("kt"));
    assert_eq!(file_name("a/.").as_deref(), Some("a"));
    assert_eq!(file_name("/"), None);
    assert_eq!(file_name("."), None);
    assert_eq!(file_name("a/.."), None);
    assert_eq!(file_name(""), None);
}

#[test]
fn test_find_binary_stops_at_the_first_failure_or_match() {
    let items = vec![
        ArchiveItem::Entry("docs/README".to_string()),
        ArchiveItem::Entry("bin/kt".to_string()),
        ArchiveItem::EntryFailed("late failure".to_string()),
    ];
    assert_eq!(find_binary(&items, "kt").unwrap(), 1);

    let items = vec![ArchiveItem::PathFailed("bad path".to_string()), ArchiveItem::Entry("kt".to_string())];
    assert_eq!(find_binary(&items, "kt").unwrap_err().message, "Could not read release archive entry path: bad path");

    let items = vec![ArchiveItem::Entry("kt.exe".to_string()), ArchiveItem::EntryFailed("truncated".to_string())];
    assert_eq!(find_binary(&items, "kt").unwrap_err().message, "Could not read release archive entry: truncated");

    let items = vec![ArchiveItem::Entry("kt.exe".to_string())];
    assert_eq!(find_binary(&items, "kt").unwrap_err().message, "Release archive did not contain kt.");
}

#[test]
fn test_extract_reports_unreadable_bytes() {
    let error = extract_from_tar_gz(b"plain text", "kt").unwrap_err();
    assert!(error.message.starts_with("Could not read release archive"));
    let error = extract_from_zip(b"plain text", "kt.exe").unwrap_err();
    assert!(error.message.starts_with("Could not read release archive: "));
}

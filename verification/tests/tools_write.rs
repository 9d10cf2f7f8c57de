use motif::tools::write::{parent_dir_failure, write_refusal, write_report, MAX_WRITE_SIZE};

#[test]
fn write_refusals_in_order() {
    assert_eq!(write_refusal("", None, "x"), Some("Error: 'file_path' is required".to_string()));
    assert_eq!(
        write_refusal("a/.env", Some(".env"), "x"),
        Some("Cannot write to protected file: .env".to_string())
    );
    assert_eq!(write_refusal("../x", Some("x"), ""), Some("Path traversal not allowed".to_string()));
    let big = "a".repeat(MAX_WRITE_SIZE + 1);
    assert_eq!(
        write_refusal("big.txt", Some("big.txt"), &big),
        Some("Content too large (1048577 bytes, limit is 1048576)".to_string())
    );
    let exact = "a".repeat(MAX_WRITE_SIZE);
    assert_eq!(write_refusal("ok.txt", Some("ok.txt"), &exact), None);
    assert_eq!(write_refusal("dir/notes.txt", Some("notes.txt"), "hello"), None);
}

#[test]
fn write_reports() {
    assert_eq!(write_report("p", "", Ok(())), "Created empty file: p");
    assert_eq!(write_report("p", "héllo", Ok(())), "Wrote 6 bytes to p");
    assert_eq!(write_report("p", "x", Err("boom".to_string())), "Error writing file: boom");
    assert_eq!(parent_dir_failure("denied"), "Cannot create parent directory: denied");
}

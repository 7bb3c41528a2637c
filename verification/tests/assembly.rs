use combiner::assemble::{assemble, make_entry, FileEntry, Payload, RunConfig};
use combiner::paths::{basename_for, relpath_for};

fn cfg(header: &str, sep: &str, skip_binary: bool) -> RunConfig {
    RunConfig {
        header_format: header.as_bytes().to_vec(),
        separator: sep.as_bytes().to_vec(),
        max_kb: 1024,
        skip_binary,
    }
}

fn entry(path: &str, root: Option<&str>, payload: Payload) -> FileEntry {
    make_entry(&path.to_string(), &root.map(|r| r.to_string()), payload)
}

#[test]
fn round_trip_single_file() {
    let entries = vec![entry("a.txt", None, Payload::Data(b"Hello, World!".to_vec()))];
    let out = assemble(&entries, &cfg("file ${index}: ${relpath}", "\\n\\n", false));
    assert_eq!(String::from_utf8(out.text).unwrap(), "file 1: a.txt\nHello, World!\n");
    assert_eq!(out.processed, 1);
    assert_eq!(out.skipped, 0);
}

#[test]
fn clipboard_content_exact_match() {
    let entries = vec![
        entry("/ws/hello.txt", Some("/ws"), Payload::Data(b"Hello, World!".to_vec())),
        entry("/ws/world.txt", Some("/ws"), Payload::Data(b"Goodbye, Universe!".to_vec())),
    ];
    let out = assemble(
        &entries,
        &cfg("=== File ${index}: ${basename} ===", "\\n---SEPARATOR---\\n", false),
    );
    let text = String::from_utf8(out.text).unwrap();
    assert_eq!(
        text.trim_end(),
        "=== File 1: hello.txt ===\nHello, World!\n\n---SEPARATOR---\n=== File 2: world.txt ===\nGoodbye, Universe!"
    );
    assert_eq!(out.processed, 2);
}

#[test]
fn clipboard_returns_text() {
    let entries = vec![
        entry("/d/a.txt", Some("/d"), Payload::Data(b"hello".to_vec())),
        entry("/d/sub/b.txt", Some("/d"), Payload::Data(b"world".to_vec())),
    ];
    let out = assemble(&entries, &cfg("File ${index}: ${relpath}", "\\n---\\n", false));
    let text = String::from_utf8(out.text).unwrap();
    assert!(text.contains("File 1:") && text.contains("a.txt"), "Expected 'File 1:' and 'a.txt' in output: {}", text);
    assert!(text.contains("File 2:") && text.contains("b.txt"), "Expected 'File 2:' and 'b.txt' in output: {}", text);
    assert!(text.contains("hello"));
    assert!(text.contains("world"));
    assert!(text.contains("---"));
}

#[test]
fn clipboard_relative_paths_formatting() {
    let root = entry("/r/root.txt", Some("/r"), Payload::Data(b"root content".to_vec()));
    let nested = entry(
        "/r/subdir/nested.txt",
        Some("/r"),
        Payload::Data(b"nested content".to_vec()),
    );
    let out = assemble(&vec![root, nested], &cfg("${index}. ${relpath}", "\\n\\n", false));
    let text = String::from_utf8(out.text).unwrap();
    assert!(text.contains("1. root.txt"));
    assert!(text.contains("2. subdir/nested.txt"));
    assert!(text.contains("root content"));
    assert!(text.contains("nested content"));
}

#[test]
fn clipboard_skips_binary_files() {
    let entries = vec![
        entry("text.txt", None, Payload::Data(b"This is text content".to_vec())),
        entry("binary.bin", None, Payload::Data(vec![0u8, 255, 1, 2, 3])),
    ];
    let out = assemble(&entries, &cfg("file ${index}: ${relpath}", "\\n\\n", true));
    let text = String::from_utf8(out.text).unwrap();
    assert!(text.contains("This is text content"));
    assert!(text.contains("<skipped: binary>"));
    assert_eq!(out.processed, 1);
    assert_eq!(out.skipped, 1);
}

#[test]
fn binary_not_skipped_without_flag() {
    let entries = vec![entry("binary.bin", None, Payload::Data(vec![65u8, 0, 66]))];
    let out = assemble(&entries, &cfg("h", "\\n\\n", false));
    assert!(!String::from_utf8_lossy(&out.text).contains("<skipped: binary>"));
    assert_eq!(out.processed, 1);
}

#[test]
fn clipboard_skips_large_files() {
    let entries = vec![
        entry("small.txt", None, Payload::Data(b"small content".to_vec())),
        entry("large.txt", None, Payload::TooLarge),
    ];
    let out = assemble(&entries, &cfg("file ${index}: ${relpath}", "\\n\\n", false));
    let text = String::from_utf8(out.text).unwrap();
    assert!(text.contains("small content"));
    assert!(text.contains("<skipped: too large>"));
    assert_eq!(out.processed, 1);
    assert_eq!(out.skipped, 1);
}

#[test]
fn clipboard_custom_separators() {
    let entries = vec![
        entry("one.txt", None, Payload::Data(b"Content 1".to_vec())),
        entry("two.txt", None, Payload::Data(b"Content 2".to_vec())),
    ];
    let out = assemble(&entries, &cfg("file ${index}: ${relpath}", "\\n=== BREAK ===\\n", false));
    let text = String::from_utf8(out.text).unwrap();
    assert_eq!(text.matches("=== BREAK ===").count(), 1);
    assert!(text.contains("Content 1"));
    assert!(text.contains("Content 2"));
}

#[test]
fn clipboard_empty_files_handling() {
    let entries = vec![
        entry("empty.txt", None, Payload::Data(Vec::new())),
        entry("normal.txt", None, Payload::Data(b"Normal content".to_vec())),
    ];
    let out = assemble(&entries, &cfg("File: ${basename}", "\\n\\n", false));
    let text = String::from_utf8(out.text).unwrap();
    assert!(text.contains("File: empty.txt"));
    assert!(text.contains("File: normal.txt"));
    assert!(text.contains("Normal content"));
    assert_eq!(out.processed, 2);
}

#[test]
fn header_and_separator_counts() {
    let entries = vec![
        entry("a", None, Payload::Data(b"1".to_vec())),
        entry("b", None, Payload::Data(b"2".to_vec())),
        entry("c", None, Payload::Data(b"3".to_vec())),
    ];
    let out = assemble(&entries, &cfg("HEADER ${index}", "|SEP|", false));
    let text = String::from_utf8(out.text).unwrap();
    assert_eq!(text.matches("HEADER").count(), 3);
    assert_eq!(text.matches("|SEP|").count(), 2);
}

#[test]
fn processed_and_skipped_sum_to_total() {
    let entries = vec![
        entry("a", None, Payload::Data(b"text".to_vec())),
        entry("b", None, Payload::TooLarge),
        entry("c", None, Payload::Data(vec![0u8])),
        entry("d", None, Payload::Data(b"more".to_vec())),
    ];
    let out = assemble(&entries, &cfg("h ${index}", "\\n", true));
    assert_eq!(out.processed + out.skipped, 4);
    assert_eq!(out.processed, 2);
    assert_eq!(out.skipped, 2);
}

#[test]
fn basename_falls_back_to_unknown() {
    assert_eq!(basename_for(&String::from("sub/y.txt")), "y.txt");
    assert_eq!(basename_for(&String::from("..")), "unknown");
}

#[test]
fn relpath_uses_root_when_possible() {
    assert_eq!(
        relpath_for(&String::from("/a/b/c.txt"), &Some(String::from("/a"))),
        "b/c.txt"
    );
    // A relative path against an absolute root cannot be computed; the
    // path is kept unchanged.
    assert_eq!(relpath_for(&String::from("c.txt"), &Some(String::from("/a"))), "c.txt");
    assert_eq!(relpath_for(&String::from("/x/y.txt"), &None), "/x/y.txt");
}

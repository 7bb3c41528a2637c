use combiner::binary::is_binary;
use combiner::content::clean_content;
use combiner::assemble::{exceeds_limit, render_header};
use combiner::text::{replace_all, to_decimal, unescape};

#[test]
fn unescape_decodes_newline_tab_and_return() {
    let s = b"a\\nb\\tc\\rd".to_vec();
    assert_eq!(unescape(&s), b"a\nb\tc\rd".to_vec());
}

#[test]
fn unescape_default_separator() {
    assert_eq!(unescape(&b"\\n\\n".to_vec()), b"\n\n".to_vec());
}

#[test]
fn unescape_leaves_other_text_alone() {
    assert_eq!(unescape(&b"---SEPARATOR---".to_vec()), b"---SEPARATOR---".to_vec());
    assert_eq!(unescape(&b"".to_vec()), b"".to_vec());
}

#[test]
fn unescape_replaces_sequences_in_order() {
    // The backslash before `\n` is consumed first, so no `\t` can form.
    assert_eq!(unescape(&b"\\\nt".to_vec()), b"\\\nt".to_vec());
    assert_eq!(unescape(&b"\\\\n".to_vec()), b"\\\n".to_vec());
}

#[test]
fn replace_all_replaces_every_occurrence() {
    let s = b"x${i}y${i}z".to_vec();
    let r = replace_all(&s, &b"${i}".to_vec(), &b"7".to_vec());
    assert_eq!(r, b"x7y7z".to_vec());
}

#[test]
fn replace_all_does_not_rescan_replacements() {
    let r = replace_all(&b"aa".to_vec(), &b"a".to_vec(), &b"ab".to_vec());
    assert_eq!(r, b"abab".to_vec());
}

#[test]
fn to_decimal_renders_digits() {
    assert_eq!(to_decimal(0), b"0".to_vec());
    assert_eq!(to_decimal(7), b"7".to_vec());
    assert_eq!(to_decimal(120), b"120".to_vec());
    assert_eq!(to_decimal(1009), b"1009".to_vec());
}

#[test]
fn render_header_substitutes_all_three_placeholders() {
    let tmpl = b"file ${index}: ${relpath} (${basename}) ${index}".to_vec();
    let r = render_header(&tmpl, 12, &b"a.txt".to_vec(), &b"sub/a.txt".to_vec());
    assert_eq!(r, b"file 12: sub/a.txt (a.txt) 12".to_vec());
}

#[test]
fn render_header_leaves_unknown_placeholders() {
    let tmpl = b"${other} ${index}".to_vec();
    let r = render_header(&tmpl, 1, &b"b".to_vec(), &b"b".to_vec());
    assert_eq!(r, b"${other} 1".to_vec());
}

#[test]
fn is_binary_empty_is_not_binary() {
    assert!(!is_binary(&Vec::new()));
}

#[test]
fn is_binary_null_byte_is_binary() {
    assert!(is_binary(&vec![b'a', 0u8, b'b']));
}

#[test]
fn is_binary_two_percent_boundary() {
    // One control byte in fifty: exactly two percent, not binary.
    let mut buf = vec![b'x'; 49];
    buf.push(1u8);
    assert!(!is_binary(&buf));
    // One control byte in forty-nine: over two percent, binary.
    let mut buf = vec![b'x'; 48];
    buf.push(1u8);
    assert!(is_binary(&buf));
}

#[test]
fn is_binary_plain_text_is_not_binary() {
    assert!(!is_binary(&b"This is text content\n".to_vec()));
}

#[test]
fn clean_content_trims_trailing_whitespace() {
    assert_eq!(clean_content(&b"Hello, World!\n\n  ".to_vec()), b"Hello, World!".to_vec());
    assert_eq!(clean_content(&b"".to_vec()), b"".to_vec());
    assert_eq!(clean_content(&b"  lead kept".to_vec()), b"  lead kept".to_vec());
}

#[test]
fn clean_content_replaces_invalid_utf8() {
    // A lone 0xFF is not valid UTF-8 and becomes the replacement character.
    assert_eq!(clean_content(&vec![0xFFu8]), vec![0xEFu8, 0xBF, 0xBD]);
}

#[test]
fn exceeds_limit_at_the_cutoff() {
    assert!(!exceeds_limit(1048576, 1024));
    assert!(exceeds_limit(1048577, 1024));
    assert!(!exceeds_limit(0, 0));
    assert!(exceeds_limit(1, 0));
}

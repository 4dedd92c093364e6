use rtt_collector::decode::{decode_buffer, decode_buffer_lines, split_lines};

#[test]
fn valid_buffer_decodes_without_warning() {
    let (text, warning) = decode_buffer(b"hello\nworld\n");
    assert_eq!(text, "hello\nworld\n");
    assert!(!warning);
}

#[test]
fn invalid_buffer_decodes_lossily_with_one_warning() {
    let (text, warning) = decode_buffer(&[0xff, b'h', b'i']);
    assert!(warning);
    assert_eq!(text, "\u{fffd}hi");
    assert!(text.contains('\u{fffd}'));
}

#[test]
fn split_multibyte_sequence_is_replaced_not_fatal() {
    // "é" is [0xc3, 0xa9]; a read boundary can fall between the two bytes.
    let (first, warn_first) = decode_buffer(&[b'a', 0xc3]);
    let (second, warn_second) = decode_buffer(&[0xa9, b'b']);
    assert!(warn_first);
    assert!(warn_second);
    assert_eq!(first, "a\u{fffd}");
    assert_eq!(second, "\u{fffd}b");
}

#[test]
fn lines_split_on_newlines_and_strip_terminators() {
    let lines = split_lines("a\nb\r\nc\n");
    assert_eq!(lines, vec!["a".to_string(), "b".to_string(), "c".to_string()]);
}

#[test]
fn line_without_final_newline_is_kept() {
    assert_eq!(split_lines("tail"), vec!["tail".to_string()]);
    assert_eq!(split_lines("a\ntail"), vec!["a".to_string(), "tail".to_string()]);
}

#[test]
fn empty_text_has_no_lines() {
    assert_eq!(split_lines(""), Vec::<String>::new());
}

#[test]
fn blank_lines_are_preserved() {
    assert_eq!(split_lines("\n\n"), vec![String::new(), String::new()]);
}

#[test]
fn lone_carriage_return_is_not_a_terminator() {
    assert_eq!(split_lines("a\rb\n"), vec!["a\rb".to_string()]);
    assert_eq!(split_lines("a\r"), vec!["a\r".to_string()]);
}

#[test]
fn non_ascii_text_survives_decoding() {
    let (lines, warning) = decode_buffer_lines("grüße\nこんにちは\n".as_bytes());
    assert!(!warning);
    assert_eq!(lines, vec!["grüße".to_string(), "こんにちは".to_string()]);
}

#[test]
fn buffer_lines_in_arrival_order() {
    let (lines, warning) = decode_buffer_lines(b"one\ntwo\nthree");
    assert!(!warning);
    assert_eq!(
        lines,
        vec!["one".to_string(), "two".to_string(), "three".to_string()]
    );
}

#[test]
fn invalid_buffer_still_yields_lines() {
    let (lines, warning) = decode_buffer_lines(&[b'o', b'k', b'\n', 0xfe]);
    assert!(warning);
    assert_eq!(lines, vec!["ok".to_string(), "\u{fffd}".to_string()]);
}

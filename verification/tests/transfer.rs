use screen_lib::transfer::{encode_header, header_for_path, parse_transfer, TransferError};

#[test]
fn header_holds_big_endian_length_then_name() {
    let h = encode_header("a.txt");
    assert_eq!(h, vec![0, 0, 0, 5, b'a', b'.', b't', b'x', b't']);
}

#[test]
fn header_counts_utf8_bytes_not_chars() {
    let h = encode_header("é");
    assert_eq!(h, vec![0, 0, 0, 2, 0xc3, 0xa9]);
}

#[test]
fn header_for_path_uses_last_component() {
    let h = header_for_path("/home/user/docs/report.pdf").unwrap();
    let mut expected = vec![0u8, 0, 0, 10];
    expected.extend_from_slice(b"report.pdf");
    assert_eq!(h, expected);
}

#[test]
fn header_for_path_without_file_name_is_none() {
    assert!(header_for_path("/").is_none());
    assert!(header_for_path("dir/..").is_none());
}

#[test]
fn transfer_roundtrip_gives_back_name_and_content() {
    let mut frame = encode_header("notes.md");
    frame.extend_from_slice(b"hello world");
    let f = parse_transfer(&frame).ok().unwrap();
    assert_eq!(f.name, "notes.md");
    assert_eq!(f.content, b"hello world".to_vec());
}

#[test]
fn transfer_roundtrip_with_empty_content_and_unicode_name() {
    let frame = encode_header("数据.bin");
    let f = parse_transfer(&frame).ok().unwrap();
    assert_eq!(f.name, "数据.bin");
    assert!(f.content.is_empty());
}

#[test]
fn parse_short_stream_reports_missing_length() {
    assert!(matches!(parse_transfer(&[0, 0, 1]), Err(TransferError::MissingNameLength)));
    assert!(matches!(parse_transfer(&[]), Err(TransferError::MissingNameLength)));
}

#[test]
fn parse_reports_truncated_name() {
    assert!(matches!(parse_transfer(&[0, 0, 0, 4, b'a', b'b']), Err(TransferError::TruncatedName)));
    assert!(matches!(parse_transfer(&[0xff, 0xff, 0xff, 0xff]), Err(TransferError::TruncatedName)));
}

#[test]
fn parse_reports_invalid_utf8_name() {
    assert!(matches!(parse_transfer(&[0, 0, 0, 2, 0xc3, 0x28, 1, 2]), Err(TransferError::InvalidName)));
}

#[test]
fn parse_empty_name_takes_rest_as_content() {
    let f = parse_transfer(&[0, 0, 0, 0, 9, 8, 7]).ok().unwrap();
    assert_eq!(f.name, "");
    assert_eq!(f.content, vec![9, 8, 7]);
}

#[test]
fn header_for_path_frames_plain_last_piece() {
    let h = header_for_path("/tmp/a.txt").unwrap();
    assert_eq!(h, vec![0, 0, 0, 5, b'a', b'.', b't', b'x', b't']);
    let h2 = header_for_path("a.txt").unwrap();
    assert_eq!(h2, h);
}

#[test]
fn sent_file_is_received_under_last_piece() {
    let mut frame = header_for_path("/tmp/a.txt").unwrap();
    frame.extend_from_slice(b"hi");
    let f = parse_transfer(&frame).ok().unwrap();
    assert_eq!(f.name, "a.txt");
    assert_eq!(f.content, b"hi".to_vec());
    assert_eq!(
        screen_lib::config::received_file("/home/u", &f.name),
        vec!["/home/u", "Keychron_Screen", "a.txt"]
    );
}

#[test]
fn header_for_path_skips_trailing_separators_and_dots() {
    let expected = header_for_path("/tmp/a.txt").unwrap();
    assert_eq!(header_for_path("/tmp/a.txt/").unwrap(), expected);
    assert_eq!(header_for_path("/tmp/a.txt/.").unwrap(), expected);
    assert_eq!(header_for_path("/tmp/a.txt/.//").unwrap(), expected);
}

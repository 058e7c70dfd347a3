use peroxide::multipart::{parse_multipart, parse_multipart_text};

fn body(parts: &str) -> Vec<u8> {
    parts.as_bytes().to_vec()
}

#[test]
fn finds_name_and_content() {
    let b = body(
        "--XYZ\r\nContent-Disposition: form-data; name=\"file\"; filename=\"test.txt\"\r\nContent-Type: text/plain\r\n\r\nhello malware\r\n--XYZ--\r\n",
    );
    let (name, data) = parse_multipart(&b, "XYZ").unwrap();
    assert_eq!(name, "test.txt");
    assert_eq!(data, b"hello malware\r\n".to_vec());
}

#[test]
fn content_ends_before_a_line_break_with_two_hyphens() {
    let b = body(
        "--B\r\nContent-Disposition: form-data; filename=\"a.bin\"\r\n\r\nfirst\r\n--not the boundary\r\nsecond\r\n--B--",
    );
    let (name, data) = parse_multipart(&b, "B").unwrap();
    assert_eq!(name, "a.bin");
    assert_eq!(data, b"first".to_vec());
}

#[test]
fn no_file_part_is_an_error() {
    let b = body("--XYZ\r\nContent-Disposition: form-data; name=\"field\"\r\n\r\nvalue\r\n--XYZ--\r\n");
    assert_eq!(parse_multipart(&b, "XYZ"), Err("No file found in multipart data".to_string()));
    assert_eq!(parse_multipart(b"", "XYZ"), Err("No file found in multipart data".to_string()));
}

#[test]
fn part_without_empty_line_is_skipped() {
    let b = body(
        "--XYZ\r\nContent-Disposition: form-data; filename=\"lost.txt\"\r\n--XYZ\r\nContent-Disposition: form-data; filename=\"kept.txt\"\r\n\r\nkept\r\n--XYZ--",
    );
    let (name, data) = parse_multipart(&b, "XYZ").unwrap();
    assert_eq!(name, "kept.txt");
    assert_eq!(data, b"kept\r\n".to_vec());
}

#[test]
fn first_file_part_wins() {
    let b = body(
        "--XYZ\r\nContent-Disposition: form-data; filename=\"one\"\r\n\r\n1\r\n--XYZ\r\nContent-Disposition: form-data; filename=\"two\"\r\n\r\n2\r\n--XYZ--",
    );
    let (name, data) = parse_multipart(&b, "XYZ").unwrap();
    assert_eq!(name, "one");
    assert_eq!(data, b"1\r\n".to_vec());
}

#[test]
fn unquoted_filename_gets_the_default_name() {
    let b = body("--XYZ\r\nContent-Disposition: form-data; filename=plain.txt\r\n\r\ndata");
    let (name, data) = parse_multipart(&b, "XYZ").unwrap();
    assert_eq!(name, "uploaded_file");
    assert_eq!(data, b"data".to_vec());
}

#[test]
fn only_the_first_line_with_filename_counts() {
    let b = body(
        "--XYZ\r\nContent-Disposition: x; filename=bare\r\nX-Other: filename=\"quoted\"\r\n\r\ndata",
    );
    let (name, _) = parse_multipart(&b, "XYZ").unwrap();
    assert_eq!(name, "uploaded_file");
}

#[test]
fn name_ends_at_the_next_opening_without_a_quote() {
    let b = body("--XYZ\r\nContent-Disposition: x; filename=\"abcfilename=\"x\"\r\n\r\ndata");
    let (name, _) = parse_multipart(&b, "XYZ").unwrap();
    assert_eq!(name, "abc");
}

#[test]
fn name_without_closing_quote_runs_to_the_line_end() {
    let b = body("--XYZ\r\nContent-Disposition: x; filename=\"open end\r\n\r\ndata");
    let (name, _) = parse_multipart(&b, "XYZ").unwrap();
    assert_eq!(name, "open end");
}

#[test]
fn empty_quoted_name_is_kept_empty() {
    let b = body("--XYZ\r\nContent-Disposition: x; filename=\"\"\r\n\r\ndata");
    let (name, _) = parse_multipart(&b, "XYZ").unwrap();
    assert_eq!(name, "");
}

#[test]
fn name_with_characters_beyond_ascii() {
    let b = body("--XYZ\r\nContent-Disposition: x; filename=\"résumé ✓.txt\"\r\n\r\ndata");
    let (name, data) = parse_multipart(&b, "XYZ").unwrap();
    assert_eq!(name, "résumé ✓.txt");
    assert_eq!(data, b"data".to_vec());
}

#[test]
fn boundary_with_characters_beyond_ascii() {
    let b = body("--é✓\r\nContent-Disposition: x; filename=\"n\"\r\n\r\nd\r\n--é✓--");
    let (name, data) = parse_multipart(&b, "é✓").unwrap();
    assert_eq!(name, "n");
    assert_eq!(data, b"d\r\n".to_vec());
}

#[test]
fn empty_boundary_splits_at_two_hyphens() {
    let b = body("--\r\nContent-Disposition: x; filename=\"n\"\r\n\r\nab--cd");
    let (name, data) = parse_multipart(&b, "").unwrap();
    assert_eq!(name, "n");
    assert_eq!(data, b"ab".to_vec());
}

#[test]
fn body_without_any_delimiter_is_one_part() {
    let b = body("Content-Disposition: x; filename=\"solo\"\r\n\r\nall of it");
    let (name, data) = parse_multipart(&b, "XYZ").unwrap();
    assert_eq!(name, "solo");
    assert_eq!(data, b"all of it".to_vec());
}

#[test]
fn ill_formed_bytes_are_replaced_in_the_content() {
    let mut b = body("--XYZ\r\nContent-Disposition: x; filename=\"bin\"\r\n\r\n");
    b.extend_from_slice(&[0x4d, 0x5a, 0xff, 0x00, 0x80]);
    b.extend_from_slice(b"\r\n--XYZ--");
    let (name, data) = parse_multipart(&b, "XYZ").unwrap();
    assert_eq!(name, "bin");
    assert_eq!(data, vec![0x4d, 0x5a, 0xef, 0xbf, 0xbd, 0x00, 0xef, 0xbf, 0xbd, 0x0d, 0x0a]);
}

#[test]
fn text_parser_agrees_with_body_parser_on_text() {
    let text = "--XYZ\r\nContent-Disposition: x; filename=\"t\"\r\n\r\npayload\r\n--XYZ--";
    assert_eq!(parse_multipart_text(text, "XYZ"), parse_multipart(text.as_bytes(), "XYZ"));
    assert_eq!(parse_multipart_text(text, "XYZ"), Ok(("t".to_string(), b"payload\r\n".to_vec())));
    assert_eq!(
        parse_multipart_text("nothing", "XYZ"),
        Err("No file found in multipart data".to_string())
    );
}

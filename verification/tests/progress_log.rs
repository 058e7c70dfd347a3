use peroxide::progress::{
    decimal_text, format_log_line, parse_log_line, read_u32, sse_event, updates_since,
    POLL_INTERVAL_MILLIS,
};
use peroxide::types::ProgressUpdate;

fn update(progress: u32, message: &str) -> ProgressUpdate {
    ProgressUpdate { progress, message: message.to_string() }
}

#[test]
fn decimal_text_writes_numbers() {
    assert_eq!(decimal_text(0), "0");
    assert_eq!(decimal_text(7), "7");
    assert_eq!(decimal_text(10), "10");
    assert_eq!(decimal_text(100), "100");
    assert_eq!(decimal_text(4294967295), "4294967295");
    assert_eq!(decimal_text(u64::MAX), "18446744073709551615");
}

#[test]
fn format_log_line_has_percent_in_brackets() {
    assert_eq!(format_log_line(0, "Warming up..."), "[0%] Warming up...");
    assert_eq!(format_log_line(10, "Reading file content..."), "[10%] Reading file content...");
    assert_eq!(format_log_line(100, "Scan complete!"), "[100%] Scan complete!");
    assert_eq!(format_log_line(5, ""), "[5%] ");
}

#[test]
fn parse_log_line_reads_percent_and_message() {
    assert_eq!(parse_log_line("[10%] Reading file content..."), update(10, "Reading file content..."));
    assert_eq!(parse_log_line("[100%] Scan complete!"), update(100, "Scan complete!"));
    assert_eq!(parse_log_line("[0%] "), update(0, ""));
}

#[test]
fn parse_inverts_format() {
    for progress in [0u32, 1, 9, 10, 50, 99, 100, 12345, u32::MAX] {
        for message in ["", "plain", "with ] and [ and %", "ünï ✓ code", "[7%] nested"] {
            let line = format_log_line(progress, message);
            assert_eq!(parse_log_line(&line), update(progress, message));
        }
    }
}

#[test]
fn line_without_brackets_is_all_message() {
    assert_eq!(
        parse_log_line("Error reading file: No such file or directory (os error 2)"),
        update(0, "Error reading file: No such file or directory (os error 2)")
    );
    assert_eq!(parse_log_line(""), update(0, ""));
}

#[test]
fn percent_needs_a_number_between_bracket_and_sign() {
    assert_eq!(parse_log_line("[abc%] m").progress, 0);
    assert_eq!(parse_log_line("[%] m").progress, 0);
    assert_eq!(parse_log_line("[ 5%] m").progress, 0);
    assert_eq!(parse_log_line("[-5%] m").progress, 0);
    assert_eq!(parse_log_line("[+5%] m").progress, 5);
    assert_eq!(parse_log_line("[007%] m").progress, 7);
    assert_eq!(parse_log_line("[4294967295%] m").progress, 4294967295);
    assert_eq!(parse_log_line("[4294967296%] m").progress, 0);
    assert_eq!(parse_log_line("x[12%] m").progress, 12);
    assert_eq!(parse_log_line("[12] m").progress, 0);
    assert_eq!(parse_log_line("12%] m").progress, 0);
}

#[test]
fn sign_before_bracket_gives_zero() {
    assert_eq!(parse_log_line("%[5] m"), update(0, "m"));
}

#[test]
fn message_starts_two_bytes_behind_the_bracket() {
    assert_eq!(parse_log_line("a]bcd").message, "cd");
    assert_eq!(parse_log_line("a]b").message, "");
    assert_eq!(parse_log_line("a]").message, "a]");
    assert_eq!(parse_log_line("a]é").message, "a]é");
    assert_eq!(parse_log_line("é] x").message, "x");
}

#[test]
fn read_u32_follows_the_number_grammar() {
    assert_eq!(read_u32(b"0"), Some(0));
    assert_eq!(read_u32(b"42"), Some(42));
    assert_eq!(read_u32(b"+42"), Some(42));
    assert_eq!(read_u32(b"0000000000000042"), Some(42));
    assert_eq!(read_u32(b"4294967295"), Some(u32::MAX));
    assert_eq!(read_u32(b"4294967296"), None);
    assert_eq!(read_u32(b"99999999999999999999999999"), None);
    assert_eq!(read_u32(b""), None);
    assert_eq!(read_u32(b"+"), None);
    assert_eq!(read_u32(b"-"), None);
    assert_eq!(read_u32(b"-1"), None);
    assert_eq!(read_u32(b"++1"), None);
    assert_eq!(read_u32(b"1+"), None);
    assert_eq!(read_u32(b"1_000"), None);
    assert_eq!(read_u32(b" 1"), None);
    assert_eq!(read_u32(b"1 "), None);
    assert_eq!(read_u32(b"12a"), None);
}

#[test]
fn read_u32_agrees_with_the_standard_parser() {
    for text in ["0", "+0", "17", "+", "", "-3", "4294967295", "4294967296", "00", "1e3", "٣"] {
        assert_eq!(read_u32(text.as_bytes()), text.parse::<u32>().ok());
    }
}

#[test]
fn updates_since_reads_from_the_cursor() {
    let logs = vec![
        "[0%] Warming up...".to_string(),
        "[10%] Reading file content...".to_string(),
        "Error reading file: gone".to_string(),
    ];
    assert_eq!(
        updates_since(&logs, 0),
        vec![
            update(0, "Warming up..."),
            update(10, "Reading file content..."),
            update(0, "Error reading file: gone"),
        ]
    );
    assert_eq!(updates_since(&logs, 2), vec![update(0, "Error reading file: gone")]);
    assert_eq!(updates_since(&logs, 3), vec![]);
    assert_eq!(updates_since(&logs, 17), vec![]);
    assert_eq!(updates_since(&vec![], 0), vec![]);
}

#[test]
fn sse_event_frames_a_payload() {
    assert_eq!(sse_event("{\"progress\":10}"), "data: {\"progress\":10}\n\n");
    assert_eq!(sse_event(""), "data: \n\n");
}

#[test]
fn poll_interval_is_bounded_and_not_zero() {
    assert_eq!(POLL_INTERVAL_MILLIS, 100);
}

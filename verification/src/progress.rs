//! The progress log: how an entry is written as a line, and how a reader
//! gets percent and message back from a line.

use crate::bytes::{
    find, first_match, lemma_byte_matches, lemma_first_match_is, matches_at,
};
use crate::text::{lemma_boundary_at_join, lemma_encode_ascii, lemma_encode_concat, text_from};
use crate::types::{texts, ProgressUpdate, ProgressUpdateView};
use vstd::prelude::*;
use vstd::slice::slice_subrange;
use vstd::string::{StringExecFns, StringSliceAdditionalSpecFns};
use vstd::utf8::{
    decode_utf8, encode_utf8, encode_utf8_decode_utf8, encode_utf8_valid_utf8, is_ascii_chars,
    is_char_boundary,
};

verus! {

/// The character for a decimal digit.
pub open spec fn digit_char(d: nat) -> char {
    if d == 0 {
        '0'
    } else if d == 1 {
        '1'
    } else if d == 2 {
        '2'
    } else if d == 3 {
        '3'
    } else if d == 4 {
        '4'
    } else if d == 5 {
        '5'
    } else if d == 6 {
        '6'
    } else if d == 7 {
        '7'
    } else if d == 8 {
        '8'
    } else {
        '9'
    }
}

/// A number in decimal, without leading zeros.
pub open spec fn decimal(n: nat) -> Seq<char>
    decreases n,
{
    if n < 10 {
        seq![digit_char(n)]
    } else {
        decimal(n / 10).push(digit_char(n % 10))
    }
}

/// The line for a log entry: the percentage in brackets, a space, and the
/// message.
pub open spec fn log_line(progress: u32, message: Seq<char>) -> Seq<char> {
    "["@ + decimal(progress as nat) + "%] "@ + message
}

/// The byte is a decimal digit.
pub open spec fn is_digit(byte: u8) -> bool {
    0x30 <= byte <= 0x39
}

/// Every byte is a decimal digit.
pub open spec fn all_digits(text: Seq<u8>) -> bool {
    forall|i: int| 0 <= i < text.len() ==> is_digit(#[trigger] text[i])
}

/// The number that a string of decimal digits stands for.
pub open spec fn digits_value(digits: Seq<u8>) -> nat
    decreases digits.len(),
{
    if digits.len() == 0 {
        0
    } else {
        (digits_value(digits.drop_last()) * 10 + (digits.last() - 0x30)) as nat
    }
}

/// The digits of a number text: the text without a leading plus sign.
pub open spec fn unsigned_digits(text: Seq<u8>) -> Seq<u8> {
    if text.len() > 0 && text[0] == 0x2b {
        text.drop_first()
    } else {
        text
    }
}

/// The number that a text stands for: an optional plus sign and then one or
/// more decimal digits, whose value fits in 32 bits. No other text stands for
/// a number.
pub open spec fn parse_u32(text: Seq<u8>) -> Option<u32> {
    let digits = unsigned_digits(text);
    if digits.len() > 0 && all_digits(digits) && digits_value(digits) <= u32::MAX {
        Some(digits_value(digits) as u32)
    } else {
        None
    }
}

/// The percentage that a reader takes from a log line, given by its UTF-8
/// bytes: the number between the first `[` and the first `%`, and 0 where the
/// line has not both in this order or no number stands between them.
pub open spec fn line_progress(line: Seq<u8>) -> u32 {
    match (first_match(line, "[".spec_bytes()), first_match(line, "%".spec_bytes())) {
        (Some(open), Some(close)) => if open < close {
            match parse_u32(line.subrange(open + 1, close)) {
                Some(value) => value,
                None => 0,
            }
        } else {
            0
        },
        _ => 0,
    }
}

/// The message that a reader takes from a log line, as bytes: what stands two
/// bytes behind the first `]`, where a character starts there, and else the
/// whole line.
pub open spec fn line_message(line: Seq<u8>) -> Seq<u8> {
    match first_match(line, "]".spec_bytes()) {
        Some(close) => if is_char_boundary(line, close + 2) {
            line.subrange(close + 2, line.len() as int)
        } else {
            line
        },
        None => line,
    }
}

/// What a reader makes of a log line.
pub open spec fn update_of(line: Seq<char>) -> ProgressUpdateView {
    ProgressUpdateView {
        progress: line_progress(encode_utf8(line)),
        message: decode_utf8(line_message(encode_utf8(line))),
    }
}

/// What a reader makes of a list of log lines.
pub open spec fn updates_of(lines: Seq<Seq<char>>) -> Seq<ProgressUpdateView> {
    lines.map_values(|line: Seq<char>| update_of(line))
}

/// The views of a list of progress steps.
pub open spec fn update_views(updates: Seq<ProgressUpdate>) -> Seq<ProgressUpdateView> {
    updates.map_values(|update: ProgressUpdate| update@)
}

/// The decimal form of a number is made of digits, and stands for the number.
pub proof fn lemma_decimal_digits(n: nat)
    ensures
        is_ascii_chars(decimal(n)),
        decimal(n).len() >= 1,
        encode_utf8(decimal(n)).len() == decimal(n).len(),
        all_digits(encode_utf8(decimal(n))),
        digits_value(encode_utf8(decimal(n))) == n,
    decreases n,
{
    let last = seq![digit_char(n % 10)];
    assert(is_ascii_chars(last));
    lemma_encode_ascii(last);
    assert(encode_utf8(last)[0] == last[0] as u8);
    assert(encode_utf8(last)[0] == 0x30 + n % 10);
    if n < 10 {
        assert(decimal(n) =~= last);
        let bytes = encode_utf8(decimal(n));
        assert(bytes.drop_last().len() == 0);
        assert(digits_value(bytes.drop_last()) == 0);
    } else {
        let head = decimal(n / 10);
        lemma_decimal_digits(n / 10);
        assert(decimal(n) =~= head + last);
        lemma_encode_concat(head, last);
        let bytes = encode_utf8(decimal(n));
        assert(bytes =~= encode_utf8(head) + encode_utf8(last));
        assert(bytes.drop_last() =~= encode_utf8(head));
        assert(bytes.last() == encode_utf8(last)[0]);
        assert forall|i: int| 0 <= i < bytes.len() implies is_digit(#[trigger] bytes[i]) by {
            if i < encode_utf8(head).len() {
                assert(bytes[i] == encode_utf8(head)[i]);
            }
        }
        assert forall|i: int| 0 <= i < decimal(n).len() implies '\0' <= #[trigger] decimal(n)[i]
            <= '\u{7f}' by {
            if i < head.len() {
                assert(decimal(n)[i] == head[i]);
            }
        }
    }
}

/// A number in decimal is read back as the number.
pub proof fn lemma_parse_decimal(n: u32)
    ensures
        parse_u32(encode_utf8(decimal(n as nat))) == Some(n),
{
    lemma_decimal_digits(n as nat);
    let bytes = encode_utf8(decimal(n as nat));
    assert(is_digit(bytes[0]));
}

/// A reader gets back the entry that a line was written for: the percentage,
/// and the bytes of the message.
pub proof fn lemma_log_line_round_trip(progress: u32, message: Seq<char>)
    ensures
        line_progress(encode_utf8(log_line(progress, message))) == progress,
        line_message(encode_utf8(log_line(progress, message))) == encode_utf8(message),
        update_of(log_line(progress, message)) == (ProgressUpdateView { progress, message }),
{
    let digits = decimal(progress as nat);
    let number = encode_utf8(digits);
    let count = number.len() as int;
    let line = encode_utf8(log_line(progress, message));
    let head = "["@ + digits + "%] "@;
    reveal_strlit("[");
    reveal_strlit("%] ");
    reveal_strlit("%");
    reveal_strlit("]");
    lemma_decimal_digits(progress as nat);
    lemma_parse_decimal(progress);
    lemma_encode_ascii("["@);
    lemma_encode_ascii("%] "@);
    lemma_encode_ascii("%"@);
    lemma_encode_ascii("]"@);
    lemma_encode_concat("["@, digits);
    lemma_encode_concat("["@ + digits, "%] "@);
    lemma_encode_concat(head, message);
    let open = "[".spec_bytes();
    let percent = "%".spec_bytes();
    let close = "]".spec_bytes();
    assert(open =~= seq![0x5bu8]);
    assert(percent =~= seq![0x25u8]);
    assert(close =~= seq![0x5du8]);
    assert(encode_utf8("%] "@) =~= seq![0x25u8, 0x5du8, 0x20u8]);
    assert(line =~= open + number + encode_utf8("%] "@) + encode_utf8(message));
    assert(line[0] == 0x5bu8);
    assert forall|j: int| 1 <= j < 1 + count implies is_digit(#[trigger] line[j]) by {
        assert(line[j] == number[j - 1]);
    }
    assert(line[1 + count] == 0x25u8);
    assert(line[2 + count] == 0x5du8);
    assert(line[3 + count] == 0x20u8);

    lemma_byte_matches(line, 0x5bu8, 0);
    lemma_first_match_is(line, open, 0, 0);
    assert forall|j: int| 0 <= j < 1 + count implies !matches_at(line, percent, j) by {
        lemma_byte_matches(line, 0x25u8, j);
        if j >= 1 {
            assert(is_digit(line[j]));
        }
    }
    lemma_byte_matches(line, 0x25u8, 1 + count);
    lemma_first_match_is(line, percent, 0, 1 + count);
    assert forall|j: int| 0 <= j < 2 + count implies !matches_at(line, close, j) by {
        lemma_byte_matches(line, 0x5du8, j);
        if 1 <= j < 1 + count {
            assert(is_digit(line[j]));
        }
    }
    lemma_byte_matches(line, 0x5du8, 2 + count);
    lemma_first_match_is(line, close, 0, 2 + count);
    assert(line.subrange(1, 1 + count) =~= number);

    encode_utf8_valid_utf8(head);
    encode_utf8_valid_utf8(message);
    lemma_boundary_at_join(encode_utf8(head), encode_utf8(message));
    assert(encode_utf8(head).len() == 4 + count);
    assert(line.subrange(4 + count, line.len() as int) =~= encode_utf8(message));
    encode_utf8_decode_utf8(message);
}

fn digit_text(d: u64) -> (s: &'static str)
    requires
        d < 10,
    ensures
        s@ == seq![digit_char(d as nat)],
{
    proof {
        reveal_strlit("0");
        reveal_strlit("1");
        reveal_strlit("2");
        reveal_strlit("3");
        reveal_strlit("4");
        reveal_strlit("5");
        reveal_strlit("6");
        reveal_strlit("7");
        reveal_strlit("8");
        reveal_strlit("9");
    }
    let s = if d == 0 {
        "0"
    } else if d == 1 {
        "1"
    } else if d == 2 {
        "2"
    } else if d == 3 {
        "3"
    } else if d == 4 {
        "4"
    } else if d == 5 {
        "5"
    } else if d == 6 {
        "6"
    } else if d == 7 {
        "7"
    } else if d == 8 {
        "8"
    } else {
        "9"
    };
    assert(s@ =~= seq![digit_char(d as nat)]);
    s
}

/// Writes a number in decimal.
pub fn decimal_text(n: u64) -> (s: String)
    ensures
        s@ == decimal(n as nat),
    decreases n,
{
    if n < 10 {
        digit_text(n).to_owned()
    } else {
        let mut s = decimal_text(n / 10);
        s.append(digit_text(n % 10));
        assert(s@ =~= decimal(n as nat));
        s
    }
}

/// Writes the line for a log entry.
pub fn format_log_line(progress: u32, message: &str) -> (line: String)
    ensures
        line@ == log_line(progress, message@),
{
    let mut line = "[".to_owned();
    let number = decimal_text(progress as u64);
    line.append(number.as_str());
    line.append("%] ");
    line.append(message);
    line
}

/// Reads the number that a text stands for.
pub fn read_u32(text: &[u8]) -> (r: Option<u32>)
    ensures
        r == parse_u32(text@),
{
    let n: usize = text.len();
    let start: usize = if n > 0 && text[0] == 0x2b {
        1
    } else {
        0
    };
    let ghost digits = unsigned_digits(text@);
    assert(digits =~= text@.subrange(start as int, n as int));
    if start == n {
        return None;
    }
    let mut value: u64 = 0;
    let mut i: usize = start;
    while i < n
        invariant
            n == text@.len(),
            start <= i <= n,
            digits == unsigned_digits(text@),
            digits == text@.subrange(start as int, n as int),
            all_digits(digits.subrange(0, i - start)),
            value == digits_value(digits.subrange(0, i - start)),
            value <= u32::MAX,
        decreases n - i,
    {
        let byte: u8 = text[i];
        let ghost before = digits.subrange(0, i - start);
        let ghost with = digits.subrange(0, i + 1 - start);
        proof {
            assert(with.drop_last() =~= before);
            assert(with.last() == byte);
            assert(digits[i - start] == byte);
        }
        if byte < 0x30 || byte > 0x39 {
            assert(!is_digit(digits[i - start]));
            return None;
        }
        value = value * 10 + (byte - 0x30) as u64;
        proof {
            assert forall|j: int| 0 <= j < with.len() implies is_digit(#[trigger] with[j]) by {
                if j < before.len() {
                    assert(with[j] == before[j]);
                }
            }
        }
        if value > 0xffff_ffff {
            proof {
                if all_digits(digits) {
                    lemma_digits_value_grows(digits, i + 1 - start);
                }
            }
            return None;
        }
        i += 1;
    }
    assert(digits.subrange(0, n - start) =~= digits);
    Some(value as u32)
}

/// A string of digits stands for no less than any of its beginnings.
pub proof fn lemma_digits_value_grows(digits: Seq<u8>, k: int)
    requires
        0 <= k <= digits.len(),
        all_digits(digits),
    ensures
        digits_value(digits.subrange(0, k)) <= digits_value(digits),
    decreases digits.len(),
{
    if k == digits.len() {
        assert(digits.subrange(0, k) =~= digits);
    } else {
        let shorter = digits.drop_last();
        assert(is_digit(digits[digits.len() - 1]));
        assert forall|j: int| 0 <= j < shorter.len() implies is_digit(#[trigger] shorter[j]) by {
            assert(shorter[j] == digits[j]);
        }
        lemma_digits_value_grows(shorter, k);
        assert(shorter.subrange(0, k) =~= digits.subrange(0, k));
    }
}

/// Reads a log line as a reader of the progress log does.
pub fn parse_log_line(line: &str) -> (update: ProgressUpdate)
    ensures
        update@ == update_of(line@),
{
    let bytes = line.as_bytes();
    let n: usize = bytes.len();
    let progress: u32 = match find(bytes, "[".as_bytes()) {
        Some(open) => match find(bytes, "%".as_bytes()) {
            Some(close) => if open < close {
                match read_u32(slice_subrange(bytes, open + 1, close)) {
                    Some(value) => value,
                    None => 0,
                }
            } else {
                0
            },
            None => 0,
        },
        None => 0,
    };
    proof {
        encode_utf8_decode_utf8(line@);
        encode_utf8_valid_utf8(line@);
    }
    let message: String = match find(bytes, "]".as_bytes()) {
        Some(close) => {
            if close + 1 < n {
                match text_from(line, close + 2) {
                    Some(tail) => {
                        proof {
                            encode_utf8_decode_utf8(tail@);
                        }
                        tail.to_owned()
                    },
                    None => line.to_owned(),
                }
            } else {
                proof {
                    if is_char_boundary(bytes@, close + 2) {
                        crate::text::lemma_boundary_in_range(bytes@, close + 2);
                    }
                }
                line.to_owned()
            }
        },
        None => line.to_owned(),
    };
    ProgressUpdate { progress, message }
}

/// How long a reader of the progress log waits between two polls, in
/// milliseconds: neither zero nor unbounded.
pub const POLL_INTERVAL_MILLIS: u64 = 100;

/// The frame of a server-sent event that carries `payload`.
pub open spec fn event_frame(payload: Seq<char>) -> Seq<char> {
    "data: "@ + payload + "\n\n"@
}

/// Frames a payload as a server-sent event.
pub fn sse_event(payload: &str) -> (frame: String)
    ensures
        frame@ == event_frame(payload@),
{
    let mut frame = "data: ".to_owned();
    frame.append(payload);
    frame.append("\n\n");
    frame
}

/// What a reader gets from two polls in a row is what one poll over the
/// grown log would give: with a cursor `first`, a log that had `middle` lines
/// at the first poll and has grown since, the entries of the first poll and
/// then those of the second are the entries from `first` on. So a reader that
/// goes on at the cursor it was given gets every line once, and in order.
pub proof fn lemma_polls_join(logs: Seq<Seq<char>>, first: int, middle: int)
    requires
        0 <= first <= middle <= logs.len(),
    ensures
        updates_of(logs.subrange(0, middle).subrange(first, middle)) + updates_of(
            logs.subrange(middle, logs.len() as int),
        ) == updates_of(logs.subrange(first, logs.len() as int)),
{
    assert(updates_of(logs.subrange(0, middle).subrange(first, middle)) + updates_of(
        logs.subrange(middle, logs.len() as int),
    ) =~= updates_of(logs.subrange(first, logs.len() as int)));
}

/// Reads the log lines from index `cursor` on.
pub fn updates_since(logs: &Vec<String>, cursor: usize) -> (updates: Vec<ProgressUpdate>)
    ensures
        update_views(updates@) == updates_of(
            texts(logs@).subrange(
                if cursor <= logs@.len() {
                    cursor as int
                } else {
                    logs@.len() as int
                },
                logs@.len() as int,
            ),
        ),
{
    let n: usize = logs.len();
    let start: usize = if cursor <= n {
        cursor
    } else {
        n
    };
    let ghost wanted = updates_of(texts(logs@).subrange(start as int, n as int));
    let mut updates: Vec<ProgressUpdate> = Vec::new();
    let mut i: usize = start;
    while i < n
        invariant
            n == logs@.len(),
            start <= i <= n,
            wanted == updates_of(texts(logs@).subrange(start as int, n as int)),
            updates@.len() == i - start,
            forall|j: int| 0 <= j < i - start ==> (#[trigger] updates@[j])@ == wanted[j],
        decreases n - i,
    {
        let update = parse_log_line(logs[i].as_str());
        updates.push(update);
        i += 1;
    }
    assert(update_views(updates@) =~= wanted);
    updates
}

} // verus!

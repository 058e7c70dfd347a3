//! Turning bytes into text, and cutting text at byte positions.

use crate::bytes::{
    first_match, first_match_from, first_with, lemma_first_match_from, line_feed, lines_from,
    matches_at, up_to, without_cr,
};
use vstd::prelude::*;
use vstd::string::StringSliceAdditionalSpecFns;
use vstd::utf8::{
    decode_utf8, encode_utf8, encode_utf8_valid_utf8, is_ascii_chars, is_ascii_chars_encode_utf8,
    is_char_boundary, is_char_boundary_iff_not_is_continuation_byte,
    is_char_boundary_start_end_of_seq, partial_valid_partial_invalid_utf8, pop_first_scalar,
    valid_utf8, valid_utf8_concat, valid_utf8_split,
};

verus! {

/// The text that lossy UTF-8 decoding makes of `bytes`: the decoded text
/// where `bytes` is valid UTF-8, and otherwise the text in which each
/// ill-formed sequence is replaced by U+FFFD.
pub uninterp spec fn utf8_lossy(bytes: Seq<u8>) -> Seq<char>;

/// Decodes `bytes` with `String::from_utf8_lossy`. The contract names the
/// result, and says that valid UTF-8 comes out as the text it encodes, as the
/// standard library documents.
#[verifier::external_body]
pub(crate) fn decode_lossy(bytes: &[u8]) -> (text: String)
    ensures
        text@ == utf8_lossy(bytes@),
        valid_utf8(bytes@) ==> text@ == decode_utf8(bytes@),
{
    String::from_utf8_lossy(bytes).into_owned()
}

/// The encoding of two texts in a row is the two encodings in a row.
pub proof fn lemma_encode_concat(a: Seq<char>, b: Seq<char>)
    ensures
        encode_utf8(a + b) == encode_utf8(a) + encode_utf8(b),
    decreases a.len(),
{
    if a.len() == 0 {
        assert(a + b =~= b);
        assert(encode_utf8(a) + encode_utf8(b) =~= encode_utf8(b));
    } else {
        lemma_encode_concat(a.drop_first(), b);
        assert((a + b).drop_first() =~= a.drop_first() + b);
        assert(encode_utf8(a + b) =~= encode_utf8(a) + encode_utf8(b));
    }
}

/// An ASCII text is encoded byte for character.
pub proof fn lemma_encode_ascii(text: Seq<char>)
    requires
        is_ascii_chars(text),
    ensures
        encode_utf8(text).len() == text.len(),
        forall|i: int| 0 <= i < text.len() ==> encode_utf8(text)[i] == text[i] as u8,
{
    is_ascii_chars_encode_utf8(text);
}

/// Where one valid encoding follows another, a character starts at the join.
pub proof fn lemma_boundary_at_join(a: Seq<u8>, b: Seq<u8>)
    requires
        valid_utf8(a),
        valid_utf8(b),
    ensures
        valid_utf8(a + b),
        is_char_boundary(a + b, a.len() as int),
{
    valid_utf8_concat(a, b);
    if b.len() == 0 {
        assert(a + b =~= a);
        is_char_boundary_start_end_of_seq(a);
    } else {
        assert((a + b)[a.len() as int] == b[0]);
        is_char_boundary_iff_not_is_continuation_byte(a + b, a.len() as int);
    }
}

/// The text behind the byte index `at`, where a character starts there.
pub fn text_from<'a>(text: &'a str, at: usize) -> (r: Option<&'a str>)
    ensures
        match r {
            Some(tail) => is_char_boundary(text.spec_bytes(), at as int) && at
                <= text.spec_bytes().len() && tail.spec_bytes() == text.spec_bytes().subrange(
                at as int,
                text.spec_bytes().len() as int,
            ),
            None => !is_char_boundary(text.spec_bytes(), at as int),
        },
{
    proof {
        encode_utf8_valid_utf8(text@);
    }
    if text.is_char_boundary(at) {
        proof {
            lemma_boundary_in_range(text.spec_bytes(), at as int);
        }
        Some(text.split_at(at).1)
    } else {
        None
    }
}

/// A character boundary lies within the text.
pub proof fn lemma_boundary_in_range(bytes: Seq<u8>, at: int)
    requires
        valid_utf8(bytes),
        is_char_boundary(bytes, at),
    ensures
        0 <= at <= bytes.len(),
    decreases bytes.len(),
{
    if at != 0 {
        lemma_boundary_in_range(
            vstd::utf8::pop_first_scalar(bytes),
            at - vstd::utf8::length_of_first_scalar(bytes),
        );
    }
}

/// A character starts at every ASCII byte of a text.
pub proof fn lemma_boundary_at_ascii(bytes: Seq<u8>, at: int)
    requires
        valid_utf8(bytes),
        0 <= at < bytes.len(),
        bytes[at] < 0x80,
    ensures
        is_char_boundary(bytes, at),
{
    is_char_boundary_iff_not_is_continuation_byte(bytes, at);
}

/// A character starts behind every ASCII byte of a text, or the text ends
/// there.
pub proof fn lemma_boundary_after_ascii(bytes: Seq<u8>, at: int)
    requires
        valid_utf8(bytes),
        0 <= at < bytes.len(),
        bytes[at] < 0x80,
    ensures
        is_char_boundary(bytes, at + 1),
{
    lemma_boundary_at_ascii(bytes, at);
    valid_utf8_split(bytes, at);
    let tail = bytes.subrange(at, bytes.len() as int);
    assert(tail[0] == bytes[at]);
    let rest = pop_first_scalar(tail);
    assert(valid_utf8(rest));
    assert(rest =~= bytes.subrange(at + 1, bytes.len() as int));
    if at + 1 == bytes.len() {
        is_char_boundary_start_end_of_seq(bytes);
    } else {
        assert(rest[0] == bytes[at + 1]);
        is_char_boundary_iff_not_is_continuation_byte(bytes, at + 1);
    }
}

/// A character boundary of a text is one of each beginning of the text that
/// reaches it and ends at a boundary.
pub proof fn lemma_boundary_in_prefix(bytes: Seq<u8>, from: int, to: int)
    requires
        valid_utf8(bytes),
        from <= to,
        is_char_boundary(bytes, from),
        is_char_boundary(bytes, to),
    ensures
        valid_utf8(bytes.subrange(0, to)),
        is_char_boundary(bytes.subrange(0, to), from),
{
    lemma_boundary_in_range(bytes, from);
    lemma_boundary_in_range(bytes, to);
    valid_utf8_split(bytes, to);
    let head = bytes.subrange(0, to);
    if from == to {
        is_char_boundary_start_end_of_seq(head);
    } else {
        assert(head[from] == bytes[from]);
        is_char_boundary_iff_not_is_continuation_byte(bytes, from);
        is_char_boundary_iff_not_is_continuation_byte(head, from);
    }
}

/// What lies between two character boundaries of a text is a text.
pub proof fn lemma_valid_between(bytes: Seq<u8>, from: int, to: int)
    requires
        valid_utf8(bytes),
        from <= to,
        is_char_boundary(bytes, from),
        is_char_boundary(bytes, to),
    ensures
        valid_utf8(bytes.subrange(from, to)),
{
    lemma_boundary_in_range(bytes, from);
    lemma_boundary_in_range(bytes, to);
    lemma_boundary_in_prefix(bytes, from, to);
    let head = bytes.subrange(0, to);
    valid_utf8_split(head, from);
    assert(head.subrange(from, head.len() as int) =~= bytes.subrange(from, to));
}

/// Where a text stands in another from a character boundary on, a character
/// boundary follows it.
pub proof fn lemma_boundary_after_match(bytes: Seq<u8>, pat: Seq<u8>, at: int)
    requires
        valid_utf8(bytes),
        valid_utf8(pat),
        matches_at(bytes, pat, at),
        is_char_boundary(bytes, at),
    ensures
        is_char_boundary(bytes, at + pat.len()),
{
    let end = at + pat.len();
    if end == bytes.len() {
        is_char_boundary_start_end_of_seq(bytes);
    } else {
        valid_utf8_split(bytes, at);
        let tail = bytes.subrange(at, bytes.len() as int);
        assert(tail.subrange(0, pat.len() as int) =~= pat);
        let rest = tail.subrange(pat.len() as int, tail.len() as int);
        if !valid_utf8(rest) {
            partial_valid_partial_invalid_utf8(tail, pat.len() as int);
        }
        assert(rest[0] == bytes[end]);
        is_char_boundary_iff_not_is_continuation_byte(bytes, end);
    }
}

/// A text cut off at the first occurrence of a pattern that starts with an
/// ASCII byte is a text.
pub proof fn lemma_up_to_valid(text: Seq<u8>, stop: Seq<u8>)
    requires
        valid_utf8(text),
        stop.len() > 0,
        stop[0] < 0x80,
    ensures
        valid_utf8(up_to(text, stop)),
{
    lemma_first_match_from(text, stop, 0);
    match first_match(text, stop) {
        Some(i) => {
            assert(text.subrange(i, i + stop.len())[0] == text[i]);
            lemma_boundary_at_ascii(text, i);
            lemma_valid_between(text, 0, i);
        },
        None => {},
    }
}

/// A line of text without its carriage return is a text.
pub proof fn lemma_without_cr_valid(line: Seq<u8>)
    requires
        valid_utf8(line),
    ensures
        valid_utf8(without_cr(line)),
{
    if line.len() > 0 && line.last() == 0x0du8 {
        lemma_boundary_at_ascii(line, line.len() - 1);
        lemma_valid_between(line, 0, line.len() - 1);
        assert(line.drop_last() =~= line.subrange(0, line.len() - 1));
    }
}

/// Each line of a text is a text.
pub proof fn lemma_lines_valid(text: Seq<u8>, from: int, k: int)
    requires
        valid_utf8(text),
        0 <= from,
        from < text.len() ==> is_char_boundary(text, from),
        0 <= k < lines_from(text, from).len(),
    ensures
        valid_utf8(lines_from(text, from)[k]),
    decreases text.len() - from,
{
    if from < text.len() {
        is_char_boundary_start_end_of_seq(text);
        lemma_first_match_from(text, line_feed(), from);
        match first_match_from(text, line_feed(), from) {
            Some(i) => {
                assert(text.subrange(i, i + 1)[0] == text[i]);
                lemma_boundary_at_ascii(text, i);
                lemma_valid_between(text, from, i);
                lemma_without_cr_valid(text.subrange(from, i));
                if k > 0 {
                    lemma_boundary_after_ascii(text, i);
                    lemma_lines_valid(text, i + 1, k - 1);
                }
            },
            None => {
                lemma_valid_between(text, from, text.len() as int);
            },
        }
    }
}

/// The first of some texts in which a pattern occurs is a text.
pub proof fn lemma_first_with_valid(items: Seq<Seq<u8>>, pat: Seq<u8>)
    requires
        forall|k: int| 0 <= k < items.len() ==> valid_utf8(#[trigger] items[k]),
    ensures
        first_with(items, pat) matches Some(item) ==> valid_utf8(item),
    decreases items.len(),
{
    if items.len() > 0 {
        assert(valid_utf8(items[0]));
        let rest = items.drop_first();
        assert forall|k: int| 0 <= k < rest.len() implies valid_utf8(#[trigger] rest[k]) by {
            assert(rest[k] == items[k + 1]);
        }
        lemma_first_with_valid(rest, pat);
    }
}

/// The text between the byte indices `from` and `to`, where a character
/// starts at both.
pub fn text_between<'a>(text: &'a str, from: usize, to: usize) -> (r: Option<&'a str>)
    ensures
        match r {
            Some(part) => from <= to <= text.spec_bytes().len() && is_char_boundary(
                text.spec_bytes(),
                from as int,
            ) && is_char_boundary(text.spec_bytes(), to as int) && part.spec_bytes()
                == text.spec_bytes().subrange(from as int, to as int),
            None => !(from <= to && is_char_boundary(text.spec_bytes(), from as int)
                && is_char_boundary(text.spec_bytes(), to as int)),
        },
{
    proof {
        encode_utf8_valid_utf8(text@);
    }
    if from <= to && text.is_char_boundary(from) && text.is_char_boundary(to) {
        proof {
            lemma_boundary_in_range(text.spec_bytes(), to as int);
            lemma_boundary_in_prefix(text.spec_bytes(), from as int, to as int);
        }
        let head = text.split_at(to).0;
        let part = head.split_at(from).1;
        assert(part.spec_bytes() =~= text.spec_bytes().subrange(from as int, to as int));
        Some(part)
    } else {
        None
    }
}

} // verus!

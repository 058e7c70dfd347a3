//! Finding the uploaded file in a `multipart/form-data` body.

use crate::bytes::{
    contains, find, find_from, first_line_with, first_match, first_with, lemma_first_match_from,
    lines, occurs_in, pieces_from, split, take_up_to, up_to,
};
use crate::text::{
    decode_lossy, lemma_boundary_after_ascii, lemma_boundary_after_match, lemma_boundary_at_ascii,
    lemma_encode_ascii, lemma_first_with_valid, lemma_lines_valid, lemma_up_to_valid,
    lemma_valid_between, utf8_lossy,
};
use vstd::prelude::*;
use vstd::slice::{slice_subrange, slice_to_vec};
use vstd::string::StringSliceAdditionalSpecFns;
use vstd::utf8::{
    decode_utf8, encode_utf8, encode_utf8_valid_utf8, is_char_boundary,
    is_char_boundary_start_end_of_seq, valid_utf8, valid_utf8_concat,
};

verus! {

/// What separates the parts of a body: two hyphens and the boundary.
pub open spec fn delimiter(boundary: Seq<u8>) -> Seq<u8> {
    "--".spec_bytes() + boundary
}

/// The header that names a part's content.
pub open spec fn disposition_key() -> Seq<u8> {
    "Content-Disposition".spec_bytes()
}

/// The parameter that marks a part as a file.
pub open spec fn filename_key() -> Seq<u8> {
    "filename=".spec_bytes()
}

/// The opening of a quoted file name.
pub open spec fn filename_open() -> Seq<u8> {
    "filename=\"".spec_bytes()
}

/// The double quote.
pub open spec fn quote() -> Seq<u8> {
    "\"".spec_bytes()
}

/// The empty line between a part's headers and its content.
pub open spec fn blank_line() -> Seq<u8> {
    "\r\n\r\n".spec_bytes()
}

/// What ends a part's content.
pub open spec fn content_end() -> Seq<u8> {
    "\r\n--".spec_bytes()
}

/// The name given to a file whose part names none in quotes.
pub open spec fn default_filename() -> Seq<u8> {
    "uploaded_file".spec_bytes()
}

/// The error for a body without a file part.
pub open spec fn no_file_message() -> Seq<char> {
    "No file found in multipart data"@
}

/// The name that a header line gives in quotes: what follows the first
/// `filename="` up to the next `filename="`, cut off at its first double
/// quote.
pub open spec fn quoted_name(line: Seq<u8>) -> Option<Seq<u8>> {
    match first_match(line, filename_open()) {
        Some(i) => {
            let rest = line.subrange(i + filename_open().len(), line.len() as int);
            Some(up_to(up_to(rest, filename_open()), quote()))
        },
        None => None,
    }
}

/// The file name of a part, as bytes: the quoted name in the first line that
/// holds `filename=`, and the default name where there is none.
pub open spec fn part_filename(part: Seq<u8>) -> Seq<u8> {
    match first_with(lines(part), filename_key()) {
        Some(line) => match quoted_name(line) {
            Some(name) => name,
            None => default_filename(),
        },
        None => default_filename(),
    }
}

/// The file that a part holds: its name and its content, both as bytes. A
/// part holds a file where it has a `Content-Disposition` header, a
/// `filename=` parameter and an empty line; the content runs from behind the
/// first empty line up to the first line break that two hyphens follow.
pub open spec fn part_upload(part: Seq<u8>) -> Option<(Seq<u8>, Seq<u8>)> {
    if occurs_in(part, disposition_key()) && occurs_in(part, filename_key()) {
        match first_match(part, blank_line()) {
            Some(i) => Some(
                (
                    part_filename(part),
                    up_to(part.subrange(i + blank_line().len(), part.len() as int), content_end()),
                ),
            ),
            None => None,
        }
    } else {
        None
    }
}

/// The file of the first part that holds one.
pub open spec fn first_upload(parts: Seq<Seq<u8>>) -> Option<(Seq<u8>, Seq<u8>)>
    decreases parts.len(),
{
    if parts.len() == 0 {
        None
    } else {
        match part_upload(parts[0]) {
            Some(file) => Some(file),
            None => first_upload(parts.drop_first()),
        }
    }
}

/// The uploaded file in a body of the given text: that of the first part,
/// among those that the delimiter separates, that holds one.
pub open spec fn upload_in(text: Seq<u8>, boundary: Seq<u8>) -> Option<(Seq<u8>, Seq<u8>)> {
    first_upload(split(text, delimiter(boundary)))
}

/// The name that a header line gives in quotes is a text.
pub proof fn lemma_quoted_name_valid(line: Seq<u8>)
    requires
        valid_utf8(line),
    ensures
        quoted_name(line) matches Some(name) ==> valid_utf8(name),
{
    reveal_strlit("filename=\"");
    reveal_strlit("\"");
    lemma_encode_ascii("filename=\""@);
    lemma_encode_ascii("\""@);
    let open = filename_open();
    lemma_first_match_from(line, open, 0);
    match first_match(line, open) {
        Some(i) => {
            let start = i + open.len();
            assert(line.subrange(i, i + open.len())[9] == line[i + 9]);
            lemma_boundary_after_ascii(line, start - 1);
            is_char_boundary_start_end_of_seq(line);
            lemma_valid_between(line, start, line.len() as int);
            let rest = line.subrange(start, line.len() as int);
            lemma_up_to_valid(rest, open);
            lemma_up_to_valid(up_to(rest, open), quote());
        },
        None => {},
    }
}

/// The file name of a part of a text is a text.
pub proof fn lemma_part_filename_valid(part: Seq<u8>)
    requires
        valid_utf8(part),
    ensures
        valid_utf8(part_filename(part)),
{
    encode_utf8_valid_utf8("uploaded_file"@);
    assert forall|k: int| 0 <= k < lines(part).len() implies valid_utf8(
        #[trigger] lines(part)[k],
    ) by {
        if part.len() > 0 {
            is_char_boundary_start_end_of_seq(part);
        }
        lemma_lines_valid(part, 0, k);
    }
    lemma_first_with_valid(lines(part), filename_key());
    match first_with(lines(part), filename_key()) {
        Some(line) => {
            lemma_quoted_name_valid(line);
        },
        None => {},
    }
}

fn filename_of(part: &[u8]) -> (name: String)
    requires
        valid_utf8(part@),
    ensures
        name@ == decode_utf8(part_filename(part@)),
{
    proof {
        lemma_part_filename_valid(part@);
    }
    match first_line_with(part, "filename=".as_bytes()) {
        Some(line) => {
            let open = "filename=\"".as_bytes();
            match find(line, open) {
                Some(i) => {
                    let end: usize = line.len();
                    let rest = slice_subrange(line, i + open.len(), end);
                    let value = take_up_to(rest, open);
                    decode_lossy(take_up_to(value, "\"".as_bytes()))
                },
                None => decode_lossy("uploaded_file".as_bytes()),
            }
        },
        None => decode_lossy("uploaded_file".as_bytes()),
    }
}

fn upload_of(part: &[u8]) -> (r: Option<(String, Vec<u8>)>)
    requires
        valid_utf8(part@),
    ensures
        match part_upload(part@) {
            Some(file) => r matches Some(found) && found.0@ == decode_utf8(file.0) && found.1@
                == file.1,
            None => r is None,
        },
{
    if contains(part, "Content-Disposition".as_bytes()) && contains(part, "filename=".as_bytes()) {
        let blank = "\r\n\r\n".as_bytes();
        match find(part, blank) {
            Some(i) => {
                let name = filename_of(part);
                let end: usize = part.len();
                let section = slice_subrange(part, i + blank.len(), end);
                let data = slice_to_vec(take_up_to(section, "\r\n--".as_bytes()));
                Some((name, data))
            },
            None => None,
        }
    } else {
        None
    }
}

/// Finds the uploaded file in the decoded text of a body: the file name and
/// the content of the first part that holds a file, or the error message
/// where no part does. The file name is the text that its bytes encode.
pub fn parse_multipart_text(text: &str, boundary: &str) -> (r: Result<(String, Vec<u8>), String>)
    ensures
        match upload_in(text.spec_bytes(), boundary.spec_bytes()) {
            Some(file) => r matches Ok(found) && found.0@ == decode_utf8(file.0) && found.1@
                == file.1,
            None => r matches Err(message) && message@ == no_file_message(),
        },
{
    let bytes = text.as_bytes();
    let mut delim: Vec<u8> = slice_to_vec("--".as_bytes());
    let mut tail: Vec<u8> = slice_to_vec(boundary.as_bytes());
    delim.append(&mut tail);
    proof {
        encode_utf8_valid_utf8(text@);
        encode_utf8_valid_utf8("--"@);
        encode_utf8_valid_utf8(boundary@);
        valid_utf8_concat("--".spec_bytes(), boundary.spec_bytes());
        is_char_boundary_start_end_of_seq(bytes@);
    }
    let n: usize = bytes.len();
    let mut from: usize = 0;
    loop
        invariant
            n == bytes@.len(),
            bytes@ == text.spec_bytes(),
            from <= n,
            delim@ == delimiter(boundary.spec_bytes()),
            valid_utf8(bytes@),
            valid_utf8(delim@),
            is_char_boundary(bytes@, from as int),
            upload_in(text.spec_bytes(), boundary.spec_bytes()) == first_upload(
                pieces_from(bytes@, delim@, from as int),
            ),
        decreases n - from,
    {
        let hit = find_from(bytes, delim.as_slice(), from);
        let end: usize = match hit {
            Some(i) => i,
            None => n,
        };
        let ghost rest: Seq<Seq<u8>> = match hit {
            Some(i) => pieces_from(bytes@, delim@, i + delim@.len()),
            None => seq![],
        };
        let part = slice_subrange(bytes, from, end);
        proof {
            reveal_strlit("--");
            lemma_encode_ascii("--"@);
            assert(delim@.len() >= 2);
            assert(delim@[0] == 0x2du8);
            lemma_first_match_from(bytes@, delim@, from as int);
            match hit {
                Some(i) => {
                    assert(bytes@.subrange(i as int, i + delim@.len())[0] == bytes@[i as int]);
                    lemma_boundary_at_ascii(bytes@, i as int);
                    lemma_boundary_after_match(bytes@, delim@, i as int);
                },
                None => {
                    is_char_boundary_start_end_of_seq(bytes@);
                },
            }
            lemma_valid_between(bytes@, from as int, end as int);
            assert(pieces_from(bytes@, delim@, from as int) =~= seq![part@] + rest);
            assert((seq![part@] + rest).drop_first() =~= rest);
        }
        match upload_of(part) {
            Some(found) => {
                return Ok(found);
            },
            None => {},
        }
        match hit {
            Some(i) => {
                from = i + delim.len();
            },
            None => {
                assert(first_upload(rest) is None);
                return Err("No file found in multipart data".to_owned());
            },
        }
    }
}

/// Finds the uploaded file in a request body. The body is decoded as UTF-8,
/// lossily, and searched as text.
pub fn parse_multipart(body: &[u8], boundary: &str) -> (r: Result<(String, Vec<u8>), String>)
    ensures
        match upload_in(encode_utf8(utf8_lossy(body@)), boundary.spec_bytes()) {
            Some(file) => r matches Ok(found) && found.0@ == decode_utf8(file.0) && found.1@
                == file.1,
            None => r matches Err(message) && message@ == no_file_message(),
        },
{
    let text = decode_lossy(body);
    parse_multipart_text(text.as_str(), boundary)
}

} // verus!

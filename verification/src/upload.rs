//! Accepting an upload: the content type, the file in the body, the size
//! limit, and the record that a submitted scan starts with.

use crate::bytes::{
    find, first_match, lemma_first_match_from, matches_at, starts_at, up_to,
};
use crate::digest::{calculate_sha256, hex_lower, sha256};
use crate::multipart::{no_file_message, parse_multipart, upload_in};
use crate::progress::{decimal, decimal_text};
use crate::registry::{created, ScanStore};
use crate::text::{
    lemma_boundary_after_ascii, lemma_boundary_at_ascii, lemma_encode_ascii, text_between,
    utf8_lossy,
};
use crate::types::{FileInfo, FileInfoView, UploadResponse};
use vstd::prelude::*;
use vstd::slice::slice_subrange;
use vstd::string::{StringExecFns, StringSliceAdditionalSpecFns};
use vstd::utf8::{
    decode_utf8, encode_utf8, encode_utf8_valid_utf8, is_char_boundary_start_end_of_seq,
};

verus! {

/// An ASCII letter in lower case; any other byte as it is.
pub open spec fn ascii_lower(byte: u8) -> u8 {
    if 0x41 <= byte <= 0x5a {
        (byte + 0x20) as u8
    } else {
        byte
    }
}

/// A text with its ASCII letters in lower case.
pub open spec fn lowered(text: Seq<u8>) -> Seq<u8> {
    text.map_values(|byte: u8| ascii_lower(byte))
}

/// The header name is `content-type`, in whatever case.
pub open spec fn names_content_type(name: Seq<char>) -> bool {
    lowered(encode_utf8(name)) == "content-type".spec_bytes()
}

/// The value of the first `content-type` header, and the empty text where
/// there is none.
pub open spec fn content_type_in(headers: Seq<(String, String)>) -> Seq<char>
    decreases headers.len(),
{
    if headers.len() == 0 {
        Seq::<char>::empty()
    } else if names_content_type(headers[0].0@) {
        headers[0].1@
    } else {
        content_type_in(headers.drop_first())
    }
}

/// The content type says that the body is `multipart/form-data`.
pub open spec fn is_multipart(content_type: Seq<u8>) -> bool {
    matches_at(content_type, "multipart/form-data".spec_bytes(), 0)
}

/// The boundary that a content type gives: what follows the first
/// `boundary=` up to the next one, and the empty text where there is none.
pub open spec fn boundary_of(content_type: Seq<u8>) -> Seq<u8> {
    let key = "boundary=".spec_bytes();
    match first_match(content_type, key) {
        Some(i) => up_to(content_type.subrange(i + key.len(), content_type.len() as int), key),
        None => Seq::<u8>::empty(),
    }
}

/// Why an upload was refused.
#[derive(Debug, PartialEq, Eq)]
pub enum UploadError {
    /// The content type is not `multipart/form-data`.
    NotMultipart,
    /// The body holds no file: the message of the parser.
    NoFile(String),
    /// The file is larger than the limit, which is given in bytes.
    TooLarge(u64),
}

/// The message for a refused upload.
pub open spec fn error_message(error: UploadError) -> Seq<char> {
    match error {
        UploadError::NotMultipart => "Expected multipart/form-data"@,
        UploadError::NoFile(message) => message@,
        UploadError::TooLarge(limit) => "File size exceeds maximum limit of "@ + decimal(
            (limit / 1024 / 1024) as nat,
        ) + "MB"@,
    }
}

impl UploadError {
    /// The HTTP status that answers a refused upload: always 400, since each
    /// refusal is the client's to mend.
    pub fn status_code(&self) -> (code: u16)
        ensures
            code == 400,
    {
        400
    }

    /// The message that tells the client why the upload was refused. The
    /// size limit is given in whole megabytes.
    pub fn message(&self) -> (text: String)
        ensures
            text@ == error_message(*self),
    {
        match self {
            UploadError::NotMultipart => "Expected multipart/form-data".to_owned(),
            UploadError::NoFile(message) => message.clone(),
            UploadError::TooLarge(limit) => {
                let mut text = "File size exceeds maximum limit of ".to_owned();
                let number = decimal_text(*limit / 1024 / 1024);
                text.append(number.as_str());
                text.append("MB");
                text
            },
        }
    }
}

/// An upload that was accepted.
#[derive(Debug, PartialEq, Eq)]
pub struct Upload {
    /// Name, size and digest of the file.
    pub file_info: FileInfo,
    /// The content of the file.
    pub data: Vec<u8>,
}

/// What is known of a file with the given name and content.
pub open spec fn file_info_of(name: Seq<char>, data: Seq<u8>) -> FileInfoView {
    FileInfoView { filename: name, size: data.len() as u64, sha256: hex_lower(sha256(data)) }
}

/// The prefix of every scan identifier.
pub open spec fn scan_id_prefix() -> Seq<char> {
    "scan-"@
}

/// The characters of a random identifier: hyphens at the four places of the
/// hyphenated form, and lower-case hexadecimal digits elsewhere.
pub open spec fn is_token(text: Seq<char>) -> bool {
    &&& text.len() == 36
    &&& forall|i: int|
        0 <= i < 36 ==> if i == 8 || i == 13 || i == 18 || i == 23 {
            #[trigger] text[i] == '-'
        } else {
            ('0' <= text[i] <= '9') || ('a' <= text[i] <= 'f')
        }
}

/// Draws a random identifier with `uuid::Uuid::new_v4` and writes it with the
/// crate's `Display`. Each call draws anew, so the contract says only what
/// holds of every outcome: the hyphenated form, in lower case. The call
/// panics where the system cannot supply random bytes.
#[verifier::external_body]
fn random_token() -> (text: String)
    ensures
        is_token(text@),
{
    uuid::Uuid::new_v4().to_string()
}

/// Tells whether `name` is `content-type`, in whatever case.
pub fn is_content_type(name: &str) -> (r: bool)
    ensures
        r == names_content_type(name@),
{
    let bytes = name.as_bytes();
    let wanted = "content-type".as_bytes();
    let n: usize = bytes.len();
    if n != wanted.len() {
        return false;
    }
    let mut i: usize = 0;
    while i < n
        invariant
            n == bytes@.len(),
            n == wanted@.len(),
            bytes@ == encode_utf8(name@),
            wanted@ == "content-type".spec_bytes(),
            i <= n,
            forall|j: int| 0 <= j < i ==> ascii_lower(bytes@[j]) == wanted@[j],
        decreases n - i,
    {
        let byte: u8 = bytes[i];
        let lower: u8 = if 0x41 <= byte && byte <= 0x5a {
            byte + 0x20
        } else {
            byte
        };
        if lower != wanted[i] {
            assert(lowered(bytes@)[i as int] != wanted@[i as int]);
            return false;
        }
        i += 1;
    }
    assert(lowered(bytes@) =~= wanted@);
    true
}

/// Finds the content type among the headers of a request, each a pair of
/// name and value.
pub fn content_type_of(headers: &Vec<(String, String)>) -> (value: String)
    ensures
        value@ == content_type_in(headers@),
{
    let n: usize = headers.len();
    let mut i: usize = 0;
    assert(headers@.subrange(0, n as int) =~= headers@);
    while i < n
        invariant
            n == headers@.len(),
            i <= n,
            content_type_in(headers@) == content_type_in(headers@.subrange(i as int, n as int)),
        decreases n - i,
    {
        let ghost rest = headers@.subrange(i as int, n as int);
        assert(rest[0] == headers@[i as int]);
        assert(rest.drop_first() =~= headers@.subrange(i + 1, n as int));
        if is_content_type(headers[i].0.as_str()) {
            return headers[i].1.clone();
        }
        i += 1;
    }
    String::new()
}

/// Takes the boundary from a content type, or nothing where the content type
/// is not `multipart/form-data`.
pub fn multipart_boundary(content_type: &str) -> (r: Option<String>)
    ensures
        match r {
            Some(boundary) => is_multipart(content_type.spec_bytes()) && encode_utf8(boundary@)
                == boundary_of(content_type.spec_bytes()),
            None => !is_multipart(content_type.spec_bytes()),
        },
{
    let bytes = content_type.as_bytes();
    let n: usize = bytes.len();
    let marker = "multipart/form-data".as_bytes();
    if n < marker.len() || !starts_at(bytes, marker, 0) {
        return None;
    }
    let key = "boundary=".as_bytes();
    match find(bytes, key) {
        None => {
            let boundary = String::new();
            assert(encode_utf8(boundary@) =~= Seq::<u8>::empty());
            Some(boundary)
        },
        Some(i) => {
            let start: usize = i + key.len();
            let rest = slice_subrange(bytes, start, n);
            let hit = find(rest, key);
            let end: usize = match hit {
                Some(j) => start + j,
                None => n,
            };
            proof {
                reveal_strlit("boundary=");
                lemma_encode_ascii("boundary="@);
                encode_utf8_valid_utf8(content_type@);
                lemma_first_match_from(bytes@, key@, 0);
                assert(bytes@.subrange(i as int, i + key@.len())[8] == key@[8]);
                lemma_boundary_after_ascii(bytes@, start - 1);
                match hit {
                    Some(j) => {
                        lemma_first_match_from(rest@, key@, 0);
                        assert(rest@.subrange(j as int, j + key@.len())[0] == key@[0]);
                        assert(rest@[j as int] == bytes@[start + j]);
                        lemma_boundary_at_ascii(bytes@, end as int);
                        assert(up_to(rest@, key@) =~= bytes@.subrange(start as int, end as int));
                    },
                    None => {
                        is_char_boundary_start_end_of_seq(bytes@);
                        assert(up_to(rest@, key@) =~= bytes@.subrange(start as int, end as int));
                    },
                }
            }
            match text_between(content_type, start, end) {
                Some(part) => Some(part.to_owned()),
                None => {
                    assert(false);
                    Some(String::new())
                },
            }
        },
    }
}

/// Decides on an upload: the body must be `multipart/form-data`, hold a
/// file, and the file must not be larger than `max_file_size` bytes. An
/// accepted upload comes with the name, the size and the digest of its file.
/// Nothing is registered here: a refused upload leaves no trace.
pub fn accept_upload(content_type: &str, body: &[u8], max_file_size: u64) -> (r: Result<
    Upload,
    UploadError,
>)
    ensures
        !is_multipart(content_type.spec_bytes()) ==> r == Err::<Upload, UploadError>(
            UploadError::NotMultipart,
        ),
        is_multipart(content_type.spec_bytes()) ==> match upload_in(
            encode_utf8(utf8_lossy(body@)),
            boundary_of(content_type.spec_bytes()),
        ) {
            None => r matches Err(UploadError::NoFile(message)) && message@ == no_file_message(),
            Some(file) => if file.1.len() > max_file_size {
                r == Err::<Upload, UploadError>(UploadError::TooLarge(max_file_size))
            } else {
                r matches Ok(upload) && upload.data@ == file.1 && upload.file_info@
                    == file_info_of(decode_utf8(file.0), file.1)
            },
        },
{
    let boundary = match multipart_boundary(content_type) {
        Some(boundary) => boundary,
        None => {
            return Err(UploadError::NotMultipart);
        },
    };
    let (filename, data) = match parse_multipart(body, boundary.as_str()) {
        Ok(file) => file,
        Err(message) => {
            return Err(UploadError::NoFile(message));
        },
    };
    let size: u64 = data.len() as u64;
    if size > max_file_size {
        return Err(UploadError::TooLarge(max_file_size));
    }
    let digest = calculate_sha256(data.as_slice());
    Ok(Upload { file_info: FileInfo { filename, size, sha256: digest }, data })
}

/// The scan identifier for a random token.
pub fn scan_id_for(token: &str) -> (scan_id: String)
    ensures
        scan_id@ == scan_id_prefix() + token@,
{
    let mut scan_id = "scan-".to_owned();
    scan_id.append(token);
    scan_id
}

/// Makes the identifier of a new scan: the prefix and a random token. Two
/// calls give two identifiers with all but negligible chance, which no
/// contract can state; the registry refuses an identifier that is in use.
/// The token comes from the system's random source, and the call panics
/// where the system cannot supply random bytes.
pub fn new_scan_id() -> (scan_id: String)
    ensures
        scan_id@.len() == scan_id_prefix().len() + 36,
        scan_id@.subrange(0, scan_id_prefix().len() as int) == scan_id_prefix(),
        is_token(scan_id@.subrange(scan_id_prefix().len() as int, scan_id@.len() as int)),
{
    let token = random_token();
    let scan_id = scan_id_for(token.as_str());
    proof {
        let k = scan_id_prefix().len() as int;
        assert(scan_id@.subrange(0, k) =~= scan_id_prefix());
        assert(scan_id@.subrange(k, scan_id@.len() as int) =~= token@);
    }
    scan_id
}

/// The name of the temporary file of a scan: the scan identifier, an
/// underscore, and the name of the uploaded file.
pub fn temp_file_name(scan_id: &str, filename: &str) -> (name: String)
    ensures
        name@ == scan_id@ + "_"@ + filename@,
{
    let mut name = scan_id.to_owned();
    name.append("_");
    name.append(filename);
    name
}

/// Registers a scan under `scan_id`. A new identifier gets the initial
/// record, so that the scan is in the registry, still scanning, with an empty
/// log and without findings, as soon as this returns; an identifier that is
/// in use is refused and its record stays untouched.
pub fn submit_scan(scan_id: &str, file_info: FileInfo, scan_store: &mut ScanStore) -> (r: Option<
    UploadResponse,
>)
    ensures
        final(scan_store)@ == created(old(scan_store)@, scan_id@, file_info@),
        match r {
            Some(response) => !old(scan_store)@.contains_key(scan_id@) && response.scan_id@
                == scan_id@,
            None => old(scan_store)@.contains_key(scan_id@),
        },
{
    if scan_store.create(scan_id, file_info) {
        Some(UploadResponse { scan_id: scan_id.to_owned() })
    } else {
        None
    }
}

} // verus!

use peroxide::digest::{calculate_sha256, to_hex};
use peroxide::registry::ScanStore;
use peroxide::routing::{cors_headers, route, RequestMethod, Route};
use peroxide::types::FileInfo;
use peroxide::upload::{
    accept_upload, content_type_of, is_content_type, multipart_boundary, new_scan_id,
    scan_id_for, temp_file_name, Upload, UploadError,
};

const CONTENT_TYPE: &str = "multipart/form-data; boundary=XYZ";

fn body(content: &[u8]) -> Vec<u8> {
    let mut b = b"--XYZ\r\nContent-Disposition: form-data; name=\"file\"; filename=\"up.txt\"\r\n\r\n"
        .to_vec();
    b.extend_from_slice(content);
    b.extend_from_slice(b"\r\n--XYZ--\r\n");
    b
}

#[test]
fn sha256_of_known_inputs() {
    assert_eq!(
        calculate_sha256(b""),
        "e3b0c44298fc1c149afbf4c8996fb92427ae41e4649b934ca495991b7852b855"
    );
    assert_eq!(
        calculate_sha256(b"abc"),
        "ba7816bf8f01cfea414140de5dae2223b00361a396177a9cb410ff61f20015ad"
    );
    assert_eq!(calculate_sha256(b"abc").len(), 64);
    assert_ne!(calculate_sha256(b"abc"), calculate_sha256(b"abd"));
}

#[test]
fn to_hex_writes_two_lower_case_digits_per_byte() {
    assert_eq!(to_hex(&[]), "");
    assert_eq!(to_hex(&[0x00]), "00");
    assert_eq!(to_hex(&[0x0a, 0x14, 0x1e]), "0a141e");
    assert_eq!(to_hex(&[0xff, 0x10, 0x01, 0xab, 0xcd, 0xef]), "ff1001abcdef");
}

#[test]
fn accepted_upload_has_name_size_and_digest() {
    let upload = accept_upload(CONTENT_TYPE, &body(b"abc"), 1024).unwrap();
    assert_eq!(
        upload,
        Upload {
            file_info: FileInfo {
                filename: "up.txt".to_string(),
                size: 5,
                sha256: calculate_sha256(b"abc\r\n"),
            },
            data: b"abc\r\n".to_vec(),
        }
    );
}

#[test]
fn scenario_file_over_the_limit() {
    let store = ScanStore::new();
    let content = vec![b'a'; 100];
    assert_eq!(accept_upload(CONTENT_TYPE, &body(&content), 50), Err(UploadError::TooLarge(50)));
    assert_eq!(accept_upload(CONTENT_TYPE, &body(&content), 101), Err(UploadError::TooLarge(101)));
    assert!(accept_upload(CONTENT_TYPE, &body(&content), 102).is_ok());
    assert!(accept_upload(CONTENT_TYPE, &body(&content), 103).is_ok());
    assert!(store.get("scan-1").is_none());
}

#[test]
fn upload_must_be_multipart() {
    assert_eq!(accept_upload("application/json", &body(b"x"), 10), Err(UploadError::NotMultipart));
    assert_eq!(accept_upload("", &body(b"x"), 10), Err(UploadError::NotMultipart));
    assert_eq!(
        accept_upload(" multipart/form-data; boundary=XYZ", &body(b"x"), 10),
        Err(UploadError::NotMultipart)
    );
}

#[test]
fn upload_without_file_is_refused() {
    assert_eq!(
        accept_upload(CONTENT_TYPE, b"--XYZ\r\nno file here\r\n--XYZ--", 10),
        Err(UploadError::NoFile("No file found in multipart data".to_string()))
    );
}

#[test]
fn every_refusal_is_a_client_error() {
    assert_eq!(UploadError::NotMultipart.status_code(), 400);
    assert_eq!(UploadError::NoFile("x".to_string()).status_code(), 400);
    assert_eq!(UploadError::TooLarge(1).status_code(), 400);
}

#[test]
fn cors_headers_open_the_service() {
    assert_eq!(
        cors_headers(),
        vec![
            ("Access-Control-Allow-Origin".to_string(), "*".to_string()),
            ("Access-Control-Allow-Methods".to_string(), "GET, POST, OPTIONS".to_string()),
            ("Access-Control-Allow-Headers".to_string(), "Content-Type".to_string()),
        ]
    );
}

#[test]
fn error_messages() {
    assert_eq!(UploadError::NotMultipart.message(), "Expected multipart/form-data");
    assert_eq!(UploadError::NoFile("why".to_string()).message(), "why");
    assert_eq!(
        UploadError::TooLarge(10 * 1024 * 1024).message(),
        "File size exceeds maximum limit of 10MB"
    );
    assert_eq!(
        UploadError::TooLarge(1024 * 1024 - 1).message(),
        "File size exceeds maximum limit of 0MB"
    );
    assert_eq!(
        UploadError::TooLarge(u64::MAX).message(),
        "File size exceeds maximum limit of 17592186044415MB"
    );
}

#[test]
fn boundary_follows_the_first_key() {
    assert_eq!(multipart_boundary(CONTENT_TYPE), Some("XYZ".to_string()));
    assert_eq!(multipart_boundary("multipart/form-data"), Some("".to_string()));
    assert_eq!(multipart_boundary("multipart/form-data; boundary="), Some("".to_string()));
    assert_eq!(
        multipart_boundary("multipart/form-data; boundary=----Web✓Kit; charset=x"),
        Some("----Web✓Kit; charset=x".to_string())
    );
    assert_eq!(
        multipart_boundary("multipart/form-data; boundary=oneboundary=two"),
        Some("one".to_string())
    );
    assert_eq!(multipart_boundary("text/plain; boundary=XYZ"), None);
    assert_eq!(multipart_boundary("Multipart/Form-Data; boundary=XYZ"), None);
}

#[test]
fn content_type_header_is_found_in_any_case() {
    assert!(is_content_type("content-type"));
    assert!(is_content_type("Content-Type"));
    assert!(is_content_type("CONTENT-TYPE"));
    assert!(!is_content_type("content-typ"));
    assert!(!is_content_type("content-type "));
    assert!(!is_content_type("content_type"));
    assert!(!is_content_type("Content-Length"));
    let headers = vec![
        ("Host".to_string(), "localhost".to_string()),
        ("CONTENT-type".to_string(), "first".to_string()),
        ("Content-Type".to_string(), "second".to_string()),
    ];
    assert_eq!(content_type_of(&headers), "first");
    assert_eq!(content_type_of(&headers[..1].to_vec()), "");
    assert_eq!(content_type_of(&vec![]), "");
}

#[test]
fn scan_id_has_prefix_and_token() {
    assert_eq!(scan_id_for("0123"), "scan-0123");
    let id = new_scan_id();
    assert_eq!(id.len(), 41);
    assert!(id.starts_with("scan-"));
    for (i, c) in id[5..].chars().enumerate() {
        if i == 8 || i == 13 || i == 18 || i == 23 {
            assert_eq!(c, '-');
        } else {
            assert!(c.is_ascii_digit() || ('a'..='f').contains(&c));
        }
    }
    assert_ne!(new_scan_id(), new_scan_id());
}

#[test]
fn temp_file_name_joins_id_and_name() {
    assert_eq!(temp_file_name("scan-1", "a.txt"), "scan-1_a.txt");
    assert_eq!(temp_file_name("", ""), "_");
}

#[test]
fn routes_by_method_and_path() {
    assert_eq!(route(RequestMethod::Options, "/anything/at/all"), Route::Preflight);
    assert_eq!(route(RequestMethod::Options, ""), Route::Preflight);
    assert_eq!(route(RequestMethod::Post, "/api/upload"), Route::Upload);
    assert_eq!(route(RequestMethod::Post, "/api/upload/"), Route::NotFound);
    assert_eq!(route(RequestMethod::Post, "/api/upload?x=1"), Route::NotFound);
    assert_eq!(route(RequestMethod::Get, "/api/upload"), Route::NotFound);
    assert_eq!(
        route(RequestMethod::Get, "/api/scan-status/scan-1"),
        Route::ScanStatus("scan-1".to_string())
    );
    assert_eq!(
        route(RequestMethod::Get, "/api/scan-result/scan-1"),
        Route::ScanResult("scan-1".to_string())
    );
    assert_eq!(route(RequestMethod::Post, "/api/scan-result/scan-1"), Route::NotFound);
    assert_eq!(route(RequestMethod::Other, "/api/scan-result/scan-1"), Route::NotFound);
    assert_eq!(route(RequestMethod::Get, "/api/scan-other/scan-1"), Route::NotFound);
    assert_eq!(route(RequestMethod::Get, "/API/scan-result/scan-1"), Route::NotFound);
    assert_eq!(route(RequestMethod::Get, "/"), Route::NotFound);
    assert_eq!(route(RequestMethod::Get, ""), Route::NotFound);
}

#[test]
fn route_takes_the_fourth_segment_as_identifier() {
    assert_eq!(
        route(RequestMethod::Get, "/api/scan-status/"),
        Route::ScanStatus("".to_string())
    );
    assert_eq!(route(RequestMethod::Get, "/api/scan-status"), Route::NotFound);
    assert_eq!(
        route(RequestMethod::Get, "/api/scan-result/id/more/stuff"),
        Route::ScanResult("id".to_string())
    );
    assert_eq!(
        route(RequestMethod::Get, "ignored/api/scan-result/id"),
        Route::ScanResult("id".to_string())
    );
    assert_eq!(
        route(RequestMethod::Get, "/api/scan-result/scan-é✓?q"),
        Route::ScanResult("scan-é✓?q".to_string())
    );
}

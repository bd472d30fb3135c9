use gph::cgi::{convert_to_response, header_end_index, parse_headers};
use gph::error::ServerError;

fn header(name: &str, value: &str) -> (Vec<u8>, Vec<u8>) {
    (name.as_bytes().to_vec(), value.as_bytes().to_vec())
}

#[test]
fn status_code_is_404() {
    let output = [83, 116, 97, 116, 117, 115, 58, 32, 52, 48, 52, 32, 78, 111, 116, 32, 70, 111, 117, 110, 100, 13, 10, 69, 120, 112, 105, 114, 101, 115, 58, 32, 70, 114, 105, 44, 32, 48, 49, 32, 74, 97, 110, 32, 49, 57, 56, 48, 32, 48, 48, 58, 48, 48, 58, 48, 48, 32, 71, 77, 84, 13, 10, 80, 114, 97, 103, 109, 97, 58, 32, 110, 111, 45, 99, 97, 99, 104, 101, 13, 10, 67, 97, 99, 104, 101, 45, 67, 111, 110, 116, 114, 111, 108, 58, 32, 110, 111, 45, 99, 97, 99, 104, 101, 44, 32, 109, 97, 120, 45, 97, 103, 101, 61, 48, 44, 32, 109, 117, 115, 116, 45, 114, 101, 118, 97, 108, 105, 100, 97, 116, 101, 13, 10, 13, 10];
    let response = convert_to_response(&output).unwrap();
    assert_eq!(response.status, 404);
}

#[test]
fn status_code_is_500() {
    let output = [83, 116, 97, 116, 117, 115, 58, 32, 53, 48, 48, 32, 73, 110, 116, 101, 114, 110, 97, 108, 32, 83, 101, 114, 118, 101, 114, 32, 69, 114, 114, 111, 114, 13, 10, 69, 120, 112, 105, 114, 101, 115, 58, 32, 70, 114, 105, 44, 32, 48, 49, 32, 74, 97, 110, 32, 49, 57, 56, 48, 32, 48, 48, 58, 48, 48, 58, 48, 48, 32, 71, 77, 84, 13, 10, 80, 114, 97, 103, 109, 97, 58, 32, 110, 111, 45, 99, 97, 99, 104, 101, 13, 10, 67, 97, 99, 104, 101, 45, 67, 111, 110, 116, 114, 111, 108, 58, 32, 110, 111, 45, 99, 97, 99, 104, 101, 44, 32, 109, 97, 120, 45, 97, 103, 101, 61, 48, 44, 32, 109, 117, 115, 116, 45, 114, 101, 118, 97, 108, 105, 100, 97, 116, 101, 13, 10, 13, 10];
    let response = convert_to_response(&output).unwrap();
    assert_eq!(response.status, 500);
}

#[test]
fn status_404_not_found_has_empty_body() {
    let response = convert_to_response(b"Status: 404 Not Found\r\n\r\n").unwrap();
    assert_eq!(response.status, 404);
    assert!(response.body.is_empty());
    assert!(response.headers.is_empty());
}

#[test]
fn status_500_internal_server_error() {
    let response = convert_to_response(b"Status: 500 Internal Server Error\r\n\r\n").unwrap();
    assert_eq!(response.status, 500);
}

#[test]
fn happy_path_reply_has_status_header_and_body() {
    let response = convert_to_response(b"Status: 200 OK\r\nContent-Type: text/plain\r\n\r\nhi").unwrap();
    assert_eq!(response.status, 200);
    assert_eq!(response.headers, vec![header("Content-Type", "text/plain")]);
    assert_eq!(response.body, b"hi".to_vec());
}

#[test]
fn missing_status_means_200() {
    let response = convert_to_response(b"Content-Type: text/plain\r\n\r\nbody").unwrap();
    assert_eq!(response.status, 200);
    assert_eq!(response.body, b"body".to_vec());
}

#[test]
fn status_without_reason_is_accepted() {
    let response = convert_to_response(b"Status: 304\r\n\r\n").unwrap();
    assert_eq!(response.status, 304);
}

#[test]
fn repeated_headers_are_all_kept_in_order() {
    let response = convert_to_response(b"Set-Cookie: a=1\r\nSet-Cookie: b=2\r\n\r\n").unwrap();
    assert_eq!(response.headers, vec![header("Set-Cookie", "a=1"), header("Set-Cookie", "b=2")]);
}

#[test]
fn value_keeps_everything_after_first_separator() {
    let response = convert_to_response(b"X-Note: a: b\r\n\r\n").unwrap();
    assert_eq!(response.headers, vec![header("X-Note", "a: b")]);
}

#[test]
fn body_that_starts_with_crlf_is_kept() {
    let response = convert_to_response(b"Status: 200 OK\r\n\r\n\r\nrest").unwrap();
    assert_eq!(response.body, b"\r\nrest".to_vec());
}

#[test]
fn lines_without_separator_are_skipped() {
    let response = convert_to_response(b"garbage line\r\nContent-Type: a/b\r\n\r\n").unwrap();
    assert_eq!(response.status, 200);
    assert_eq!(response.headers, vec![header("Content-Type", "a/b")]);
}

#[test]
fn no_blank_line_is_refused() {
    let result = convert_to_response(b"Status: 200 OK\r\nContent-Type: text/plain\r\n");
    assert!(matches!(result, Err(ServerError::FailedParseGitResponse)));
    assert!(matches!(convert_to_response(b""), Err(ServerError::FailedParseGitResponse)));
}

#[test]
fn bad_status_code_is_refused() {
    assert!(matches!(convert_to_response(b"Status: abc\r\n\r\n"), Err(ServerError::FailedParseGitResponse)));
    assert!(matches!(convert_to_response(b"Status: 0200 OK\r\n\r\n"), Err(ServerError::FailedParseGitResponse)));
    assert!(matches!(convert_to_response(b"Status: 099\r\n\r\n"), Err(ServerError::FailedParseGitResponse)));
}

#[test]
fn bad_header_name_is_refused() {
    assert!(matches!(convert_to_response(b"Bad Name: x\r\n\r\n"), Err(ServerError::FailedParseGitResponse)));
    assert!(matches!(convert_to_response(b": x\r\n\r\n"), Err(ServerError::FailedParseGitResponse)));
}

#[test]
fn bad_header_value_is_refused() {
    assert!(matches!(convert_to_response(b"X-A: a\x7fb\r\n\r\n"), Err(ServerError::FailedParseGitResponse)));
    let response = convert_to_response(b"X-A: a\tb\r\n\r\n").unwrap();
    assert_eq!(response.headers, vec![header("X-A", "a\tb")]);
}

#[test]
fn header_end_index_finds_first_blank_line() {
    assert_eq!(header_end_index(b"\r\n\r\nbody"), Some(0));
    assert_eq!(header_end_index(b"A: b\r\n\r\nx\r\n\r\n"), Some(4));
    assert_eq!(header_end_index(b"A: b\r\n"), None);
}

#[test]
fn empty_header_region_gives_defaults() {
    let (status, body_index, headers) = parse_headers(b"\r\n\r\nxyz").unwrap();
    assert_eq!(status, 200);
    assert_eq!(body_index, 4);
    assert!(headers.is_empty());
}

#[test]
fn status_with_several_headers_and_body() {
    let response = convert_to_response(b"Status: 201 Created\r\nA: 1\r\nB-c: x y\r\n\r\nbody\r\n").unwrap();
    assert_eq!(response.status, 201);
    assert_eq!(response.headers, vec![header("A", "1"), header("B-c", "x y")]);
    assert_eq!(response.body, b"body\r\n".to_vec());
}

#[test]
fn header_name_length_and_characters() {
    let mut long = vec![b'a'; 65535];
    long.extend_from_slice(b": v\r\n\r\n");
    assert_eq!(convert_to_response(&long).unwrap().headers.len(), 1);
    let mut too_long = vec![b'a'; 65536];
    too_long.extend_from_slice(b": v\r\n\r\n");
    assert!(matches!(convert_to_response(&too_long), Err(ServerError::FailedParseGitResponse)));
    assert!(matches!(convert_to_response(b"A\"b: v\r\n\r\n"), Err(ServerError::FailedParseGitResponse)));
    assert!(convert_to_response(b"X-~|^_`!#$%&'*+.: v\r\n\r\n").is_ok());
}

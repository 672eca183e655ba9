use mihomo_tray::http::{
    build_request, find_header_end, parse_response, status_is_success, HttpError,
    ResponseProgress, MAX_HEADER_BYTES,
};
use mihomo_tray::text::{
    chars_eq, decimal_string, eq_ignore_case, find_chars, has_prefix, has_suffix,
    parse_unsigned_exec, replace_str, split_chars, split_lines, split_words, trim_chars,
};

fn cs(s: &str) -> Vec<char> {
    s.chars().collect()
}

fn st(v: &[char]) -> String {
    v.iter().collect()
}

#[test]
fn trim_removes_unicode_white_space() {
    assert_eq!(st(&trim_chars(&cs("\u{3000} a b \n\t"))), "a b");
    assert_eq!(st(&trim_chars(&cs("   "))), "");
}

#[test]
fn replace_escapes_quotes() {
    assert_eq!(replace_str("say \"hi\"", "\"", "\\\""), "say \\\"hi\\\"");
    assert_eq!(replace_str("aaa", "aa", "b"), "ba");
}

#[test]
fn parse_unsigned_like_rust() {
    assert_eq!(parse_unsigned_exec(&cs("ff"), 16, u64::MAX), Some(255));
    assert_eq!(parse_unsigned_exec(&cs("FF"), 16, u64::MAX), Some(255));
    assert_eq!(parse_unsigned_exec(&cs("+42"), 10, 100), Some(42));
    assert_eq!(parse_unsigned_exec(&cs("100"), 10, 100), Some(100));
    assert_eq!(parse_unsigned_exec(&cs("101"), 10, 100), None);
    assert_eq!(parse_unsigned_exec(&cs(""), 10, 100), None);
    assert_eq!(parse_unsigned_exec(&cs("+"), 10, 100), None);
    assert_eq!(parse_unsigned_exec(&cs("1x"), 10, 100), None);
    assert_eq!(parse_unsigned_exec(&cs("-1"), 10, 100), None);
    assert_eq!(
        parse_unsigned_exec(&cs("18446744073709551615"), 10, u64::MAX),
        Some(u64::MAX)
    );
    assert_eq!(parse_unsigned_exec(&cs("18446744073709551616"), 10, u64::MAX), None);
}

#[test]
fn decimal_text_of_numbers() {
    assert_eq!(decimal_string(0), "0");
    assert_eq!(decimal_string(7890), "7890");
    assert_eq!(decimal_string(u64::MAX), u64::MAX.to_string());
}

#[test]
fn lines_match_std_lines() {
    for text in ["a\r\nb\n\nc\r", "", "\n", "one", "x\n", "a\r\n\r\nb"] {
        let got: Vec<String> = split_lines(&cs(text)).iter().map(|l| st(l)).collect();
        let want: Vec<String> = text.lines().map(String::from).collect();
        assert_eq!(got, want, "text {text:?}");
    }
}

#[test]
fn words_match_std_split_whitespace() {
    for text in ["  a  b\tc\n", "", "   ", "x", "a\u{a0}b"] {
        let got: Vec<String> = split_words(&cs(text)).iter().map(|w| st(w)).collect();
        let want: Vec<String> = text.split_whitespace().map(String::from).collect();
        assert_eq!(got, want, "text {text:?}");
    }
}

#[test]
fn split_matches_std_split() {
    let got: Vec<String> = split_chars(&cs("a::b::"), &cs("::")).iter().map(|w| st(w)).collect();
    assert_eq!(got, vec!["a", "b", ""]);
}

#[test]
fn prefix_suffix_and_search() {
    assert!(has_prefix(&cs("mihomo-linux"), &cs("mihomo")));
    assert!(!has_prefix(&cs("mi"), &cs("mihomo")));
    assert!(has_suffix(&cs("core.tar.gz"), &cs(".gz")));
    assert!(!has_suffix(&cs("gz"), &cs(".gz")));
    assert_eq!(find_chars(&cs("abcabc"), &cs("ca")), Some(2));
    assert_eq!(find_chars(&cs("abc"), &cs("x")), None);
    assert!(chars_eq(&cs("same"), &cs("same")));
    assert!(eq_ignore_case(&cs("Selector"), &cs("SELECTOR")));
}

#[test]
fn utf8_header_decoding() {
    let ok = b"HTTP/1.1 200 \xc3\xa9\r\nContent-Length: 0\r\n\r\n";
    assert_eq!(complete(parse_response(ok, true)), (200, Vec::new()));
}

#[test]
fn request_text_with_secret() {
    let r = build_request("GET", "/version", &Some("s3".to_string()), None);
    assert_eq!(
        r,
        "GET /version HTTP/1.1\r\nHost: localhost\r\nContent-Type: application/json\r\nContent-Length: 0\r\nAuthorization: Bearer s3\r\n\r\n"
    );
}

#[test]
fn content_length_counts_utf8_bytes() {
    let r = build_request("PUT", "/x", &None, Some("é"));
    assert_eq!(
        r,
        "PUT /x HTTP/1.1\r\nHost: localhost\r\nContent-Type: application/json\r\nContent-Length: 2\r\n\r\né"
    );
}

#[test]
fn success_statuses() {
    assert!(status_is_success(200));
    assert!(status_is_success(204));
    assert!(!status_is_success(199));
    assert!(!status_is_success(300));
    assert!(!status_is_success(404));
}

#[test]
fn header_end_after_blank_line() {
    assert_eq!(find_header_end(b"HTTP/1.1 200 OK\r\n\r\nbody"), Some(19));
    assert_eq!(find_header_end(b"HTTP/1.1 200 OK\r\n"), None);
}

fn complete(p: ResponseProgress) -> (u16, Vec<u8>) {
    match p {
        ResponseProgress::Complete { status, body } => (status, body),
        ResponseProgress::NeedMore => panic!("need more"),
        ResponseProgress::Failed(e) => panic!("failed: {}", e.message()),
    }
}

fn failure(p: ResponseProgress) -> HttpError {
    match p {
        ResponseProgress::Failed(e) => e,
        _ => panic!("expected a failure"),
    }
}

#[test]
fn body_by_content_length() {
    let buf = b"HTTP/1.1 200 OK\r\ncontent-LENGTH: 5\r\n\r\nhello, extra";
    assert_eq!(complete(parse_response(buf, false)), (200, b"hello".to_vec()));
    let partial = b"HTTP/1.1 200 OK\r\nContent-Length: 5\r\n\r\nhel";
    assert!(matches!(parse_response(partial, false), ResponseProgress::NeedMore));
    assert_eq!(complete(parse_response(partial, true)), (200, b"hel".to_vec()));
}

#[test]
fn body_to_end_of_stream() {
    let buf = b"HTTP/1.1 404 Not Found\r\n\r\nmissing";
    assert!(matches!(parse_response(buf, false), ResponseProgress::NeedMore));
    assert_eq!(complete(parse_response(buf, true)), (404, b"missing".to_vec()));
}

#[test]
fn chunked_body() {
    let buf = b"HTTP/1.1 200 OK\r\nTransfer-Encoding: chunked\r\n\r\n5;ext\r\nhello\r\n6\r\n world\r\n0\r\n\r\n";
    assert_eq!(complete(parse_response(buf, false)), (200, b"hello world".to_vec()));
    let cut = b"HTTP/1.1 200 OK\r\nTransfer-Encoding: chunked\r\n\r\n5\r\nhel";
    assert!(matches!(parse_response(cut, false), ResponseProgress::NeedMore));
    assert_eq!(failure(parse_response(cut, true)), HttpError::UnexpectedEofInChunkData);
    let no_size = b"HTTP/1.1 200 OK\r\nTransfer-Encoding: chunked\r\n\r\n5";
    assert_eq!(failure(parse_response(no_size, true)), HttpError::UnexpectedEofInChunkedBody);
    let bad_size = b"HTTP/1.1 200 OK\r\nTransfer-Encoding: chunked\r\n\r\nzz\r\n";
    assert_eq!(failure(parse_response(bad_size, false)), HttpError::InvalidChunkSize);
    let bad_utf8 = b"HTTP/1.1 200 OK\r\nTransfer-Encoding: chunked\r\n\r\n\xff\r\n";
    assert_eq!(failure(parse_response(bad_utf8, false)), HttpError::ChunkSizeNotUtf8);
}

#[test]
fn head_errors() {
    assert_eq!(failure(parse_response(b"HTTP/1.1 200", true)), HttpError::UnexpectedEofInHeaders);
    assert!(matches!(parse_response(b"HTTP/1.1 200", false), ResponseProgress::NeedMore));
    let big = vec![b'a'; MAX_HEADER_BYTES + 1];
    assert_eq!(failure(parse_response(&big, false)), HttpError::HeadersTooLarge);
    assert_eq!(failure(parse_response(b"\xff\xfe\r\n\r\n", true)), HttpError::HeadersNotUtf8);
    assert_eq!(failure(parse_response(b"HTTP/1.1\r\n\r\n", true)), HttpError::MissingStatusCode);
    assert_eq!(failure(parse_response(b"HTTP/1.1 abc\r\n\r\n", true)), HttpError::InvalidStatusCode);
    assert_eq!(
        failure(parse_response(b"HTTP/1.1 200 OK\r\nContent-Length: x\r\n\r\n", true)),
        HttpError::InvalidContentLength
    );
}

#[test]
fn error_messages() {
    assert_eq!(HttpError::HeadersTooLarge.message(), "HTTP headers too large");
    assert_eq!(HttpError::InvalidChunkSize.message(), "invalid chunk size");
}

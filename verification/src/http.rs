//! The HTTP/1.1 exchange with the core's local controller: the request text the tray
//! writes, and the reading of the response, including chunked transfer coding.
//!
//! The response is read incrementally: the caller appends what the stream gave to a
//! buffer and asks `parse_response` whether the response is complete, whether more bytes
//! are needed, or whether it is malformed. `eof` says that the stream has ended.

use vstd::prelude::*;
use vstd::utf8::*;

use crate::text::{
    all_digits, ascii_lower_seq, before_first, before_first_chars, chars_of, contains,
    contains_chars, decimal, decimal_chars, digit_of, digits_value, extend_chars, extend_str,
    find, has_prefix, is_white_space, lemma_find_at, lemma_find_occurs, lemma_find_skip,
    lower_chars, occurs_at, parse_unsigned, parse_unsigned_exec, split_chars, trim_end,
    trim_start,
    split_on, split_words, starts_with, string_from_chars, sub_chars, trim, trim_chars,
    utf8_chars, views, words,
};

verus! {

/// Largest header block that is waited for; a longer one without its blank line is refused.
pub const MAX_HEADER_BYTES: usize = 65536;

/// Why a response could not be read.
#[derive(Debug, Clone, Copy, PartialEq, Eq, Structural)]
pub enum HttpError {
    UnexpectedEofInHeaders,
    HeadersTooLarge,
    HeadersNotUtf8,
    MissingStatusCode,
    InvalidStatusCode,
    InvalidContentLength,
    UnexpectedEofInChunkedBody,
    ChunkSizeNotUtf8,
    InvalidChunkSize,
    UnexpectedEofInChunkData,
}

pub open spec fn http_error_message(e: HttpError) -> Seq<char> {
    match e {
        HttpError::UnexpectedEofInHeaders => "unexpected EOF while reading HTTP headers"@,
        HttpError::HeadersTooLarge => "HTTP headers too large"@,
        HttpError::HeadersNotUtf8 => "HTTP headers are not UTF-8"@,
        HttpError::MissingStatusCode => "missing status code"@,
        HttpError::InvalidStatusCode => "invalid status code"@,
        HttpError::InvalidContentLength => "content-length"@,
        HttpError::UnexpectedEofInChunkedBody => "unexpected EOF in chunked body"@,
        HttpError::ChunkSizeNotUtf8 => "chunk size is not UTF-8"@,
        HttpError::InvalidChunkSize => "invalid chunk size"@,
        HttpError::UnexpectedEofInChunkData => "unexpected EOF in chunk data"@,
    }
}

impl HttpError {
    /// Human-readable description of the error.
    pub fn message(&self) -> (r: &'static str)
        ensures
            r@ == http_error_message(*self),
    {
        match self {
            HttpError::UnexpectedEofInHeaders => "unexpected EOF while reading HTTP headers",
            HttpError::HeadersTooLarge => "HTTP headers too large",
            HttpError::HeadersNotUtf8 => "HTTP headers are not UTF-8",
            HttpError::MissingStatusCode => "missing status code",
            HttpError::InvalidStatusCode => "invalid status code",
            HttpError::InvalidContentLength => "content-length",
            HttpError::UnexpectedEofInChunkedBody => "unexpected EOF in chunked body",
            HttpError::ChunkSizeNotUtf8 => "chunk size is not UTF-8",
            HttpError::InvalidChunkSize => "invalid chunk size",
            HttpError::UnexpectedEofInChunkData => "unexpected EOF in chunk data",
        }
    }
}

// ------------------------------------------------------------------ request
/// The header line carrying the bearer secret, when there is one.
pub open spec fn auth_line(secret: Option<Seq<char>>) -> Seq<char> {
    match secret {
        Some(s) => "Authorization: Bearer "@ + s + "\r\n"@,
        None => Seq::empty(),
    }
}

/// The full text of a request to the controller. `Content-Length` is the byte length of
/// the UTF-8 encoded body (zero without a body).
pub open spec fn request_text(
    method: Seq<char>,
    path: Seq<char>,
    secret: Option<Seq<char>>,
    body: Seq<char>,
) -> Seq<char> {
    method + " "@ + path + " HTTP/1.1\r\nHost: localhost\r\nContent-Type: application/json\r\nContent-Length: "@
        + decimal(encode_utf8(body).len()) + "\r\n"@ + auth_line(secret) + "\r\n"@ + body
}

pub open spec fn opt_view(s: Option<String>) -> Option<Seq<char>> {
    match s {
        Some(x) => Some(x@),
        None => None,
    }
}

/// Builds the request text; see `request_text`.
pub fn build_request(method: &str, path: &str, secret: &Option<String>, body: Option<&str>) -> (r:
    String)
    ensures
        r@ == request_text(
            method@,
            path@,
            opt_view(*secret),
            match body {
                Some(b) => b@,
                None => Seq::empty(),
            },
        ),
{
    let body_str: &str = match body {
        Some(b) => b,
        None => "",
    };
    proof {
        reveal_strlit("");
    }
    let mut v: Vec<char> = Vec::new();
    extend_str(&mut v, method);
    extend_str(&mut v, " ");
    extend_str(&mut v, path);
    extend_str(
        &mut v,
        " HTTP/1.1\r\nHost: localhost\r\nContent-Type: application/json\r\nContent-Length: ",
    );
    let len = body_str.as_bytes().len();
    let digits = decimal_chars(len as u64);
    extend_chars(&mut v, digits.as_slice());
    extend_str(&mut v, "\r\n");
    match secret {
        Some(s) => {
            extend_str(&mut v, "Authorization: Bearer ");
            extend_str(&mut v, s.as_str());
            extend_str(&mut v, "\r\n");
        },
        None => {},
    }
    extend_str(&mut v, "\r\n");
    extend_str(&mut v, body_str);
    proof {
        let b = match body {
            Some(b) => b@,
            None => Seq::<char>::empty(),
        };
        assert(body_str@ == b);
        assert(v@ =~= request_text(method@, path@, opt_view(*secret), b));
    }
    string_from_chars(v.as_slice())
}

/// Whether a status code is a success (2xx).
pub open spec fn is_success(status: u16) -> bool {
    200 <= status < 300
}

pub fn status_is_success(status: u16) -> (r: bool)
    ensures
        r == is_success(status),
{
    200 <= status && status < 300
}

// ------------------------------------------------------------------ bytes
pub open spec fn blank_line() -> Seq<u8> {
    seq![13u8, 10u8, 13u8, 10u8]
}

pub open spec fn crlf_bytes() -> Seq<u8> {
    seq![13u8, 10u8]
}

fn occurs_at_bytes(s: &[u8], p: &[u8], i: usize) -> (r: bool)
    requires
        i <= s@.len(),
    ensures
        r == occurs_at(s@, p@, i as int),
{
    if p.len() > s.len() - i {
        return false;
    }
    let mut k: usize = 0;
    while k < p.len()
        invariant
            i + p.len() <= s.len(),
            i + p@.len() <= s@.len(),
            k <= p@.len(),
            forall|m: int| 0 <= m < k ==> s@[i + m] == p@[m],
        decreases p@.len() - k,
    {
        if s[i + k] != p[k] {
            assert(s@.subrange(i as int, i + p@.len())[k as int] != p@[k as int]);
            return false;
        }
        k += 1;
    }
    assert(s@.subrange(i as int, i + p@.len()) =~= p@);
    true
}

/// Position, counted from `start`, of the first occurrence of `p` in `s[start..]`.
fn find_bytes_from(s: &[u8], start: usize, p: &[u8]) -> (r: Option<usize>)
    requires
        start <= s@.len(),
        p@.len() > 0,
    ensures
        r matches Some(k) ==> find(s@.skip(start as int), p@) == Some(k as int) && start + k
            + p@.len() <= s@.len(),
        r is None ==> find(s@.skip(start as int), p@) is None,
{
    let ghost t = s@.skip(start as int);
    let mut i = start;
    while i < s.len()
        invariant
            start <= i <= s@.len(),
            p@.len() > 0,
            t == s@.skip(start as int),
            forall|k: int| 0 <= k < i - start ==> !occurs_at(t, p@, k),
        decreases s@.len() - i,
    {
        if occurs_at_bytes(s, p, i) {
            proof {
                assert(t.subrange(i - start, i - start + p@.len()) =~= s@.subrange(
                    i as int,
                    i + p@.len(),
                ));
                assert(occurs_at(t, p@, i - start));
                lemma_find_skip(t, p@, i - start);
                lemma_find_at(t, p@, i - start);
            }
            return Some(i - start);
        }
        proof {
            if occurs_at(t, p@, i - start) {
                assert(t.subrange(i - start, i - start + p@.len()) =~= s@.subrange(
                    i as int,
                    i + p@.len(),
                ));
            }
        }
        i += 1;
    }
    proof {
        lemma_find_skip(t, p@, t.len() as int);
        assert(t.skip(t.len() as int).len() == 0);
    }
    None
}

fn sub_bytes(s: &[u8], from: usize, to: usize) -> (r: Vec<u8>)
    requires
        from <= to <= s@.len(),
    ensures
        r@ == s@.subrange(from as int, to as int),
{
    let mut r: Vec<u8> = Vec::new();
    let mut i = from;
    while i < to
        invariant
            from <= i <= to <= s@.len(),
            r@ == s@.subrange(from as int, i as int),
        decreases to - i,
    {
        r.push(s[i]);
        i += 1;
    }
    r
}

/// Index just past the blank line that ends the header block, if the buffer holds one.
pub open spec fn header_end(buf: Seq<u8>) -> Option<int> {
    match find(buf, blank_line()) {
        Some(i) => Some(i + 4),
        None => None,
    }
}

pub fn find_header_end(buf: &[u8]) -> (r: Option<usize>)
    ensures
        r matches Some(e) ==> header_end(buf@) == Some(e as int) && e <= buf@.len(),
        r is None ==> header_end(buf@) is None,
{
    let pat: [u8; 4] = [13u8, 10u8, 13u8, 10u8];
    assert(pat@ =~= blank_line());
    assert(buf@.skip(0) =~= buf@);
    assert(buf@.len() == buf.len());
    match find_bytes_from(buf, 0, &pat) {
        Some(i) => Some(i + 4),
        None => None,
    }
}

// ------------------------------------------------------------------ head
/// What the header block says about the body.
#[derive(Debug, Clone, Copy, PartialEq, Eq, Structural)]
pub struct ResponseHead {
    pub status: u16,
    pub content_length: Option<usize>,
    pub chunked: bool,
}

/// The status code: the second word of the status line, as decimal text.
pub open spec fn status_of(line: Seq<char>) -> Result<u16, HttpError> {
    let w = words(line);
    if w.len() < 2 {
        Err(HttpError::MissingStatusCode)
    } else {
        match parse_unsigned(w[1], 10, 65535) {
            Some(v) => Ok(v as u16),
            None => Err(HttpError::InvalidStatusCode),
        }
    }
}

/// The effect of one header line on (content length, chunked). The field names are
/// matched case-insensitively; a `content-length` value that is not a number is an error.
pub open spec fn header_field(line: Seq<char>, cl: Option<usize>, chunked: bool) -> Result<
    (Option<usize>, bool),
    HttpError,
> {
    let lower = ascii_lower_seq(line);
    if starts_with(lower, "content-length:"@) {
        match parse_unsigned(
            trim(lower.skip("content-length:"@.len() as int)),
            10,
            usize::MAX as nat,
        ) {
            Some(v) => Ok((Some(v as usize), chunked)),
            None => Err(HttpError::InvalidContentLength),
        }
    } else if starts_with(lower, "transfer-encoding:"@) && contains(lower, "chunked"@) {
        Ok((cl, true))
    } else {
        Ok((cl, chunked))
    }
}

/// All header lines, in order; the last `content-length` wins.
pub open spec fn header_fields(lines: Seq<Seq<char>>) -> Result<(Option<usize>, bool), HttpError>
    decreases lines.len(),
{
    if lines.len() == 0 {
        Ok((None, false))
    } else {
        match header_fields(lines.drop_last()) {
            Err(e) => Err(e),
            Ok((cl, ch)) => header_field(lines.last(), cl, ch),
        }
    }
}

/// The header block, decoded: status line first, then fields, separated by CRLF.
pub open spec fn parse_head(text: Seq<char>) -> Result<ResponseHead, HttpError> {
    let lines = split_on(text, "\r\n"@);
    match status_of(lines[0]) {
        Err(e) => Err(e),
        Ok(status) => match header_fields(lines.skip(1)) {
            Err(e) => Err(e),
            Ok((cl, ch)) => Ok(ResponseHead { status, content_length: cl, chunked: ch }),
        },
    }
}

fn status_exec(line: &[char]) -> (r: Result<u16, HttpError>)
    ensures
        r == status_of(line@),
{
    let w = split_words(line);
    if w.len() < 2 {
        return Err(HttpError::MissingStatusCode);
    }
    match parse_unsigned_exec(w[1].as_slice(), 10, 65535) {
        Some(v) => Ok(v as u16),
        None => Err(HttpError::InvalidStatusCode),
    }
}

fn header_field_exec(line: &[char], cl: Option<usize>, chunked: bool) -> (r: Result<
    (Option<usize>, bool),
    HttpError,
>)
    ensures
        r == header_field(line@, cl, chunked),
{
    let lower = lower_chars(line);
    let cl_name = chars_of("content-length:");
    if has_prefix(lower.as_slice(), cl_name.as_slice()) {
        let value = sub_chars(lower.as_slice(), cl_name.len(), lower.len());
        assert(value@ =~= lower@.skip("content-length:"@.len() as int));
        let t = trim_chars(value.as_slice());
        match parse_unsigned_exec(t.as_slice(), 10, usize::MAX as u64) {
            Some(v) => Ok((Some(v as usize), chunked)),
            None => Err(HttpError::InvalidContentLength),
        }
    } else {
        let te_name = chars_of("transfer-encoding:");
        let chunked_word = chars_of("chunked");
        if has_prefix(lower.as_slice(), te_name.as_slice()) && contains_chars(
            lower.as_slice(),
            chunked_word.as_slice(),
        ) {
            Ok((cl, true))
        } else {
            Ok((cl, chunked))
        }
    }
}

proof fn lemma_fields_err_persists(lines: Seq<Seq<char>>, j: int)
    requires
        0 <= j <= lines.len(),
        header_fields(lines.take(j)) is Err,
    ensures
        header_fields(lines) == header_fields(lines.take(j)),
    decreases lines.len() - j,
{
    if j < lines.len() {
        assert(lines.take(j + 1).drop_last() =~= lines.take(j));
        lemma_fields_err_persists(lines, j + 1);
    } else {
        assert(lines.take(j) =~= lines);
    }
}

/// Reads the header block; see `parse_head`.
pub fn parse_head_exec(text: &[char]) -> (r: Result<ResponseHead, HttpError>)
    ensures
        r == parse_head(text@),
{
    let sep = chars_of("\r\n");
    proof {
        reveal_strlit("\r\n");
    }
    let lines = split_chars(text, sep.as_slice());
    let ghost lv = views(lines@);
    proof {
        crate::text::lemma_split_on_nonempty(text@, sep@);
    }
    assert(lv.len() == lines@.len());
    assert(lv[0] == lines@[0]@);
    let status = match status_exec(lines[0].as_slice()) {
        Ok(s) => s,
        Err(e) => return Err(e),
    };
    let mut cl: Option<usize> = None;
    let mut chunked = false;
    let mut i: usize = 1;
    assert(lv.skip(1).take(0) =~= Seq::<Seq<char>>::empty());
    while i < lines.len()
        invariant
            1 <= i <= lines@.len(),
            lv == views(lines@),
            lv == split_on(text@, "\r\n"@),
            lv.len() >= 1,
            status_of(lv[0]) == Ok::<u16, HttpError>(status),
            header_fields(lv.skip(1).take(i - 1)) == Ok::<(Option<usize>, bool), HttpError>(
                (cl, chunked),
            ),
        decreases lines@.len() - i,
    {
        let ghost pre = lv.skip(1).take(i - 1);
        let ghost next = lv.skip(1).take(i as int);
        assert(next.drop_last() =~= pre);
        assert(next.last() == lines@[i as int]@);
        match header_field_exec(lines[i].as_slice(), cl, chunked) {
            Ok((c, ch)) => {
                cl = c;
                chunked = ch;
            },
            Err(e) => {
                proof {
                    lemma_fields_err_persists(lv.skip(1), i as int);
                    assert(lv.skip(1).take(i as int) == next);
                }
                return Err(e);
            },
        }
        i += 1;
    }
    assert(lv.skip(1).take(i - 1) =~= lv.skip(1));
    Ok(ResponseHead { status, content_length: cl, chunked })
}

// ------------------------------------------------------------------ chunked body
/// Progress of decoding a chunked body from what has arrived so far.
pub enum Dechunk {
    Done(Seq<u8>),
    NeedSizeLine,
    NeedData,
    Bad(HttpError),
}

/// The chunk size named by a size line: the text before any `;` extension, trimmed
/// first, read as hexadecimal.
pub open spec fn chunk_size(line_bytes: Seq<u8>) -> Result<nat, HttpError> {
    if !valid_utf8(line_bytes) {
        Err(HttpError::ChunkSizeNotUtf8)
    } else {
        match parse_unsigned(
            before_first(trim(decode_utf8(line_bytes)), ";"@),
            16,
            usize::MAX as nat,
        ) {
            Some(v) => Ok(v),
            None => Err(HttpError::InvalidChunkSize),
        }
    }
}

/// A hexadecimal digit: `0`-`9`, `a`-`f` or `A`-`F`.
pub open spec fn is_hex_char(c: char) -> bool {
    ('0' <= c && c <= '9') || ('a' <= c && c <= 'f') || ('A' <= c && c <= 'F')
}

/// The value of a hexadecimal digit: `0`-`9` are 0 to 9, `a`-`f` and `A`-`F` are 10 to 15.
pub open spec fn hex_value(c: char) -> nat {
    if '0' <= c && c <= '9' {
        (c as u32 - '0' as u32) as nat
    } else if 'a' <= c && c <= 'f' {
        (c as u32 - 'a' as u32 + 10) as nat
    } else {
        (c as u32 - 'A' as u32 + 10) as nat
    }
}

/// A size line of hexadecimal digits names the chunk size of their value, read in base 16,
/// while it fits in `usize`.
proof fn lemma_chunk_size_hex(d: Seq<char>)
    requires
        d.len() >= 1,
        forall|i: int| 0 <= i < d.len() ==> is_hex_char(#[trigger] d[i]),
    ensures
        digits_value(d, 16) <= usize::MAX ==> chunk_size(encode_utf8(d)) == Ok::<nat, HttpError>(
            digits_value(d, 16),
        ),
        digits_value(d, 16) > usize::MAX ==> chunk_size(encode_utf8(d)) == Err::<nat, HttpError>(
            HttpError::InvalidChunkSize,
        ),
{
    encode_utf8_valid_utf8(d);
    encode_utf8_decode_utf8(d);
    assert(!is_white_space(d[0]));
    assert(trim_start(d) == d);
    assert(!is_white_space(d.last()));
    assert(trim_end(d) == d);
    assert(trim(d) == d);
    reveal_strlit(";");
    lemma_find_occurs(d, ";"@);
    if let Some(i) = find(d, ";"@) {
        assert(d.subrange(i, i + 1)[0] == d[i]);
        assert(false);
    }
    assert(before_first(d, ";"@) == d);
    assert(d[0] != '+');
    assert(all_digits(d, 16)) by {
        assert forall|i: int| 0 <= i < d.len() implies (#[trigger] digit_of(d[i], 16)) is Some by {
            assert(is_hex_char(d[i]));
        }
    }
}

/// A size line of one hexadecimal digit names a chunk of that digit's value.
pub proof fn lemma_chunk_size_digit(c: char)
    requires
        is_hex_char(c),
    ensures
        chunk_size(encode_utf8(seq![c])) == Ok::<nat, HttpError>(hex_value(c)),
{
    let d = seq![c];
    lemma_chunk_size_hex(d);
    assert(d.drop_last() =~= Seq::<char>::empty());
    assert(d.last() == c);
    assert(digits_value(Seq::<char>::empty(), 16) == 0);
    assert(digit_of(c, 16) == Some(hex_value(c)));
    assert(digits_value(d, 16) == 0 * 16 + hex_value(c));
}

/// Size lines are read in base 16: one more hexadecimal digit at the end multiplies the
/// size by sixteen and adds the digit's value (while the size fits in `usize`).
pub proof fn lemma_chunk_size_next_digit(d: Seq<char>, c: char, v: nat)
    requires
        d.len() >= 1,
        forall|i: int| 0 <= i < d.len() ==> is_hex_char(#[trigger] d[i]),
        is_hex_char(c),
        chunk_size(encode_utf8(d)) == Ok::<nat, HttpError>(v),
        16 * v + hex_value(c) <= usize::MAX,
    ensures
        chunk_size(encode_utf8(d.push(c))) == Ok::<nat, HttpError>(16 * v + hex_value(c)),
{
    let e = d.push(c);
    lemma_chunk_size_hex(d);
    assert(digits_value(d, 16) == v);
    assert(forall|i: int| 0 <= i < e.len() ==> is_hex_char(#[trigger] e[i])) by {
        assert forall|i: int| 0 <= i < e.len() implies is_hex_char(#[trigger] e[i]) by {
            if i < d.len() {
                assert(e[i] == d[i]);
            }
        }
    }
    lemma_chunk_size_hex(e);
    assert(e.drop_last() =~= d);
    assert(digit_of(c, 16) == Some(hex_value(c)));
    assert(digits_value(e, 16) == v * 16 + hex_value(c));
}

/// Spaces around the digits of a size line are not part of the size.
pub proof fn lemma_chunk_size_spaces(d: Seq<char>)
    requires
        d.len() >= 1,
        forall|i: int| 0 <= i < d.len() ==> is_hex_char(#[trigger] d[i]),
    ensures
        chunk_size(encode_utf8(seq![' '] + d + seq![' '])) == chunk_size(encode_utf8(d)),
{
    let s = seq![' '] + d + seq![' '];
    encode_utf8_valid_utf8(s);
    encode_utf8_decode_utf8(s);
    encode_utf8_valid_utf8(d);
    encode_utf8_decode_utf8(d);
    assert(is_white_space(s[0]));
    assert(s.drop_first() =~= d + seq![' ']);
    assert((d + seq![' '])[0] == d[0]);
    assert(!is_white_space(d[0]));
    assert(trim_start(d + seq![' ']) == d + seq![' ']);
    assert(trim_start(s) == d + seq![' ']);
    assert((d + seq![' ']).last() == ' ');
    assert((d + seq![' ']).drop_last() =~= d);
    assert(!is_white_space(d.last()));
    assert(trim_end(d) == d);
    assert(trim_end(d + seq![' ']) == d);
    assert(trim(s) == d);
    assert(trim_start(d) == d);
    assert(trim(d) == d);
}

/// A `;` extension after the digits of a size line is not part of the size.
pub proof fn lemma_chunk_size_extension(d: Seq<char>, ext: Seq<char>)
    requires
        d.len() >= 1,
        forall|i: int| 0 <= i < d.len() ==> is_hex_char(#[trigger] d[i]),
        forall|i: int| 0 <= i < ext.len() ==> !is_white_space(#[trigger] ext[i]),
    ensures
        chunk_size(encode_utf8(d + ";"@ + ext)) == chunk_size(encode_utf8(d)),
{
    reveal_strlit(";");
    let s = d + ";"@ + ext;
    encode_utf8_valid_utf8(s);
    encode_utf8_decode_utf8(s);
    encode_utf8_valid_utf8(d);
    encode_utf8_decode_utf8(d);
    assert(s[0] == d[0]);
    assert(!is_white_space(d[0]));
    assert(trim_start(s) == s);
    if ext.len() > 0 {
        assert(s.last() == ext.last());
    } else {
        assert(s.last() == ';');
    }
    assert(trim_end(s) == s);
    assert(trim(s) == s);
    let n = d.len() as int;
    assert forall|k: int| 0 <= k < n implies !occurs_at(s, ";"@, k) by {
        assert(s.subrange(k, k + 1)[0] == s[k]);
        assert(s[k] == d[k]);
    }
    assert(occurs_at(s, ";"@, n)) by {
        assert(s.subrange(n, n + 1) =~= ";"@);
    }
    lemma_find_skip(s, ";"@, n);
    lemma_find_at(s, ";"@, n);
    assert(find(s, ";"@) == Some(n));
    assert(s.take(n) =~= d);
    assert(before_first(s, ";"@) == d);
    assert(trim_start(d) == d);
    assert(trim_end(d) == d);
    lemma_find_occurs(d, ";"@);
    if let Some(i) = find(d, ";"@) {
        assert(d.subrange(i, i + 1)[0] == d[i]);
        assert(false);
    }
    assert(before_first(d, ";"@) == d);
}

/// Decodes a chunked body: size line, CRLF, that many bytes, two bytes of CRLF, and so on
/// until a chunk of size zero. The data after the last chunk is not looked at.
pub open spec fn dechunk(data: Seq<u8>) -> Dechunk
    decreases data.len(),
{
    match find(data, crlf_bytes()) {
        None => Dechunk::NeedSizeLine,
        Some(i) => if 0 <= i && i + 2 <= data.len() {
            match chunk_size(data.take(i)) {
                Err(e) => Dechunk::Bad(e),
                Ok(size) => {
                    let rest = data.skip(i + 2);
                    if size == 0 {
                        Dechunk::Done(Seq::empty())
                    } else if rest.len() < size + 2 {
                        Dechunk::NeedData
                    } else {
                        match dechunk(rest.skip(size + 2int)) {
                            Dechunk::Done(o) => Dechunk::Done(rest.take(size as int) + o),
                            other => other,
                        }
                    }
                },
            }
        } else {
            Dechunk::NeedSizeLine
        },
    }
}

pub open spec fn prepend(prefix: Seq<u8>, d: Dechunk) -> Dechunk {
    match d {
        Dechunk::Done(o) => Dechunk::Done(prefix + o),
        other => other,
    }
}

enum Dechunked {
    Done(Vec<u8>),
    NeedSizeLine,
    NeedData,
    Bad(HttpError),
}

impl View for Dechunked {
    type V = Dechunk;

    closed spec fn view(&self) -> Dechunk {
        match self {
            Dechunked::Done(v) => Dechunk::Done(v@),
            Dechunked::NeedSizeLine => Dechunk::NeedSizeLine,
            Dechunked::NeedData => Dechunk::NeedData,
            Dechunked::Bad(e) => Dechunk::Bad(*e),
        }
    }
}

fn chunk_size_exec(line: &[u8]) -> (r: Result<u64, HttpError>)
    ensures
        r matches Ok(v) ==> chunk_size(line@) == Ok::<nat, HttpError>(v as nat) && v
            <= usize::MAX,
        r matches Err(e) ==> chunk_size(line@) == Err::<nat, HttpError>(e),
{
    match utf8_chars(line) {
        None => Err(HttpError::ChunkSizeNotUtf8),
        Some(chars) => {
            let t = trim_chars(chars.as_slice());
            let semi = chars_of(";");
            let field = before_first_chars(t.as_slice(), semi.as_slice());
            match parse_unsigned_exec(field.as_slice(), 16, usize::MAX as u64) {
                Some(v) => Ok(v),
                None => Err(HttpError::InvalidChunkSize),
            }
        },
    }
}

fn append_bytes(out: &mut Vec<u8>, piece: &[u8])
    ensures
        final(out)@ == old(out)@ + piece@,
{
    let mut j: usize = 0;
    let ghost out0 = out@;
    while j < piece.len()
        invariant
            j <= piece@.len(),
            out@ == out0 + piece@.take(j as int),
        decreases piece@.len() - j,
    {
        out.push(piece[j]);
        j += 1;
    }
    assert(piece@.take(piece@.len() as int) =~= piece@);
}

#[verifier::rlimit(40)]
fn dechunk_exec(data: &[u8]) -> (r: Dechunked)
    ensures
        r@ == dechunk(data@),
{
    let crlf: [u8; 2] = [13u8, 10u8];
    assert(crlf@ =~= crlf_bytes());
    let mut out: Vec<u8> = Vec::new();
    let mut pos: usize = 0;
    assert(data@.skip(0) =~= data@);
    assert(prepend(out@, dechunk(data@)) == dechunk(data@)) by {
        match dechunk(data@) {
            Dechunk::Done(o) => {
                assert(out@ + o =~= o);
            },
            _ => {},
        }
    }
    loop
        invariant
            pos <= data@.len(),
            crlf@ == crlf_bytes(),
            dechunk(data@) == prepend(out@, dechunk(data@.skip(pos as int))),
        decreases data@.len() - pos,
    {
        let ghost t = data@.skip(pos as int);
        match find_bytes_from(data, pos, &crlf) {
            None => {
                assert(dechunk(t) == Dechunk::NeedSizeLine);
                return Dechunked::NeedSizeLine;
            },
            Some(k) => {
                assert(data@.len() == data.len());
                let line = sub_bytes(data, pos, pos + k);
                assert(line@ =~= t.take(k as int));
                match chunk_size_exec(line.as_slice()) {
                    Err(e) => {
                        assert(dechunk(t) == Dechunk::Bad(e));
                        return Dechunked::Bad(e);
                    },
                    Ok(size) => {
                        let ghost rest = t.skip(k + 2);
                        let start = pos + k + 2;
                        assert(rest =~= data@.skip(start as int));
                        if size == 0 {
                            assert(dechunk(t) == Dechunk::Done(Seq::<u8>::empty()));
                            assert(out@ + Seq::<u8>::empty() =~= out@);
                            return Dechunked::Done(out);
                        }
                        let avail = data.len() - start;
                        if (avail as u64) < size || avail - (size as usize) < 2 {
                            assert(rest.len() < size + 2);
                            assert(dechunk(t) == Dechunk::NeedData);
                            return Dechunked::NeedData;
                        }
                        let sz = size as usize;
                        let piece = sub_bytes(data, start, start + sz);
                        let next = start + sz + 2;
                        proof {
                            assert(piece@ =~= rest.take(size as int));
                            assert(rest.skip(size + 2int) =~= data@.skip(next as int));
                            let d = dechunk(data@.skip(next as int));
                            assert(dechunk(t) == prepend(piece@, d));
                            match d {
                                Dechunk::Done(o) => {
                                    assert(out@ + (piece@ + o) =~= (out@ + piece@) + o);
                                },
                                _ => {},
                            }
                        }
                        append_bytes(&mut out, piece.as_slice());
                        pos = next;
                    },
                }
            },
        }
    }
}

// ------------------------------------------------------------------ whole response
/// What is known about a response from the bytes received so far.
pub enum ResponseState {
    NeedMore,
    Complete(u16, Seq<u8>),
    Failed(HttpError),
}

/// The body, once the head is known. With a content length the body is that many bytes,
/// or what arrived before the end of the stream; a chunked body is decoded; otherwise the
/// body runs to the end of the stream.
pub open spec fn body_state(head: ResponseHead, rest: Seq<u8>, eof: bool) -> ResponseState {
    match head.content_length {
        Some(len) => if rest.len() >= len {
            ResponseState::Complete(head.status, rest.take(len as int))
        } else if eof {
            ResponseState::Complete(head.status, rest)
        } else {
            ResponseState::NeedMore
        },
        None => if head.chunked {
            match dechunk(rest) {
                Dechunk::Done(o) => ResponseState::Complete(head.status, o),
                Dechunk::Bad(e) => ResponseState::Failed(e),
                Dechunk::NeedSizeLine => if eof {
                    ResponseState::Failed(HttpError::UnexpectedEofInChunkedBody)
                } else {
                    ResponseState::NeedMore
                },
                Dechunk::NeedData => if eof {
                    ResponseState::Failed(HttpError::UnexpectedEofInChunkData)
                } else {
                    ResponseState::NeedMore
                },
            }
        } else if eof {
            ResponseState::Complete(head.status, rest)
        } else {
            ResponseState::NeedMore
        },
    }
}

/// The state of a response whose first `buf.len()` bytes have arrived; `eof` says that no
/// more will come.
pub open spec fn response_state(buf: Seq<u8>, eof: bool) -> ResponseState {
    match header_end(buf) {
        None => if buf.len() > MAX_HEADER_BYTES {
            ResponseState::Failed(HttpError::HeadersTooLarge)
        } else if eof {
            ResponseState::Failed(HttpError::UnexpectedEofInHeaders)
        } else {
            ResponseState::NeedMore
        },
        Some(e) => if !valid_utf8(buf.take(e)) {
            ResponseState::Failed(HttpError::HeadersNotUtf8)
        } else {
            match parse_head(decode_utf8(buf.take(e))) {
                Err(err) => ResponseState::Failed(err),
                Ok(head) => body_state(head, buf.skip(e), eof),
            }
        },
    }
}

/// A response read so far.
pub enum ResponseProgress {
    NeedMore,
    Complete { status: u16, body: Vec<u8> },
    Failed(HttpError),
}

impl View for ResponseProgress {
    type V = ResponseState;

    open spec fn view(&self) -> ResponseState {
        match self {
            ResponseProgress::NeedMore => ResponseState::NeedMore,
            ResponseProgress::Complete { status, body } => ResponseState::Complete(
                *status,
                body@,
            ),
            ResponseProgress::Failed(e) => ResponseState::Failed(*e),
        }
    }
}

/// Reads the response in `buf`; see `response_state`. At the end of the stream the
/// answer is never `NeedMore`.
pub fn parse_response(buf: &[u8], eof: bool) -> (r: ResponseProgress)
    ensures
        r@ == response_state(buf@, eof),
        eof ==> !(r is NeedMore),
{
    let end = match find_header_end(buf) {
        None => {
            if buf.len() > MAX_HEADER_BYTES {
                return ResponseProgress::Failed(HttpError::HeadersTooLarge);
            } else if eof {
                return ResponseProgress::Failed(HttpError::UnexpectedEofInHeaders);
            } else {
                return ResponseProgress::NeedMore;
            }
        },
        Some(e) => e,
    };
    let head_bytes = sub_bytes(buf, 0, end);
    assert(head_bytes@ =~= buf@.take(end as int));
    let text = match utf8_chars(head_bytes.as_slice()) {
        None => return ResponseProgress::Failed(HttpError::HeadersNotUtf8),
        Some(t) => t,
    };
    let head = match parse_head_exec(text.as_slice()) {
        Err(e) => return ResponseProgress::Failed(e),
        Ok(h) => h,
    };
    let rest = sub_bytes(buf, end, buf.len());
    assert(rest@ =~= buf@.skip(end as int));
    match head.content_length {
        Some(len) => {
            if rest.len() >= len {
                let body = sub_bytes(rest.as_slice(), 0, len);
                assert(body@ =~= rest@.take(len as int));
                ResponseProgress::Complete { status: head.status, body }
            } else if eof {
                ResponseProgress::Complete { status: head.status, body: rest }
            } else {
                ResponseProgress::NeedMore
            }
        },
        None => {
            if head.chunked {
                match dechunk_exec(rest.as_slice()) {
                    Dechunked::Done(o) => ResponseProgress::Complete { status: head.status, body: o },
                    Dechunked::Bad(e) => ResponseProgress::Failed(e),
                    Dechunked::NeedSizeLine => if eof {
                        ResponseProgress::Failed(HttpError::UnexpectedEofInChunkedBody)
                    } else {
                        ResponseProgress::NeedMore
                    },
                    Dechunked::NeedData => if eof {
                        ResponseProgress::Failed(HttpError::UnexpectedEofInChunkData)
                    } else {
                        ResponseProgress::NeedMore
                    },
                }
            } else if eof {
                ResponseProgress::Complete { status: head.status, body: rest }
            } else {
                ResponseProgress::NeedMore
            }
        },
    }
}

} // verus!

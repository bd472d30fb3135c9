//! Turning the raw output of `git-http-backend` (CGI header lines, a blank
//! line, then the body) into a structured HTTP reply.
use vstd::prelude::*;

use crate::error::ServerError;

verus! {

/// One header of a reply: its name and its value, as bytes.
pub type HeaderField = (Vec<u8>, Vec<u8>);

/// A reply rebuilt from CGI output.
#[derive(Debug, Clone)]
pub struct GitHttpResponse {
    pub status: u16,
    pub headers: Vec<HeaderField>,
    pub body: Vec<u8>,
}

pub open spec fn field_view(f: HeaderField) -> (Seq<u8>, Seq<u8>) {
    (f.0@, f.1@)
}

pub open spec fn headers_view(hs: Seq<HeaderField>) -> Seq<(Seq<u8>, Seq<u8>)> {
    hs.map_values(|f: HeaderField| field_view(f))
}

/// First index at or after `k` where the byte `a` is followed by the byte `b`.
pub open spec fn pair_from(s: Seq<u8>, k: int, a: u8, b: u8) -> Option<int>
    decreases s.len() - k,
{
    if k < 0 || k + 1 >= s.len() {
        None
    } else if s[k] == a && s[k + 1] == b {
        Some(k)
    } else {
        pair_from(s, k + 1, a, b)
    }
}

/// First index at or after `k` that holds the byte `c`.
pub open spec fn byte_from(s: Seq<u8>, k: int, c: u8) -> Option<int>
    decreases s.len() - k,
{
    if k < 0 || k >= s.len() {
        None
    } else if s[k] == c {
        Some(k)
    } else {
        byte_from(s, k + 1, c)
    }
}

/// Whether `"\r\n\r\n"` starts at index `i`.
pub open spec fn blank_line_at(s: Seq<u8>, i: int) -> bool {
    0 <= i && i + 3 < s.len() && s[i] == 13 && s[i + 1] == 10 && s[i + 2] == 13 && s[i + 3] == 10
}

/// First index at or after `k` where `"\r\n\r\n"` starts.
pub open spec fn blank_from(s: Seq<u8>, k: int) -> Option<int>
    decreases s.len() - k,
{
    if k < 0 || k + 3 >= s.len() {
        None
    } else if blank_line_at(s, k) {
        Some(k)
    } else {
        blank_from(s, k + 1)
    }
}

/// Where the header region of CGI output ends: the first `"\r\n\r\n"`.
pub open spec fn header_end(s: Seq<u8>) -> Option<int> {
    blank_from(s, 0)
}

pub open spec fn opt_int(o: Option<usize>) -> Option<int> {
    match o {
        Some(i) => Some(i as int),
        None => None,
    }
}

/// The bytes of the header name `Status`.
pub open spec fn status_name() -> Seq<u8> {
    seq![83u8, 116u8, 97u8, 116u8, 117u8, 115u8]
}

pub open spec fn is_digit(b: u8) -> bool {
    48 <= b <= 57
}

/// The status code that three ASCII digits spell, the first of them not zero.
pub open spec fn status_code_spec(t: Seq<u8>) -> Option<u16> {
    if t.len() == 3 && 49 <= t[0] <= 57 && is_digit(t[1]) && is_digit(t[2]) {
        Some(((t[0] - 48) * 100 + (t[1] - 48) * 10 + (t[2] - 48)) as u16)
    } else {
        None
    }
}

/// A header value holds only visible bytes, spaces and tabs.
pub open spec fn header_value_ok(v: Seq<u8>) -> bool {
    forall|i: int| 0 <= i < v.len() ==> ((v[i] >= 32 && v[i] != 127) || v[i] == 9)
}

/// A token character of HTTP: a visible ASCII byte other than a separator.
pub open spec fn is_token_byte(b: u8) -> bool {
    b == 33 || (35 <= b <= 39) || b == 42 || b == 43 || b == 45 || b == 46 || (48 <= b <= 57) || (65 <= b
        <= 90) || (94 <= b <= 122) || b == 124 || b == 126
}

/// A header name that HTTP accepts: 1 to 65535 token characters.
pub open spec fn header_name_valid(name: Seq<u8>) -> bool {
    &&& 1 <= name.len() <= 65535
    &&& forall|i: int| 0 <= i < name.len() ==> is_token_byte(#[trigger] name[i])
}

/// The part of a `Status` value before its first space.
pub open spec fn status_token(value: Seq<u8>) -> Seq<u8> {
    match byte_from(value, 0, 32) {
        Some(j) => value.subrange(0, j),
        None => value,
    }
}

/// What one header line does to the status and headers gathered so far;
/// `None` where the line is refused.
pub open spec fn apply_line(line: Seq<u8>, status: u16, hs: Seq<(Seq<u8>, Seq<u8>)>) -> Option<
    (u16, Seq<(Seq<u8>, Seq<u8>)>),
> {
    match pair_from(line, 0, 58, 32) {
        None => Some((status, hs)),
        Some(c) => {
            let name = line.subrange(0, c);
            let value = line.subrange(c + 2, line.len() as int);
            if name == status_name() {
                match status_code_spec(status_token(value)) {
                    Some(code) => Some((code, hs)),
                    None => None,
                }
            } else if header_name_valid(name) && header_value_ok(value) {
                Some((status, hs.push((name, value))))
            } else {
                None
            }
        }
    }
}

/// The lines of `h` from index `k` on, separated by `"\r\n"`, applied in order.
pub open spec fn lines_from(h: Seq<u8>, k: int, status: u16, hs: Seq<(Seq<u8>, Seq<u8>)>) -> Option<
    (u16, Seq<(Seq<u8>, Seq<u8>)>),
>
    decreases h.len() + 1 - k,
    via lines_from_decreases
{
    if k < 0 || k > h.len() {
        None
    } else {
        let end = match pair_from(h, k, 13, 10) {
            Some(j) => j,
            None => h.len() as int,
        };
        match apply_line(h.subrange(k, end), status, hs) {
            None => None,
            Some(next) => match pair_from(h, k, 13, 10) {
                None => Some(next),
                Some(j) => lines_from(h, j + 2, next.0, next.1),
            },
        }
    }
}

#[via_fn]
proof fn lines_from_decreases(h: Seq<u8>, k: int, status: u16, hs: Seq<(Seq<u8>, Seq<u8>)>) {
    lemma_pair_from_bounds(h, k, 13, 10);
}

/// Status, index of the body and headers of CGI output, or `None` where it
/// has no blank line or a header line is refused. Without a `Status` line
/// the status is 200.
pub open spec fn parse_spec(s: Seq<u8>) -> Option<(u16, int, Seq<(Seq<u8>, Seq<u8>)>)> {
    match header_end(s) {
        None => None,
        Some(e) => match lines_from(s.subrange(0, e), 0, 200, seq![]) {
            None => None,
            Some(r) => Some((r.0, e + 4, r.1)),
        },
    }
}

/// Status, headers and body of the reply that CGI output stands for.
pub open spec fn cgi_reply(s: Seq<u8>) -> Option<(u16, Seq<(Seq<u8>, Seq<u8>)>, Seq<u8>)> {
    match parse_spec(s) {
        None => None,
        Some(p) => Some((p.0, p.2, s.subrange(p.1, s.len() as int))),
    }
}

pub proof fn lemma_pair_from_bounds(s: Seq<u8>, k: int, a: u8, b: u8)
    ensures
        match pair_from(s, k, a, b) {
            Some(j) => k <= j && j + 1 < s.len() && s[j] == a && s[j + 1] == b && forall|m: int|
                k <= m < j ==> !(#[trigger] s[m] == a && s[m + 1] == b),
            None => forall|m: int| 0 <= k <= m && m + 1 < s.len() ==> !(#[trigger] s[m] == a && s[m + 1] == b),
        },
    decreases s.len() - k,
{
    if k < 0 || k + 1 >= s.len() {
    } else if s[k] == a && s[k + 1] == b {
    } else {
        lemma_pair_from_bounds(s, k + 1, a, b);
    }
}

pub proof fn lemma_byte_from_bounds(s: Seq<u8>, k: int, c: u8)
    ensures
        match byte_from(s, k, c) {
            Some(j) => 0 <= k <= j < s.len() && s[j] == c && forall|m: int| k <= m < j ==> #[trigger] s[m] != c,
            None => forall|m: int| 0 <= k <= m < s.len() ==> #[trigger] s[m] != c,
        },
    decreases s.len() - k,
{
    if k < 0 || k >= s.len() {
    } else if s[k] == c {
    } else {
        lemma_byte_from_bounds(s, k + 1, c);
    }
}

pub proof fn lemma_blank_from_bounds(s: Seq<u8>, k: int)
    ensures
        match blank_from(s, k) {
            Some(j) => k <= j && blank_line_at(s, j) && forall|m: int| k <= m < j ==> !#[trigger] blank_line_at(s, m),
            None => forall|m: int| 0 <= k <= m ==> !#[trigger] blank_line_at(s, m),
        },
    decreases s.len() - k,
{
    if k < 0 || k + 3 >= s.len() {
    } else if blank_line_at(s, k) {
    } else {
        lemma_blank_from_bounds(s, k + 1);
    }
}

fn find_pair(s: &[u8], from: usize, a: u8, b: u8) -> (r: Option<usize>)
    requires
        from <= s@.len(),
    ensures
        opt_int(r) == pair_from(s@, from as int, a, b),
{
    let mut i = from;
    while i < s.len() && i + 1 < s.len()
        invariant
            from <= i <= s@.len(),
            pair_from(s@, from as int, a, b) == pair_from(s@, i as int, a, b),
        decreases s@.len() - i,
    {
        if s[i] == a && s[i + 1] == b {
            return Some(i);
        }
        i = i + 1;
    }
    None
}

fn find_byte(s: &[u8], c: u8) -> (r: Option<usize>)
    ensures
        opt_int(r) == byte_from(s@, 0, c),
{
    let mut i: usize = 0;
    while i < s.len()
        invariant
            i <= s@.len(),
            byte_from(s@, 0, c) == byte_from(s@, i as int, c),
        decreases s@.len() - i,
    {
        if s[i] == c {
            return Some(i);
        }
        i = i + 1;
    }
    None
}

fn copy_range(s: &[u8], lo: usize, hi: usize) -> (r: Vec<u8>)
    requires
        lo <= hi <= s@.len(),
    ensures
        r@ == s@.subrange(lo as int, hi as int),
{
    let mut r: Vec<u8> = Vec::new();
    let mut i = lo;
    while i < hi
        invariant
            lo <= i <= hi <= s@.len(),
            r@ == s@.subrange(lo as int, i as int),
        decreases hi - i,
    {
        r.push(s[i]);
        i = i + 1;
        assert(r@ =~= s@.subrange(lo as int, i as int));
    }
    r
}

/// Index at which the first `"\r\n\r\n"` of CGI output starts, where there is one.
pub fn header_end_index(output: &[u8]) -> (r: Option<usize>)
    ensures
        opt_int(r) == header_end(output@),
        match r {
            Some(i) => blank_line_at(output@, i as int) && forall|m: int|
                0 <= m < i ==> !#[trigger] blank_line_at(output@, m),
            None => forall|m: int| 0 <= m ==> !#[trigger] blank_line_at(output@, m),
        },
{
    proof {
        lemma_blank_from_bounds(output@, 0);
    }
    let mut i: usize = 0;
    while i < output.len() && output.len() - i > 3
        invariant
            i <= output@.len(),
            blank_from(output@, 0) == blank_from(output@, i as int),
        decreases output@.len() - i,
    {
        if output[i] == 13 && output[i + 1] == 10 && output[i + 2] == 13 && output[i + 3] == 10 {
            assert(blank_line_at(output@, i as int));
            assert(blank_from(output@, 0) == Some(i as int));
            proof {
                lemma_blank_from_bounds(output@, 0);
            }
            assert(forall|m: int| 0 <= m < i ==> !#[trigger] blank_line_at(output@, m));
            return Some(i);
        }
        i = i + 1;
    }
    None
}

/// Relies on http::StatusCode::from_bytes: it accepts exactly three ASCII
/// digits whose first is not zero, and reads them as a decimal number.
#[verifier::external_body]
fn status_code_from_bytes(b: &[u8]) -> (r: Option<u16>)
    ensures
        r == status_code_spec(b@),
{
    match axum::http::StatusCode::from_bytes(b) {
        Ok(code) => Some(code.as_u16()),
        Err(_) => None,
    }
}

/// Relies on http::HeaderName::from_bytes: it accepts a name exactly when
/// it has 1 to 65535 bytes, each a token character.
#[verifier::external_body]
fn is_valid_header_name(b: &[u8]) -> (r: bool)
    ensures
        r == header_name_valid(b@),
{
    axum::http::HeaderName::from_bytes(b).is_ok()
}

/// Relies on http::HeaderValue::from_bytes: it accepts a value exactly when
/// every byte is a tab, or at least 32 and not 127.
#[verifier::external_body]
fn is_valid_header_value(b: &[u8]) -> (r: bool)
    ensures
        r == header_value_ok(b@),
{
    axum::http::HeaderValue::from_bytes(b).is_ok()
}

fn is_status_name(name: &[u8]) -> (r: bool)
    ensures
        r == (name@ == status_name()),
{
    let ok = name.len() == 6 && name[0] == 83 && name[1] == 116 && name[2] == 97 && name[3] == 116
        && name[4] == 117 && name[5] == 115;
    proof {
        if ok {
            assert(name@ =~= status_name());
        }
    }
    ok
}

/// Applies one header line to the status and headers gathered so far;
/// returns `false` where the line is refused.
fn apply_header_line(line: &[u8], status: &mut u16, headers: &mut Vec<HeaderField>) -> (ok: bool)
    ensures
        match apply_line(line@, *old(status), headers_view(old(headers)@)) {
            None => !ok,
            Some(next) => ok && *final(status) == next.0 && headers_view(final(headers)@) == next.1,
        },
{
    proof {
        lemma_pair_from_bounds(line@, 0, 58, 32);
    }
    let found = find_pair(line, 0, 58, 32);
    let c = match found {
        None => return true,
        Some(c) => c,
    };
    assert(pair_from(line@, 0, 58, 32) == Some(c as int));
    proof {
        lemma_pair_from_bounds(line@, 0, 58, 32);
    }
    let n = line.len();
    assert(c + 1 < n);
    let name = copy_range(line, 0, c);
    let value = copy_range(line, c + 2, n);
    if is_status_name(name.as_slice()) {
        let token = match find_byte(value.as_slice(), 32) {
            Some(j) => {
                proof {
                    lemma_byte_from_bounds(value@, 0, 32);
                }
                copy_range(value.as_slice(), 0, j)
            },
            None => {
                let mut t = Vec::new();
                t.extend_from_slice(value.as_slice());
                t
            },
        };
        assert(token@ == status_token(value@));
        match status_code_from_bytes(token.as_slice()) {
            Some(code) => {
                *status = code;
                true
            },
            None => false,
        }
    } else if is_valid_header_name(name.as_slice()) && is_valid_header_value(value.as_slice()) {
        let ghost before = headers@;
        let ghost field = (name, value);
        headers.push((name, value));
        proof {
            assert(headers_view(headers@) =~= headers_view(before).push(field_view(field)));
        }
        true
    } else {
        false
    }
}

/// Status, index of the body and headers of CGI output.
pub fn parse_headers(output: &[u8]) -> (r: Result<(u16, usize, Vec<HeaderField>), ServerError>)
    ensures
        match r {
            Ok(p) => parse_spec(output@) == Some((p.0, p.1 as int, headers_view(p.2@))) && p.1
                <= output@.len(),
            Err(e) => parse_spec(output@) is None && e == ServerError::FailedParseGitResponse,
        },
{
    let end = match header_end_index(output) {
        Some(e) => e,
        None => return Err(ServerError::FailedParseGitResponse),
    };
    let n = output.len();
    assert(blank_line_at(output@, end as int));
    assert(end + 3 < n);
    let h = copy_range(output, 0, end);
    let ghost hv = h@;
    let mut status: u16 = 200;
    let mut headers: Vec<HeaderField> = Vec::new();
    let mut k: usize = 0;
    assert(headers_view(headers@) =~= seq![]);
    loop
        invariant
            k <= h@.len(),
            h@ == hv,
            hv == output@.subrange(0, end as int),
            end + 3 < n,
            n == output@.len(),
            header_end(output@) == Some(end as int),
            lines_from(hv, 0, 200, seq![]) == lines_from(hv, k as int, status, headers_view(headers@)),
        decreases h@.len() + 1 - k,
    {
        proof {
            lemma_pair_from_bounds(hv, k as int, 13, 10);
        }
        let next = find_pair(h.as_slice(), k, 13, 10);
        let line_end = match next {
            Some(j) => j,
            None => h.len(),
        };
        let line = copy_range(h.as_slice(), k, line_end);
        let ghost st0 = status;
        let ghost hs0 = headers_view(headers@);
        assert(lines_from(hv, k as int, st0, hs0) == match apply_line(line@, st0, hs0) {
            None => None,
            Some(n) => match pair_from(hv, k as int, 13, 10) {
                None => Some(n),
                Some(j) => lines_from(hv, j + 2, n.0, n.1),
            },
        });
        if !apply_header_line(line.as_slice(), &mut status, &mut headers) {
            assert(lines_from(hv, 0, 200, seq![]) is None);
            return Err(ServerError::FailedParseGitResponse);
        }
        match next {
            None => {
                return Ok((status, end + 4, headers));
            },
            Some(j) => {
                k = j + 2;
            },
        }
    }
}

/// The reply that CGI output stands for: its `Status` line gives the status
/// (200 without one), every other well-formed line a header, in order, and
/// what follows the first blank line the body.
pub fn convert_to_response(output: &[u8]) -> (r: Result<GitHttpResponse, ServerError>)
    ensures
        match r {
            Ok(resp) => cgi_reply(output@) == Some((resp.status, headers_view(resp.headers@), resp.body@)),
            Err(e) => cgi_reply(output@) is None && e == ServerError::FailedParseGitResponse,
        },
{
    let (status, body_index, headers) = match parse_headers(output) {
        Ok(p) => p,
        Err(e) => return Err(e),
    };
    let body = copy_range(output, body_index, output.len());
    Ok(GitHttpResponse { status, headers, body })
}

/// The bytes `"Status: "`.
pub open spec fn status_prefix() -> Seq<u8> {
    status_name() + seq![58u8, 32u8]
}

/// The bytes `"\r\n\r\n"`.
pub open spec fn blank_line() -> Seq<u8> {
    seq![13u8, 10u8, 13u8, 10u8]
}

/// The bytes `"\r\n"`.
pub open spec fn crlf() -> Seq<u8> {
    seq![13u8, 10u8]
}

pub open spec fn opt_shift(o: Option<int>, d: int) -> Option<int> {
    match o {
        Some(i) => Some(i + d),
        None => None,
    }
}

proof fn lemma_pair_from_shift(a: Seq<u8>, b: Seq<u8>, k: int, x: u8, y: u8)
    requires
        0 <= k,
    ensures
        pair_from(a + b, a.len() + k, x, y) == opt_shift(pair_from(b, k, x, y), a.len() as int),
    decreases b.len() - k,
{
    let s = a + b;
    if k + 1 < b.len() {
        assert(s[a.len() + k] == b[k]);
        assert(s[a.len() + k + 1] == b[k + 1]);
        if !(b[k] == x && b[k + 1] == y) {
            lemma_pair_from_shift(a, b, k + 1, x, y);
            assert(a.len() + (k + 1) == a.len() + k + 1);
        }
    }
}

proof fn lemma_lines_from_shift(a: Seq<u8>, b: Seq<u8>, k: int, st: u16, hs: Seq<(Seq<u8>, Seq<u8>)>)
    requires
        0 <= k <= b.len(),
    ensures
        lines_from(a + b, a.len() + k, st, hs) == lines_from(b, k, st, hs),
    decreases b.len() + 1 - k,
{
    let s = a + b;
    lemma_pair_from_shift(a, b, k, 13, 10);
    lemma_pair_from_bounds(b, k, 13, 10);
    let end_b = match pair_from(b, k, 13, 10) {
        Some(j) => j,
        None => b.len() as int,
    };
    assert(s.subrange(a.len() + k, a.len() + end_b) =~= b.subrange(k, end_b));
    match apply_line(b.subrange(k, end_b), st, hs) {
        None => {},
        Some(next) => match pair_from(b, k, 13, 10) {
            None => {},
            Some(j) => {
                lemma_lines_from_shift(a, b, j + 2, next.0, next.1);
                assert(a.len() + (j + 2) == a.len() + j + 2);
            },
        },
    }
}

/// The bytes of a status line `Status: NNN` followed by `reason`.
pub open spec fn status_line(code: Seq<u8>, reason: Seq<u8>) -> Seq<u8> {
    status_prefix() + code + reason
}

/// A well-formed status line: a valid code, then nothing or a space and a
/// reason phrase without carriage returns.
pub open spec fn status_line_ok(code: Seq<u8>, reason: Seq<u8>) -> bool {
    &&& status_code_spec(code) is Some
    &&& reason.len() == 0 || reason[0] == 32
    &&& forall|i: int| 0 <= i < reason.len() ==> #[trigger] reason[i] != 13
}

proof fn lemma_status_line_plain(code: Seq<u8>, reason: Seq<u8>)
    requires
        status_line_ok(code, reason),
    ensures
        forall|i: int| 0 <= i < status_line(code, reason).len() ==> #[trigger] status_line(code, reason)[i] != 13,
{
    let p = status_line(code, reason);
    assert forall|i: int| 0 <= i < p.len() implies #[trigger] p[i] != 13 by {
        if i < 8 {
            assert(p[i] == status_prefix()[i]);
        } else if i < 11 {
            assert(p[i] == code[i - 8]);
        } else {
            assert(p[i] == reason[i - 11]);
        }
    }
}

proof fn lemma_status_line_applies(code: Seq<u8>, reason: Seq<u8>, st: u16, hs: Seq<(Seq<u8>, Seq<u8>)>)
    requires
        status_line_ok(code, reason),
    ensures
        apply_line(status_line(code, reason), st, hs) == Some((status_code_spec(code)->Some_0, hs)),
{
    let p = status_line(code, reason);
    lemma_pair_from_bounds(p, 0, 58, 32);
    assert(p[6] == 58 && p[7] == 32);
    assert(forall|m: int| 0 <= m < 6 ==> p[m] == status_name()[m]);
    assert(pair_from(p, 0, 58, 32) == Some(6int));
    assert(p.subrange(0, 6) =~= status_name());
    let value = p.subrange(8, p.len() as int);
    assert(value =~= code + reason);
    lemma_byte_from_bounds(value, 0, 32);
    if reason.len() == 0 {
        assert(forall|m: int| 0 <= m < value.len() ==> value[m] == code[m]);
        assert(status_token(value) == code);
    } else {
        assert(value[3] == 32);
        assert(forall|m: int| 0 <= m < 3 ==> value[m] == code[m]);
        assert(byte_from(value, 0, 32) == Some(3int));
        assert(status_token(value) =~= code);
    }
}

/// The bytes of a header line `name: value`.
pub open spec fn field_line(f: (Seq<u8>, Seq<u8>)) -> Seq<u8> {
    f.0 + seq![58u8, 32u8] + f.1
}

/// Each header of `hs` as a line, each led by a line break.
pub open spec fn header_lines(hs: Seq<(Seq<u8>, Seq<u8>)>) -> Seq<u8>
    decreases hs.len(),
{
    if hs.len() == 0 {
        seq![]
    } else {
        crlf() + field_line(hs[0]) + header_lines(hs.drop_first())
    }
}

/// A header that the parser keeps as it is: a valid name other than
/// `Status`, and a valid value.
pub open spec fn field_ok(f: (Seq<u8>, Seq<u8>)) -> bool {
    &&& header_name_valid(f.0)
    &&& f.0 != status_name()
    &&& header_value_ok(f.1)
}

pub open spec fn fields_ok(hs: Seq<(Seq<u8>, Seq<u8>)>) -> bool {
    forall|i: int| 0 <= i < hs.len() ==> field_ok(#[trigger] hs[i])
}

/// Every carriage return is followed by a line feed and then by a byte
/// that is no carriage return.
pub open spec fn breaks_are_single(r: Seq<u8>) -> bool {
    forall|i: int| 0 <= i < r.len() && #[trigger] r[i] == 13 ==> i + 2 < r.len() && r[i + 1] == 10 && r[i + 2] != 13
}

pub open spec fn no_cr(r: Seq<u8>) -> bool {
    forall|i: int| 0 <= i < r.len() ==> #[trigger] r[i] != 13
}

proof fn lemma_field_line_no_cr(f: (Seq<u8>, Seq<u8>))
    requires
        field_ok(f),
    ensures
        no_cr(field_line(f)),
        field_line(f).len() >= 3,
        field_line(f)[0] == f.0[0],
{
    let l = field_line(f);
    assert forall|i: int| 0 <= i < l.len() implies #[trigger] l[i] != 13 by {
        if i < f.0.len() {
            assert(l[i] == f.0[i]);
        } else if i >= f.0.len() + 2 {
            assert(l[i] == f.1[i - f.0.len() - 2]);
        }
    }
}

proof fn lemma_field_line_applies(f: (Seq<u8>, Seq<u8>), st: u16, acc: Seq<(Seq<u8>, Seq<u8>)>)
    requires
        field_ok(f),
    ensures
        apply_line(field_line(f), st, acc) == Some((st, acc.push(f))),
{
    let l = field_line(f);
    let n = f.0.len() as int;
    lemma_pair_from_bounds(l, 0, 58, 32);
    assert(l[n] == 58 && l[n + 1] == 32);
    assert(forall|m: int| 0 <= m < n ==> l[m] == f.0[m]);
    assert(pair_from(l, 0, 58, 32) == Some(n));
    assert(l.subrange(0, n) =~= f.0);
    assert(l.subrange(n + 2, l.len() as int) =~= f.1);
}

proof fn lemma_no_cr_pair_none(x: Seq<u8>)
    requires
        no_cr(x),
    ensures
        pair_from(x, 0, 13, 10) is None,
{
    lemma_pair_from_bounds(x, 0, 13, 10);
}

/// A line without carriage returns, then a line break: the first break ends the line.
proof fn lemma_first_break(l: Seq<u8>, rest: Seq<u8>)
    requires
        no_cr(l),
    ensures
        pair_from(l + crlf() + rest, 0, 13, 10) == Some(l.len() as int),
        (l + crlf() + rest).subrange(0, l.len() as int) == l,
{
    let x = l + crlf() + rest;
    lemma_pair_from_bounds(x, 0, 13, 10);
    assert(x[l.len() as int] == 13 && x[l.len() as int + 1] == 10);
    assert(forall|m: int| 0 <= m < l.len() ==> x[m] == l[m]);
    assert(x.subrange(0, l.len() as int) =~= l);
}

proof fn lemma_fields_fold(hs: Seq<(Seq<u8>, Seq<u8>)>, st: u16, acc: Seq<(Seq<u8>, Seq<u8>)>)
    requires
        hs.len() > 0,
        fields_ok(hs),
    ensures
        lines_from(field_line(hs[0]) + header_lines(hs.drop_first()), 0, st, acc) == Some((st, acc + hs)),
    decreases hs.len(),
{
    let l = field_line(hs[0]);
    let tail = hs.drop_first();
    let x = l + header_lines(tail);
    assert(field_ok(hs[0]));
    lemma_field_line_no_cr(hs[0]);
    lemma_field_line_applies(hs[0], st, acc);
    if tail.len() == 0 {
        assert(x =~= l);
        lemma_no_cr_pair_none(x);
        assert(x.subrange(0, x.len() as int) =~= x);
        assert(acc.push(hs[0]) =~= acc + hs);
    } else {
        let b = field_line(tail[0]) + header_lines(tail.drop_first());
        assert(header_lines(tail) == crlf() + field_line(tail[0]) + header_lines(tail.drop_first()));
        assert(x =~= l + crlf() + b);
        lemma_first_break(l, b);
        assert(x =~= (l + crlf()) + b);
        lemma_lines_from_shift(l + crlf(), b, 0, st, acc.push(hs[0]));
        assert(fields_ok(tail)) by {
            assert forall|i: int| 0 <= i < tail.len() implies field_ok(#[trigger] tail[i]) by {
                assert(tail[i] == hs[i + 1]);
            }
        }
        lemma_fields_fold(tail, st, acc.push(hs[0]));
        assert(acc.push(hs[0]) + tail =~= acc + hs);
        assert((l + crlf()).len() + 0 == l.len() as int + 2);
    }
}

proof fn lemma_single_breaks_concat(a: Seq<u8>, b: Seq<u8>)
    requires
        no_cr(a),
        breaks_are_single(b),
    ensures
        breaks_are_single(a + b),
{
    let x = a + b;
    assert forall|i: int| 0 <= i < x.len() && #[trigger] x[i] == 13 implies i + 2 < x.len() && x[i + 1] == 10
        && x[i + 2] != 13 by {
        if i < a.len() {
            assert(x[i] == a[i]);
        } else {
            assert(x[i] == b[i - a.len()]);
            assert(b[i - a.len()] == 13);
            assert(x[i + 1] == b[i - a.len() + 1]);
            assert(x[i + 2] == b[i - a.len() + 2]);
        }
    }
}

proof fn lemma_header_lines_breaks(hs: Seq<(Seq<u8>, Seq<u8>)>)
    requires
        fields_ok(hs),
    ensures
        breaks_are_single(header_lines(hs)),
    decreases hs.len(),
{
    if hs.len() > 0 {
        let tail = hs.drop_first();
        assert(fields_ok(tail)) by {
            assert forall|i: int| 0 <= i < tail.len() implies field_ok(#[trigger] tail[i]) by {
                assert(tail[i] == hs[i + 1]);
            }
        }
        lemma_header_lines_breaks(tail);
        assert(field_ok(hs[0]));
        lemma_field_line_no_cr(hs[0]);
        let b = field_line(hs[0]) + header_lines(tail);
        lemma_single_breaks_concat(field_line(hs[0]), header_lines(tail));
        let x = header_lines(hs);
        assert(x =~= crlf() + b);
        assert(b[0] == hs[0].0[0]);
        assert(hs[0].0[0] != 13);
        assert forall|i: int| 0 <= i < x.len() && #[trigger] x[i] == 13 implies i + 2 < x.len() && x[i + 1]
            == 10 && x[i + 2] != 13 by {
            if i >= 2 {
                assert(x[i] == b[i - 2]);
                assert(x[i + 1] == b[i - 1]);
                assert(x[i + 2] == b[i]);
            }
        }
    }
}

proof fn lemma_blank_after_single_breaks(s: Seq<u8>, r: Seq<u8>, k: int)
    requires
        0 <= k <= r.len(),
        r.len() as int + 4 <= s.len(),
        s.subrange(0, r.len() as int) == r,
        s.subrange(r.len() as int, r.len() as int + 4) == blank_line(),
        breaks_are_single(r),
    ensures
        blank_from(s, k) == Some(r.len() as int),
    decreases r.len() - k,
{
    assert(s[r.len() as int] == blank_line()[0]);
    assert(s[r.len() as int + 1] == blank_line()[1]);
    assert(s[r.len() as int + 2] == blank_line()[2]);
    assert(s[r.len() as int + 3] == blank_line()[3]);
    if k < r.len() {
        assert(s[k] == r[k]);
        if r[k] == 13 {
            assert(s[k + 2] == r[k + 2]);
        }
        lemma_blank_after_single_breaks(s, r, k + 1);
    }
}

proof fn lemma_region_reply(r: Seq<u8>, body: Seq<u8>, status: u16, hs: Seq<(Seq<u8>, Seq<u8>)>)
    requires
        breaks_are_single(r),
        lines_from(r, 0, 200, seq![]) == Some((status, hs)),
    ensures
        cgi_reply(r + blank_line() + body) == Some((status, hs, body)),
{
    let s = r + blank_line() + body;
    assert(s.subrange(0, r.len() as int) =~= r);
    assert(s.subrange(r.len() as int, r.len() as int + 4) =~= blank_line());
    lemma_blank_after_single_breaks(s, r, 0);
    assert(s.subrange(r.len() as int + 4, s.len() as int) =~= body);
}

/// CGI output made of a well-formed `Status: NNN` line, zero or more header
/// lines `name: value` (valid names other than `Status`, valid values), a
/// blank line and any body parses: it answers with status NNN, exactly those
/// headers in order, and exactly that body.
pub proof fn lemma_status_reply(
    code: Seq<u8>,
    reason: Seq<u8>,
    hs: Seq<(Seq<u8>, Seq<u8>)>,
    body: Seq<u8>,
)
    requires
        status_line_ok(code, reason),
        fields_ok(hs),
    ensures
        cgi_reply(status_line(code, reason) + header_lines(hs) + blank_line() + body) == Some(
            (status_code_spec(code)->Some_0, hs, body),
        ),
{
    let c = status_code_spec(code)->Some_0;
    let p = status_line(code, reason);
    let r = p + header_lines(hs);
    lemma_status_line_plain(code, reason);
    lemma_header_lines_breaks(hs);
    lemma_single_breaks_concat(p, header_lines(hs));
    lemma_status_line_applies(code, reason, 200, seq![]);
    if hs.len() == 0 {
        assert(r =~= p);
        lemma_no_cr_pair_none(p);
        assert(p.subrange(0, p.len() as int) =~= p);
        assert(lines_from(r, 0, 200, seq![]) == Some((c, hs)));
    } else {
        let b = field_line(hs[0]) + header_lines(hs.drop_first());
        assert(r =~= p + crlf() + b);
        lemma_first_break(p, b);
        assert(r =~= (p + crlf()) + b);
        lemma_lines_from_shift(p + crlf(), b, 0, c, seq![]);
        lemma_fields_fold(hs, c, seq![]);
        assert(seq![] + hs =~= hs);
        assert((p + crlf()).len() + 0 == p.len() + 2);
        assert(lines_from(r, 0, 200, seq![]) == Some((c, hs)));
    }
    lemma_region_reply(r, body, c, hs);
}

/// CGI output made of one or more header lines `name: value` (valid names
/// other than `Status`, valid values), a blank line and any body parses: it
/// answers with status 200, exactly those headers in order, and exactly that
/// body.
pub proof fn lemma_headers_reply(hs: Seq<(Seq<u8>, Seq<u8>)>, body: Seq<u8>)
    requires
        hs.len() > 0,
        fields_ok(hs),
    ensures
        cgi_reply(field_line(hs[0]) + header_lines(hs.drop_first()) + blank_line() + body) == Some(
            (200u16, hs, body),
        ),
{
    let r = field_line(hs[0]) + header_lines(hs.drop_first());
    assert(header_lines(hs) == crlf() + r);
    lemma_header_lines_breaks(hs);
    assert forall|i: int| 0 <= i < r.len() && #[trigger] r[i] == 13 implies i + 2 < r.len() && r[i + 1] == 10
        && r[i + 2] != 13 by {
        let x = header_lines(hs);
        assert(x =~= crlf() + r);
        assert(x[i + 2] == r[i]);
        assert(x[i + 3] == r[i + 1]);
        assert(x[i + 4] == r[i + 2]);
    }
    lemma_fields_fold(hs, 200, seq![]);
    assert(seq![] + hs =~= hs);
    lemma_region_reply(r, body, 200, hs);
}

} // verus!

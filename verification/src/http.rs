//! The HTTP/1.1 framing of the local Vite proxy: request and response heads, the
//! request sent upstream, chunked bodies, and the Vite client script rewritten to
//! talk to the proxy's public port.
use vstd::prelude::*;
use vstd::string::StringSliceAdditionalSpecFns;
use vstd::utf8::{decode_utf8, encode_utf8, valid_utf8};
use crate::text::{
    chars_of, concat2, concat3, dec, dec_string, eq_ignore_ascii_case, eq_ignore_case, find_from,
    find_seq, has_at, owned, parse_hex_usize, string_from_chars, trim, trim_seq, words,
};

verus! {

// ---------------------------------------------------------------------------
// Bytes
// ---------------------------------------------------------------------------
/// The most bytes a request head may take.
pub const MAX_HTTP_HEADER_BYTES: usize = 65536;

/// Whether `pat` occurs in `s` at `i`.
pub open spec fn bytes_at(s: Seq<u8>, pat: Seq<u8>, i: int) -> bool {
    0 <= i && i + pat.len() <= s.len() && s.subrange(i, i + pat.len()) == pat
}

/// The first occurrence of `pat` in `s` at or after `i`.
pub open spec fn find_bytes_from(s: Seq<u8>, pat: Seq<u8>, i: int) -> Option<int>
    decreases s.len() + 1 - i,
{
    if i < 0 || i + pat.len() > s.len() {
        None
    } else if bytes_at(s, pat, i) {
        Some(i)
    } else {
        find_bytes_from(s, pat, i + 1)
    }
}

/// `\r\n\r\n`, the end of an HTTP head.
pub open spec fn head_end() -> Seq<u8> {
    seq![13u8, 10u8, 13u8, 10u8]
}

/// `\r\n`.
pub open spec fn crlf_bytes() -> Seq<u8> {
    seq![13u8, 10u8]
}

proof fn lemma_find_bytes_from(s: Seq<u8>, pat: Seq<u8>, i: int)
    requires
        0 <= i,
    ensures
        find_bytes_from(s, pat, i) matches Some(k) ==> i <= k && bytes_at(s, pat, k),
    decreases s.len() + 1 - i,
{
    if i + pat.len() <= s.len() && !bytes_at(s, pat, i) {
        lemma_find_bytes_from(s, pat, i + 1);
    }
}

fn bytes_match_at(s: &[u8], pat: &[u8], i: usize) -> (r: bool)
    ensures
        r == bytes_at(s@, pat@, i as int),
{
    let n = s.len();
    let m = pat.len();
    if i > n || m > n - i {
        return false;
    }
    let mut j: usize = 0;
    while j < m
        invariant
            n == s@.len(),
            m == pat@.len(),
            i + m <= n,
            j <= m,
            forall|q: int| 0 <= q < j ==> s@[i + q] == pat@[q],
        decreases m - j,
    {
        if s[i + j] != pat[j] {
            proof {
                assert(s@.subrange(i as int, i + m)[j as int] != pat@[j as int]);
            }
            return false;
        }
        j = j + 1;
    }
    proof {
        assert(s@.subrange(i as int, i + m) =~= pat@);
    }
    true
}

/// The first occurrence of `pat` in `s` at or after `from`.
pub fn find_bytes(s: &[u8], pat: &[u8], from: usize) -> (r: Option<usize>)
    ensures
        match r {
            Some(k) => find_bytes_from(s@, pat@, from as int) == Some(k as int) && k + pat@.len()
                <= s@.len(),
            None => find_bytes_from(s@, pat@, from as int) is None,
        },
{
    let n = s.len();
    let m = pat.len();
    if from > n || m > n - from {
        return None;
    }
    if m == 0 {
        proof {
            assert(s@.subrange(from as int, from as int) =~= pat@);
        }
        return Some(from);
    }
    let mut i = from;
    while m <= n - i
        invariant
            n == s@.len(),
            m == pat@.len(),
            m >= 1,
            from <= i,
            i <= n,
            find_bytes_from(s@, pat@, from as int) == find_bytes_from(s@, pat@, i as int),
        decreases n - i,
    {
        if bytes_match_at(s, pat, i) {
            return Some(i);
        }
        i = i + 1;
    }
    None
}

/// The index where the head of an HTTP message ends: the first `\r\n\r\n`.
pub fn find_header_terminator(bytes: &[u8]) -> (r: Option<usize>)
    ensures
        match r {
            Some(k) => find_bytes_from(bytes@, head_end(), 0) == Some(k as int) && k + 4
                <= bytes@.len(),
            None => find_bytes_from(bytes@, head_end(), 0) is None,
        },
{
    let pat: [u8; 4] = [13, 10, 13, 10];
    assert(pat@ =~= head_end());
    find_bytes(bytes, &pat, 0)
}

/// `std::str::from_utf8`: the text the bytes encode, when they are valid UTF-8.
#[verifier::external_body]
fn utf8_text(bytes: &[u8]) -> (r: Option<String>)
    ensures
        r is Some <==> valid_utf8(bytes@),
        r matches Some(s) ==> s@ == decode_utf8(bytes@),
{
    match std::str::from_utf8(bytes) {
        Ok(text) => Some(text.to_string()),
        Err(_) => None,
    }
}

fn append_bytes(dst: &mut Vec<u8>, src: &[u8])
    ensures
        final(dst)@ == old(dst)@ + src@,
{
    let n = src.len();
    let mut i: usize = 0;
    while i < n
        invariant
            n == src@.len(),
            i <= n,
            dst@ == old(dst)@ + src@.take(i as int),
        decreases n - i,
    {
        dst.push(src[i]);
        proof {
            assert(src@.take(i + 1) =~= src@.take(i as int).push(src@[i as int]));
        }
        i = i + 1;
    }
    proof {
        assert(src@.take(n as int) =~= src@);
    }
}

fn text_bytes(s: &str) -> (r: Vec<u8>)
    ensures
        r@ == encode_utf8(s@),
{
    let b = s.as_bytes();
    let mut out: Vec<u8> = Vec::new();
    append_bytes(&mut out, b);
    proof {
        assert(out@ =~= b@);
    }
    out
}

fn byte_range(s: &[u8], a: usize, b: usize) -> (r: Vec<u8>)
    requires
        a <= b <= s@.len(),
    ensures
        r@ == s@.subrange(a as int, b as int),
{
    let mut out: Vec<u8> = Vec::new();
    let mut i = a;
    while i < b
        invariant
            a <= i <= b,
            b <= s@.len(),
            out@ == s@.subrange(a as int, i as int),
        decreases b - i,
    {
        out.push(s[i]);
        proof {
            assert(s@.subrange(a as int, i + 1) =~= s@.subrange(a as int, i as int).push(s@[i as int]));
        }
        i = i + 1;
    }
    out
}

// ---------------------------------------------------------------------------
// Heads
// ---------------------------------------------------------------------------
/// The lines of a head, split at each `\r\n`.
pub open spec fn crlf_lines(s: Seq<char>) -> Seq<Seq<char>>
    decreases s.len(),
{
    match find_seq(s, "\r\n"@) {
        Some(k) => if 0 <= k && k + 2 <= s.len() {
            seq![s.take(k)] + crlf_lines(s.skip(k + 2))
        } else {
            seq![s]
        },
        None => seq![s],
    }
}

/// A header line as a trimmed name and value, split at its first `:`.
pub open spec fn header_of(line: Seq<char>) -> Option<(Seq<char>, Seq<char>)> {
    match find_seq(line, ":"@) {
        Some(k) => Some((trim_seq(line.take(k)), trim_seq(line.skip(k + 1)))),
        None => None,
    }
}

/// The headers of the lines after the first: each non-empty line with a `:`.
pub open spec fn headers_spec(lines: Seq<Seq<char>>) -> Seq<(Seq<char>, Seq<char>)>
    decreases lines.len(),
{
    if lines.len() == 0 {
        seq![]
    } else {
        let r = headers_spec(lines.drop_last());
        let line = lines.last();
        if line.len() > 0 {
            match header_of(line) {
                Some(h) => r.push(h),
                None => r,
            }
        } else {
            r
        }
    }
}

/// Views of a list of headers.
pub open spec fn headers_v(v: Seq<(String, String)>) -> Seq<(Seq<char>, Seq<char>)> {
    v.map_values(|h: (String, String)| (h.0@, h.1@))
}

fn crlf_split(s: &[char]) -> (r: Vec<Vec<char>>)
    ensures
        r.deep_view() == crlf_lines(s@),
{
    let pat: [char; 2] = ['\r', '\n'];
    proof {
        reveal_strlit("\r\n");
        assert(pat@ =~= "\r\n"@);
    }
    let n = s.len();
    let mut out: Vec<Vec<char>> = Vec::new();
    let mut start: usize = 0;
    proof {
        assert(s@.skip(0) =~= s@);
        assert(out.deep_view() =~= Seq::<Seq<char>>::empty());
    }
    loop
        invariant
            n == s@.len(),
            start <= n,
            pat@ == "\r\n"@,
            out.deep_view() + crlf_lines(s@.skip(start as int)) == crlf_lines(s@),
        decreases n - start,
    {
        let rest = crate::text::slice_chars(s, start, n);
        let ghost rv = rest@;
        assert(rv =~= s@.skip(start as int));
        match crate::text::find_chars(rest.as_slice(), &pat) {
            Some(k) => {
                assert(has_at(rv, pat@, k as int));
                let piece = crate::text::slice_chars(rest.as_slice(), 0, k);
                proof {
                    assert(piece@ =~= rv.take(k as int));
                    assert(rv.skip(k + 2) =~= s@.skip(start + k + 2));
                    crate::text::lemma_chars_deep(piece);
                }
                let ghost prev = out.deep_view();
                out.push(piece);
                proof {
                    assert(out.deep_view() =~= prev.push(rv.take(k as int)));
                    assert(seq![rv.take(k as int)] + crlf_lines(rv.skip(k + 2)) == crlf_lines(rv));
                    assert(prev.push(rv.take(k as int)) + crlf_lines(s@.skip(start + k + 2))
                        =~= prev + (seq![rv.take(k as int)] + crlf_lines(rv.skip(k + 2))));
                }
                start = start + k + 2;
            },
            None => {
                proof {
                    crate::text::lemma_chars_deep(rest);
                }
                let ghost prev = out.deep_view();
                out.push(rest);
                proof {
                    assert(out.deep_view() =~= prev.push(rv));
                    assert(crlf_lines(rv) == seq![rv]);
                    assert(prev + seq![rv] =~= prev.push(rv));
                }
                return out;
            },
        }
    }
}

fn parse_header_line(line: &[char]) -> (r: Option<(String, String)>)
    ensures
        match header_of(line@) {
            Some(h) => r matches Some(p) && p.0@ == h.0 && p.1@ == h.1,
            None => r is None,
        },
{
    let colon: [char; 1] = [':'];
    proof {
        reveal_strlit(":");
        assert(colon@ =~= ":"@);
    }
    let n = line.len();
    match crate::text::find_chars(line, &colon) {
        Some(k) => {
            assert(has_at(line@, colon@, k as int));
            let name = crate::text::slice_chars(line, 0, k);
            let value = crate::text::slice_chars(line, k + 1, n);
            let tn = crate::text::trim_chars(name.as_slice());
            let tv = crate::text::trim_chars(value.as_slice());
            proof {
                assert(name@ =~= line@.take(k as int));
                assert(value@ =~= line@.skip(k + 1));
            }
            Some((string_from_chars(tn.as_slice()), string_from_chars(tv.as_slice())))
        },
        None => None,
    }
}

fn parse_headers(lines: &Vec<Vec<char>>, from: usize) -> (r: Vec<(String, String)>)
    requires
        from <= lines@.len(),
    ensures
        headers_v(r@) == headers_spec(lines.deep_view().skip(from as int)),
{
    let ghost lv = lines.deep_view().skip(from as int);
    let mut out: Vec<(String, String)> = Vec::new();
    let n = lines.len();
    let mut i = from;
    proof {
        assert(lv.take(0) =~= Seq::<Seq<char>>::empty());
    }
    while i < n
        invariant
            n == lines@.len(),
            from <= i <= n,
            lv == lines.deep_view().skip(from as int),
            headers_v(out@) == headers_spec(lv.take(i - from)),
        decreases n - i,
    {
        proof {
            assert(lv.take(i - from + 1).drop_last() =~= lv.take(i - from));
            assert(lv.take(i - from + 1).last() == lines@[i as int]@);
            crate::text::lemma_chars_deep(lines@[i as int]);
        }
        if lines[i].len() > 0 {
            match parse_header_line(lines[i].as_slice()) {
                Some(h) => {
                    let ghost prev = out@;
                    let ghost hv = (h.0@, h.1@);
                    out.push(h);
                    proof {
                        assert(headers_v(out@) =~= headers_v(prev).push(hv));
                    }
                },
                None => {},
            }
        }
        i = i + 1;
    }
    proof {
        assert(lv.take(n - from) =~= lv);
    }
    out
}

/// The head of a request the proxy received.
pub struct RequestHead {
    pub body_offset: usize,
    pub method: String,
    pub path: String,
    pub version: String,
    pub headers: Vec<(String, String)>,
}

/// The head of a request read so far: an error when the bytes exceed the limit;
/// nothing yet while no `\r\n\r\n` has arrived; else the method, path and version
/// of its first line and the headers of the others, or an error naming what is
/// missing.
pub open spec fn request_head_spec(buffer: Seq<u8>) -> Result<Option<(int, Seq<char>, Seq<char>, Seq<char>, Seq<(Seq<char>, Seq<char>)>)>, Seq<char>> {
    if buffer.len() > MAX_HTTP_HEADER_BYTES {
        Err("Proxy request headers exceeded the configured limit."@)
    } else {
        match find_bytes_from(buffer, head_end(), 0) {
            None => Ok(None),
            Some(end) => {
                let head = buffer.subrange(0, end);
                if !valid_utf8(head) {
                    Err("Proxy request headers were not valid UTF-8."@)
                } else {
                    let lines = crlf_lines(decode_utf8(head));
                    let parts = words(lines[0]);
                    if parts.len() < 1 {
                        Err("Proxy request method was missing."@)
                    } else if parts.len() < 2 {
                        Err("Proxy request path was missing."@)
                    } else if parts.len() < 3 {
                        Err("Proxy request version was missing."@)
                    } else {
                        Ok(Some((end + 4, parts[0], parts[1], parts[2], headers_spec(lines.skip(1)))))
                    }
                }
            },
        }
    }
}

proof fn lemma_crlf_lines_nonempty(s: Seq<char>)
    ensures
        crlf_lines(s).len() >= 1,
    decreases s.len(),
{
    if let Some(k) = find_seq(s, "\r\n"@) {
        if 0 <= k && k + 2 <= s.len() {
            lemma_crlf_lines_nonempty(s.skip(k + 2));
        }
    }
}

/// The head of a request read so far (see `request_head_spec`).
pub fn request_head_progress(buffer: &[u8]) -> (r: Result<Option<RequestHead>, String>)
    ensures
        match (r, request_head_spec(buffer@)) {
            (Ok(None), Ok(None)) => true,
            (Ok(Some(h)), Ok(Some(s))) => h.body_offset == s.0 && h.method@ == s.1 && h.path@
                == s.2 && h.version@ == s.3 && headers_v(h.headers@) == s.4,
            (Err(e), Err(s)) => e@ == s,
            _ => false,
        },
{
    let n = buffer.len();
    if n > MAX_HTTP_HEADER_BYTES {
        return Err(owned("Proxy request headers exceeded the configured limit."));
    }
    let end = match find_header_terminator(buffer) {
        Some(e) => e,
        None => {
            return Ok(None);
        },
    };
    let head_bytes = byte_range(buffer, 0, end);
    let head = match utf8_text(head_bytes.as_slice()) {
        Some(t) => t,
        None => {
            return Err(owned("Proxy request headers were not valid UTF-8."));
        },
    };
    let chars = chars_of(head.as_str());
    let lines = crlf_split(chars.as_slice());
    proof {
        lemma_crlf_lines_nonempty(chars@);
        crate::text::lemma_chars_deep(lines@[0]);
    }
    let parts = crate::text::split_words(lines[0].as_slice());
    proof {
        assert(parts.deep_view().len() == parts@.len());
    }
    if parts.len() < 1 {
        return Err(owned("Proxy request method was missing."));
    }
    if parts.len() < 2 {
        return Err(owned("Proxy request path was missing."));
    }
    if parts.len() < 3 {
        return Err(owned("Proxy request version was missing."));
    }
    proof {
        crate::text::lemma_chars_deep(parts@[0]);
        crate::text::lemma_chars_deep(parts@[1]);
        crate::text::lemma_chars_deep(parts@[2]);
    }
    let method = string_from_chars(parts[0].as_slice());
    let path = string_from_chars(parts[1].as_slice());
    let version = string_from_chars(parts[2].as_slice());
    let headers = parse_headers(&lines, 1);
    Ok(Some(RequestHead { body_offset: end + 4, method, path, version, headers }))
}

/// Whether a request asks to upgrade to a WebSocket.
pub open spec fn websocket_spec(headers: Seq<(Seq<char>, Seq<char>)>) -> bool {
    exists|i: int|
        0 <= i < headers.len() && eq_ignore_case(#[trigger] headers[i].0, "upgrade"@)
            && eq_ignore_case(headers[i].1, "websocket"@)
}

/// Whether a request asks to upgrade to a WebSocket.
pub fn is_websocket_request(headers: &[(String, String)]) -> (r: bool)
    ensures
        r == websocket_spec(headers_v(headers@)),
{
    let ghost hv = headers_v(headers@);
    let n = headers.len();
    let mut i: usize = 0;
    while i < n
        invariant
            n == headers@.len(),
            hv == headers_v(headers@),
            i <= n,
            forall|j: int|
                0 <= j < i ==> !(eq_ignore_case(#[trigger] hv[j].0, "upgrade"@) && eq_ignore_case(
                    hv[j].1,
                    "websocket"@,
                )),
        decreases n - i,
    {
        assert(hv[i as int] == (headers@[i as int].0@, headers@[i as int].1@));
        if eq_ignore_ascii_case(headers[i].0.as_str(), "upgrade") && eq_ignore_ascii_case(
            headers[i].1.as_str(),
            "websocket",
        ) {
            assert(eq_ignore_case(hv[i as int].0, "upgrade"@));
            assert(websocket_spec(hv));
            return true;
        }
        i = i + 1;
    }
    false
}

// ---------------------------------------------------------------------------
// Messages sent on
// ---------------------------------------------------------------------------
/// Whether a request header is dropped before the request is sent upstream.
pub open spec fn request_header_dropped(name: Seq<char>) -> bool {
    eq_ignore_case(name, "accept-encoding"@) || eq_ignore_case(name, "connection"@)
        || eq_ignore_case(name, "proxy-connection"@) || eq_ignore_case(name, "if-none-match"@)
}

/// Whether a response header is dropped when a response is rewritten.
pub open spec fn response_header_dropped(name: Seq<char>) -> bool {
    eq_ignore_case(name, "content-length"@) || eq_ignore_case(name, "transfer-encoding"@)
        || eq_ignore_case(name, "connection"@) || eq_ignore_case(name, "etag"@)
        || eq_ignore_case(name, "content-encoding"@)
}

/// The header lines kept by a filter, each as `name: value\r\n`.
pub open spec fn header_lines(headers: Seq<(Seq<char>, Seq<char>)>, response: bool) -> Seq<char>
    decreases headers.len(),
{
    if headers.len() == 0 {
        seq![]
    } else {
        let r = header_lines(headers.drop_last(), response);
        let h = headers.last();
        if (if response {
            response_header_dropped(h.0)
        } else {
            request_header_dropped(h.0)
        }) {
            r
        } else {
            r + h.0 + ": "@ + h.1 + "\r\n"@
        }
    }
}

fn append_header_lines(out: &mut String, headers: &[(String, String)], response: bool)
    ensures
        final(out)@ == old(out)@ + header_lines(headers_v(headers@), response),
{
    let ghost hv = headers_v(headers@);
    let n = headers.len();
    let mut i: usize = 0;
    proof {
        reveal_strlit("accept-encoding");
        reveal_strlit("connection");
        reveal_strlit("proxy-connection");
        reveal_strlit("if-none-match");
        reveal_strlit("content-length");
        reveal_strlit("transfer-encoding");
        reveal_strlit("etag");
        reveal_strlit("content-encoding");
        assert(hv.take(0) =~= Seq::<(Seq<char>, Seq<char>)>::empty());
    }
    while i < n
        invariant
            n == headers@.len(),
            hv == headers_v(headers@),
            i <= n,
            out@ == old(out)@ + header_lines(hv.take(i as int), response),
        decreases n - i,
    {
        proof {
            assert(hv.take(i + 1).drop_last() =~= hv.take(i as int));
            assert(hv.take(i + 1).last() == (headers@[i as int].0@, headers@[i as int].1@));
        }
        let name = headers[i].0.as_str();
        let dropped = if response {
            eq_ignore_ascii_case(name, "content-length") || eq_ignore_ascii_case(
                name,
                "transfer-encoding",
            ) || eq_ignore_ascii_case(name, "connection") || eq_ignore_ascii_case(name, "etag")
                || eq_ignore_ascii_case(name, "content-encoding")
        } else {
            eq_ignore_ascii_case(name, "accept-encoding") || eq_ignore_ascii_case(
                name,
                "connection",
            ) || eq_ignore_ascii_case(name, "proxy-connection") || eq_ignore_ascii_case(
                name,
                "if-none-match",
            )
        };
        if !dropped {
            let ghost before = out@;
            out.append(name);
            out.append(": ");
            out.append(headers[i].1.as_str());
            out.append("\r\n");
            proof {
                assert(out@ =~= before + headers@[i as int].0@ + ": "@ + headers@[i as int].1@
                    + "\r\n"@);
            }
        }
        i = i + 1;
    }
    proof {
        assert(hv.take(n as int) =~= hv);
    }
}

/// The request sent upstream: its first line, its headers but those about encoding,
/// connection and caching, `Connection: close`, `Accept-Encoding: identity`, a blank
/// line, then the body.
pub open spec fn rebuilt_request_spec(
    method: Seq<char>,
    path: Seq<char>,
    version: Seq<char>,
    headers: Seq<(Seq<char>, Seq<char>)>,
    body: Seq<u8>,
) -> Seq<u8> {
    encode_utf8(
        method + " "@ + path + " "@ + version + "\r\n"@ + header_lines(headers, false)
            + "Connection: close\r\n"@ + "Accept-Encoding: identity\r\n"@ + "\r\n"@,
    ) + body
}

/// The request sent upstream (see `rebuilt_request_spec`).
pub fn rebuild_http_request(
    method: &str,
    path: &str,
    version: &str,
    headers: &[(String, String)],
    body: &[u8],
) -> (r: Vec<u8>)
    ensures
        r@ == rebuilt_request_spec(method@, path@, version@, headers_v(headers@), body@),
{
    let mut request = concat3(method, " ", path);
    request.append(" ");
    request.append(version);
    request.append("\r\n");
    append_header_lines(&mut request, headers, false);
    request.append("Connection: close\r\n");
    request.append("Accept-Encoding: identity\r\n");
    request.append("\r\n");
    let mut bytes = text_bytes(request.as_str());
    append_bytes(&mut bytes, body);
    bytes
}

/// The head of a response: its status line, its headers and where its body starts;
/// an error when it has no `\r\n\r\n` or is not valid UTF-8.
pub open spec fn response_head_spec(response: Seq<u8>) -> Result<(Seq<char>, Seq<(Seq<char>, Seq<char>)>, int), Seq<char>> {
    match find_bytes_from(response, head_end(), 0) {
        None => Err("Proxy response was missing an HTTP header terminator."@),
        Some(end) => {
            let head = response.subrange(0, end);
            if !valid_utf8(head) {
                Err("Proxy response headers were not valid UTF-8."@)
            } else {
                let lines = crlf_lines(decode_utf8(head));
                Ok((lines[0], headers_spec(lines.skip(1)), end + 4))
            }
        },
    }
}

/// The head of a response (see `response_head_spec`).
pub fn parse_http_response_head(response: &[u8]) -> (r: Result<(String, Vec<(String, String)>, usize), String>)
    ensures
        match (r, response_head_spec(response@)) {
            (Ok(h), Ok(s)) => h.0@ == s.0 && headers_v(h.1@) == s.1 && h.2 == s.2,
            (Err(e), Err(s)) => e@ == s,
            _ => false,
        },
{
    let n = response.len();
    let end = match find_header_terminator(response) {
        Some(e) => e,
        None => {
            return Err(owned("Proxy response was missing an HTTP header terminator."));
        },
    };
    let head_bytes = byte_range(response, 0, end);
    let head = match utf8_text(head_bytes.as_slice()) {
        Some(t) => t,
        None => {
            return Err(owned("Proxy response headers were not valid UTF-8."));
        },
    };
    let chars = chars_of(head.as_str());
    let lines = crlf_split(chars.as_slice());
    proof {
        lemma_crlf_lines_nonempty(chars@);
        crate::text::lemma_chars_deep(lines@[0]);
    }
    assert(end + 4 <= n);
    let status_line = string_from_chars(lines[0].as_slice());
    let headers = parse_headers(&lines, 1);
    Ok((status_line, headers, end + 4))
}

/// The index of the first header at or after `i` with the given name, in any case.
pub open spec fn header_index(headers: Seq<(Seq<char>, Seq<char>)>, name: Seq<char>, i: int) -> Option<int>
    decreases headers.len() - i,
{
    if i < 0 || i >= headers.len() {
        None
    } else if eq_ignore_case(headers[i].0, name) {
        Some(i)
    } else {
        header_index(headers, name, i + 1)
    }
}

/// The value of the first header with the given name, in any case.
pub fn response_header_value<'a>(headers: &'a [(String, String)], name: &str) -> (r: Option<&'a str>)
    ensures
        match header_index(headers_v(headers@), name@, 0) {
            Some(k) => r matches Some(v) && v@ == headers_v(headers@)[k].1,
            None => r is None,
        },
{
    let ghost hv = headers_v(headers@);
    let n = headers.len();
    let mut i: usize = 0;
    while i < n
        invariant
            n == headers@.len(),
            hv == headers_v(headers@),
            i <= n,
            header_index(hv, name@, 0) == header_index(hv, name@, i as int),
        decreases n - i,
    {
        assert(hv[i as int] == (headers@[i as int].0@, headers@[i as int].1@));
        if eq_ignore_ascii_case(headers[i].0.as_str(), name) {
            return Some(headers[i].1.as_str());
        }
        i = i + 1;
    }
    None
}

// ---------------------------------------------------------------------------
// Chunked bodies
// ---------------------------------------------------------------------------
/// The part of a chunk-size line before any `;` extension.
pub open spec fn before_semicolon(line: Seq<char>) -> Seq<char> {
    match crate::text::find_class_from(line, crate::text::CharClass::Single(';'), 0) {
        Some(k) => line.take(k),
        None => line,
    }
}

/// A chunked body decoded from `index` on, the chunks read so far being `acc`: each
/// chunk is a hexadecimal size line, the data and `\r\n`, up to a chunk of size zero.
pub open spec fn chunked_from(body: Seq<u8>, index: int, acc: Seq<u8>) -> Result<Seq<u8>, Seq<char>>
    decreases body.len() - index,
{
    if index < 0 || index > body.len() {
        Err("Invalid chunked response framing."@)
    } else {
        match find_bytes_from(body, crlf_bytes(), index) {
            None => Err("Invalid chunked response framing."@),
            Some(e) => if e < index || e + 2 > body.len() {
                Err("Invalid chunked response framing."@)
            } else if !valid_utf8(body.subrange(index, e)) {
                Err("Chunked response size line was not valid UTF-8."@)
            } else {
                match parse_hex_usize(trim_seq(before_semicolon(decode_utf8(body.subrange(index, e))))) {
                    None => Err("Chunked response size could not be parsed."@),
                    Some(size) => {
                        let start = e + 2;
                        if size == 0 {
                            Ok(acc)
                        } else if start + size + 2 > body.len() {
                            Err("Chunked response ended unexpectedly."@)
                        } else {
                            chunked_from(
                                body,
                                start + size + 2,
                                acc + body.subrange(start, start + size),
                            )
                        }
                    },
                }
            },
        }
    }
}

/// A chunked body decoded.
pub open spec fn chunked_spec(body: Seq<u8>) -> Result<Seq<u8>, Seq<char>> {
    chunked_from(body, 0, seq![])
}

/// A chunked body decoded: the data of its chunks in order, up to the chunk of size
/// zero; an error for broken framing, a size line that is not UTF-8 or not a
/// hexadecimal number, or a chunk cut short.
pub fn decode_chunked_body(body: &[u8]) -> (r: Result<Vec<u8>, String>)
    ensures
        match (r, chunked_spec(body@)) {
            (Ok(v), Ok(s)) => v@ == s,
            (Err(e), Err(s)) => e@ == s,
            _ => false,
        },
{
    let n = body.len();
    let crlf: [u8; 2] = [13, 10];
    assert(crlf@ =~= crlf_bytes());
    let mut decoded: Vec<u8> = Vec::new();
    let mut index: usize = 0;
    loop
        invariant
            n == body@.len(),
            index <= n,
            crlf@ == crlf_bytes(),
            chunked_spec(body@) == chunked_from(body@, index as int, decoded@),
        decreases n - index,
    {
        let size_line_end = match find_bytes(body, &crlf, index) {
            Some(e) => e,
            None => {
                return Err(owned("Invalid chunked response framing."));
            },
        };
        proof {
            lemma_find_bytes_from(body@, crlf_bytes(), index as int);
        }
        let line_bytes = byte_range(body, index, size_line_end);
        let line = match utf8_text(line_bytes.as_slice()) {
            Some(t) => t,
            None => {
                return Err(owned("Chunked response size line was not valid UTF-8."));
            },
        };
        let chars = chars_of(line.as_str());
        let semi = crate::text::find_class(chars.as_slice(), crate::text::CharClass::Single(';'));
        let field = match semi {
            Some(k) => crate::text::slice_chars(chars.as_slice(), 0, k),
            None => crate::text::slice_chars(chars.as_slice(), 0, chars.len()),
        };
        proof {
            if let Some(k) = semi {
                assert(field@ =~= chars@.take(k as int));
            } else {
                assert(field@ =~= chars@);
            }
        }
        let trimmed = crate::text::trim_chars(field.as_slice());
        let size = match crate::text::parse_hex(trimmed.as_slice()) {
            Some(v) => v,
            None => {
                return Err(owned("Chunked response size could not be parsed."));
            },
        };
        let start = size_line_end + 2;
        if size == 0 {
            return Ok(decoded);
        }
        if size > n - start || 2 > n - start - size {
            return Err(owned("Chunked response ended unexpectedly."));
        }
        let chunk_end = start + size;
        let chunk = byte_range(body, start, chunk_end);
        let ghost prev = decoded@;
        append_bytes(&mut decoded, chunk.as_slice());
        index = chunk_end + 2;
    }
}

// ---------------------------------------------------------------------------
// The Vite client script
// ---------------------------------------------------------------------------
/// A script with the statement that starts with `prefix` (up to its first `;`)
/// replaced; the script unchanged when there is no such statement.
pub open spec fn replace_statement_spec(script: Seq<char>, prefix: Seq<char>, replacement: Seq<char>) -> Seq<char> {
    match find_seq(script, prefix) {
        None => script,
        Some(start) => match find_from(script, ";"@, start) {
            None => script,
            Some(end) => script.take(start) + replacement + script.skip(end + 1),
        },
    }
}

/// A script with the statement that starts with `prefix` replaced.
pub fn replace_js_statement(script: &str, prefix: &str, replacement: &str) -> (r: String)
    ensures
        r@ == replace_statement_spec(script@, prefix@, replacement@),
{
    let s = chars_of(script);
    let p = chars_of(prefix);
    let n = s.len();
    let start = match crate::text::find_chars(s.as_slice(), p.as_slice()) {
        Some(k) => k,
        None => {
            return owned(script);
        },
    };
    let semi: [char; 1] = [';'];
    proof {
        reveal_strlit(";");
        assert(semi@ =~= ";"@);
        crate::text::lemma_find_from_some(s@, p@, 0);
    }
    let end = match crate::text::find_chars_from(s.as_slice(), &semi, start) {
        Some(e) => e,
        None => {
            return owned(script);
        },
    };
    proof {
        crate::text::lemma_find_from_some(s@, ";"@, start as int);
    }
    let mut out = crate::text::slice_chars(s.as_slice(), 0, start);
    let r = chars_of(replacement);
    crate::text::extend_chars(&mut out, r.as_slice());
    let tail = crate::text::slice_chars(s.as_slice(), end + 1, n);
    crate::text::extend_chars(&mut out, tail.as_slice());
    proof {
        assert(out@ =~= s@.take(start as int) + replacement@ + s@.skip(end + 1));
    }
    string_from_chars(out.as_slice())
}

/// The Vite client script pointed at the proxy: its HMR port and its direct socket
/// host set to the public port on `127.0.0.1`.
pub open spec fn vite_script_spec(script: Seq<char>, port: u16) -> Seq<char> {
    let s1 = replace_statement_spec(
        script,
        "const hmrPort = "@,
        "const hmrPort = "@ + dec(port as nat) + ";"@,
    );
    replace_statement_spec(
        s1,
        "const directSocketHost = "@,
        "const directSocketHost = \"127.0.0.1:"@ + dec(port as nat) + "/\";"@,
    )
}

/// The Vite client script pointed at the proxy's public port.
pub fn rewrite_vite_client_script(script: &str, public_port: u16) -> (r: String)
    ensures
        r@ == vite_script_spec(script@, public_port),
{
    let port = dec_string(public_port as u64);
    let hmr = concat3("const hmrPort = ", port.as_str(), ";");
    let s1 = replace_js_statement(script, "const hmrPort = ", hmr.as_str());
    let host = concat3("const directSocketHost = \"127.0.0.1:", port.as_str(), "/\";");
    replace_js_statement(s1.as_str(), "const directSocketHost = ", host.as_str())
}

/// A response rebuilt around a new body: its status line, its headers but those
/// about length, encoding, connection and caching, a `Content-Length` for the body,
/// `Connection: close`, a blank line, then the body.
pub open spec fn rebuilt_response_spec(
    status: Seq<char>,
    headers: Seq<(Seq<char>, Seq<char>)>,
    body: Seq<u8>,
) -> Seq<u8> {
    encode_utf8(
        status + "\r\n"@ + header_lines(headers, true) + "Content-Length: "@ + dec(body.len())
            + "\r\n"@ + "Connection: close\r\n"@ + "\r\n"@,
    ) + body
}

/// A response rebuilt around a new body (see `rebuilt_response_spec`).
pub fn build_rewritten_http_response(status_line: &str, headers: &[(String, String)], body: &[u8]) -> (r:
    Vec<u8>)
    ensures
        r@ == rebuilt_response_spec(status_line@, headers_v(headers@), body@),
{
    let n = body.len();
    let mut response = concat2(status_line, "\r\n");
    append_header_lines(&mut response, headers, true);
    response.append("Content-Length: ");
    let len_text = dec_string(n as u64);
    response.append(len_text.as_str());
    response.append("\r\n");
    response.append("Connection: close\r\n");
    response.append("\r\n");
    let mut bytes = text_bytes(response.as_str());
    append_bytes(&mut bytes, body);
    bytes
}

/// The Vite client response pointed at the proxy: its body (decoded when chunked)
/// rewritten by `vite_script_spec` and the response rebuilt around it; an error when
/// the head, the chunks or the script's UTF-8 are broken.
pub open spec fn vite_response_spec(response: Seq<u8>, port: u16) -> Result<Seq<u8>, Seq<char>> {
    match response_head_spec(response) {
        Err(e) => Err(e),
        Ok((status, headers, offset)) => {
            let raw = response.skip(offset);
            let chunked = match header_index(headers, "transfer-encoding"@, 0) {
                Some(k) => eq_ignore_case(headers[k].1, "chunked"@),
                None => false,
            };
            let body = if chunked {
                chunked_spec(raw)
            } else {
                Ok(raw)
            };
            match body {
                Err(e) => Err(e),
                Ok(b) => if !valid_utf8(b) {
                    Err("The Vite client response body was not valid UTF-8."@)
                } else {
                    Ok(
                        rebuilt_response_spec(
                            status,
                            headers,
                            encode_utf8(vite_script_spec(decode_utf8(b), port)),
                        ),
                    )
                },
            }
        },
    }
}

/// The Vite client response pointed at the proxy's public port (see
/// `vite_response_spec`).
pub fn rewrite_vite_client_response(response: &[u8], public_port: u16) -> (r: Result<Vec<u8>, String>)
    ensures
        match (r, vite_response_spec(response@, public_port)) {
            (Ok(v), Ok(s)) => v@ == s,
            (Err(e), Err(s)) => e@ == s,
            _ => false,
        },
{
    let n = response.len();
    let (status_line, headers, body_offset) = match parse_http_response_head(response) {
        Ok(h) => h,
        Err(e) => {
            return Err(e);
        },
    };
    proof {
        reveal_strlit("transfer-encoding");
        reveal_strlit("chunked");
    }
    proof {
        lemma_find_bytes_from(response@, head_end(), 0);
    }
    let raw = byte_range(response, body_offset, n);
    assert(raw@ =~= response@.skip(body_offset as int));
    let chunked = match response_header_value(headers.as_slice(), "transfer-encoding") {
        Some(v) => eq_ignore_ascii_case(v, "chunked"),
        None => false,
    };
    let body = if chunked {
        match decode_chunked_body(raw.as_slice()) {
            Ok(b) => b,
            Err(e) => {
                return Err(e);
            },
        }
    } else {
        raw
    };
    let script = match utf8_text(body.as_slice()) {
        Some(t) => t,
        None => {
            return Err(owned("The Vite client response body was not valid UTF-8."));
        },
    };
    let rewritten = rewrite_vite_client_script(script.as_str(), public_port);
    let bytes = text_bytes(rewritten.as_str());
    Ok(build_rewritten_http_response(status_line.as_str(), headers.as_slice(), bytes.as_slice()))
}

/// The plain-text error response the proxy sends.
pub open spec fn error_response_spec(status_line: Seq<char>, message: Seq<char>) -> Seq<u8> {
    encode_utf8(
        status_line + "\r\nContent-Type: text/plain; charset=utf-8\r\nContent-Length: "@ + dec(
            encode_utf8(message).len(),
        ) + "\r\nConnection: close\r\n\r\n"@ + message,
    )
}

/// The plain-text error response the proxy sends: the status line, the content
/// type, the message's length in bytes, `Connection: close`, then the message.
pub fn proxy_error_response(status_line: &str, message: &str) -> (r: Vec<u8>)
    ensures
        r@ == error_response_spec(status_line@, message@),
{
    let len = message.as_bytes().len();
    let mut text = concat2(status_line, "\r\nContent-Type: text/plain; charset=utf-8\r\nContent-Length: ");
    let l = dec_string(len as u64);
    text.append(l.as_str());
    text.append("\r\nConnection: close\r\n\r\n");
    text.append(message);
    text_bytes(text.as_str())
}

// ---------------------------------------------------------------------------
// Proxying
// ---------------------------------------------------------------------------
/// The request sent to the dev server for a request the proxy read: its head
/// rebuilt and the bytes after its head passed on.
pub fn upstream_request(buffer: &[u8], head: &RequestHead) -> (r: Vec<u8>)
    requires
        head.body_offset <= buffer@.len(),
    ensures
        r@ == rebuilt_request_spec(
            head.method@,
            head.path@,
            head.version@,
            headers_v(head.headers@),
            buffer@.skip(head.body_offset as int),
        ),
{
    let n = buffer.len();
    let body = byte_range(buffer, head.body_offset, n);
    assert(body@ =~= buffer@.skip(head.body_offset as int));
    rebuild_http_request(
        head.method.as_str(),
        head.path.as_str(),
        head.version.as_str(),
        head.headers.as_slice(),
        body.as_slice(),
    )
}

/// The response passed back to the browser: for `/@vite/client`, the script
/// pointed at the proxy when it can be rewritten; otherwise the dev server's bytes.
pub open spec fn proxied_response_spec(path: Seq<char>, response: Seq<u8>, port: u16) -> Seq<u8> {
    if path == "/@vite/client"@ {
        match vite_response_spec(response, port) {
            Ok(r) => r,
            Err(_) => response,
        }
    } else {
        response
    }
}

/// The response passed back to the browser (see `proxied_response_spec`).
pub fn proxied_response(path: &str, response: Vec<u8>, public_port: u16) -> (r: Vec<u8>)
    ensures
        r@ == proxied_response_spec(path@, response@, public_port),
{
    if crate::text::str_eq(path, "/@vite/client") {
        match rewrite_vite_client_response(response.as_slice(), public_port) {
            Ok(rewritten) => rewritten,
            Err(_) => response,
        }
    } else {
        response
    }
}

/// The response sent for a request the proxy could not read.
pub fn bad_request_response(error: &str) -> (r: Vec<u8>)
    ensures
        r@ == error_response_spec("HTTP/1.1 400 Bad Request"@, error@),
{
    proxy_error_response("HTTP/1.1 400 Bad Request", error)
}

/// The response sent when the dev server could not be reached or answered badly.
pub fn bad_gateway_response(error: &str) -> (r: Vec<u8>)
    ensures
        r@ == error_response_spec("HTTP/1.1 502 Bad Gateway"@, error@),
{
    proxy_error_response("HTTP/1.1 502 Bad Gateway", error)
}

} // verus!

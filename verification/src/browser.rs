//! Probing a forwarded browser URL: the HTTP request that asks whether anything
//! answers there, and how its answer is recognized. Opening connections is left to
//! the caller.
use vstd::prelude::*;
use crate::model::opt_v;
use crate::runtime::{url_host_text, url_parses};
use crate::text::{concat2, dec, dec_string, owned, str_eq};

verus! {

/// `url::Url::scheme` of the URL parsed from the text.
pub uninterp spec fn url_scheme_text(input: Seq<char>) -> Seq<char>;

/// `url::Url::path` of the URL parsed from the text.
pub uninterp spec fn url_path_text(input: Seq<char>) -> Seq<char>;

/// `url::Url::query` of the URL parsed from the text.
pub uninterp spec fn url_query_text(input: Seq<char>) -> Option<Seq<char>>;

/// `url::Url::port` of the URL parsed from the text: the port it names, unless that
/// is the scheme's default or none is named.
pub uninterp spec fn url_explicit_port(input: Seq<char>) -> Option<u16>;

/// The parts of a URL that a request for it needs.
pub struct RequestParts {
    pub scheme: String,
    pub host: Option<String>,
    pub port: Option<u16>,
    pub path: String,
    pub query: Option<String>,
}

/// The parts of a URL, through `url::Url::parse` and its `scheme`, `host_str`,
/// `port`, `path` and `query`: `None` when the text does not parse.
#[verifier::external_body]
fn url_request_parts(input: &str) -> (r: Option<RequestParts>)
    ensures
        r is Some <==> url_parses(input@),
        r matches Some(p) ==> {
            &&& p.scheme@ == url_scheme_text(input@)
            &&& opt_v(p.host) == url_host_text(input@)
            &&& p.port == url_explicit_port(input@)
            &&& p.path@ == url_path_text(input@)
            &&& opt_v(p.query) == url_query_text(input@)
        },
{
    let parsed = match url::Url::parse(input) {
        Ok(parsed) => parsed,
        Err(_) => return None,
    };
    let host = match parsed.host_str() { Some(h) => Some(h.to_string()), None => None };
    let query = match parsed.query() { Some(q) => Some(q.to_string()), None => None };
    Some(RequestParts {
        scheme: parsed.scheme().to_string(),
        host,
        port: parsed.port(),
        path: parsed.path().to_string(),
        query,
    })
}

/// The request target of a URL: its path (`/` when empty), then `?` and its query
/// when it has one.
pub open spec fn probe_path_spec(path: Seq<char>, query: Option<Seq<char>>) -> Seq<char> {
    let p = if path.len() == 0 {
        "/"@
    } else {
        path
    };
    match query {
        Some(q) => p + "?"@ + q,
        None => p,
    }
}

/// The request target of a URL's parts (see `probe_path_spec`).
pub fn browser_probe_path(parts: &RequestParts) -> (r: String)
    ensures
        r@ == probe_path_spec(parts.path@, opt_v(parts.query)),
{
    proof {
        reveal_strlit("");
        assert(parts.path@.len() == 0 <==> parts.path@ =~= ""@);
    }
    let mut path = if str_eq(parts.path.as_str(), "") {
        owned("/")
    } else {
        owned(parts.path.as_str())
    };
    match &parts.query {
        Some(q) => {
            path.append("?");
            path.append(q.as_str());
        },
        None => {},
    }
    path
}

/// The `Host` header of a URL: its host, then `:` and its port when it names one;
/// none without a host.
pub open spec fn host_header_spec(host: Option<Seq<char>>, port: Option<u16>) -> Option<Seq<char>> {
    match host {
        None => None,
        Some(h) => match port {
            Some(p) => Some(h + ":"@ + dec(p as nat)),
            None => Some(h),
        },
    }
}

/// The `Host` header of a URL's parts (see `host_header_spec`).
pub fn browser_probe_host_header(parts: &RequestParts) -> (r: Option<String>)
    ensures
        opt_v(r) == host_header_spec(opt_v(parts.host), parts.port),
{
    let host = match &parts.host {
        Some(h) => h,
        None => return None,
    };
    match parts.port {
        Some(p) => {
            let mut header = concat2(host.as_str(), ":");
            let n = dec_string(p as u64);
            header.append(n.as_str());
            Some(header)
        },
        None => Some(host.clone()),
    }
}

/// The `HEAD` request that probes a URL, for an `http` URL with a host.
pub open spec fn probe_request_spec(input: Seq<char>) -> Option<Seq<char>> {
    if !url_parses(input) || url_scheme_text(input) != "http"@ {
        None
    } else {
        match host_header_spec(url_host_text(input), url_explicit_port(input)) {
            None => None,
            Some(h) => Some(
                "HEAD "@ + probe_path_spec(url_path_text(input), url_query_text(input))
                    + " HTTP/1.1\r\nHost: "@ + h + "\r\nConnection: close\r\n\r\n"@,
            ),
        }
    }
}

/// The request that asks whether anything answers HTTP at a forwarded URL: none
/// when the URL does not parse, is not `http` or has no host (see
/// `probe_request_spec`).
pub fn browser_probe_request(local_url: &str) -> (r: Option<String>)
    ensures
        opt_v(r) == probe_request_spec(local_url@),
{
    let parts = match url_request_parts(local_url) {
        Some(p) => p,
        None => return None,
    };
    if !str_eq(parts.scheme.as_str(), "http") {
        return None;
    }
    let host_header = match browser_probe_host_header(&parts) {
        Some(h) => h,
        None => return None,
    };
    let path = browser_probe_path(&parts);
    let mut request = concat2("HEAD ", path.as_str());
    request.append(" HTTP/1.1\r\nHost: ");
    request.append(host_header.as_str());
    request.append("\r\nConnection: close\r\n\r\n");
    Some(request)
}

/// Whether the first bytes read back are an HTTP response: they start with
/// `HTTP/`.
pub open spec fn http_answer_spec(bytes: Seq<u8>) -> bool {
    bytes.len() >= 5 && bytes[0] == 72u8 && bytes[1] == 84u8 && bytes[2] == 84u8 && bytes[3] == 80u8
        && bytes[4] == 47u8
}

/// Whether the bytes read back from a probe are an HTTP response (see
/// `http_answer_spec`).
pub fn looks_like_http_answer(bytes: &[u8]) -> (r: bool)
    ensures
        r == http_answer_spec(bytes@),
{
    bytes.len() >= 5 && bytes[0] == 72u8 && bytes[1] == 84u8 && bytes[2] == 84u8 && bytes[3] == 80u8
        && bytes[4] == 47u8
}

} // verus!

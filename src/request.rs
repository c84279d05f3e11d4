//! Parsing of an HTTP proxy request head: method, target and credentials.
use vstd::prelude::*;
use base64::Engine;
use std::str::FromStr;
use crate::error::RgError;
use crate::headers::{upper, upper_of, utf8_of, utf8_text};
use crate::text::{split_pair, split_two, str_eq};

verus! {

/// A request head as the HTTP parser hands it over.
pub struct RawHead {
    pub method: String,
    pub path: String,
    pub headers: Vec<(String, Vec<u8>)>,
}

/// Method, path and headers (name, value) that the HTTP/1.x parser reads from
/// `b` with room for 32 headers, or `None` when it reports an error or no
/// method or path.
pub uninterp spec fn http_head(b: Seq<u8>) -> Option<(Seq<char>, Seq<char>, Seq<(Seq<char>, Seq<u8>)>)>;

/// Host (if any) and port (if any) of the URI `s`, or `None` when `s` is not a URI.
pub uninterp spec fn uri_parts(s: Seq<char>) -> Option<(Option<Seq<char>>, Option<u16>)>;

/// The bytes that the standard base64 alphabet decodes `s` to, or `None`.
pub uninterp spec fn base64_decoded(s: Seq<char>) -> Option<Seq<u8>>;

/// `s` without leading and trailing white space.
pub uninterp spec fn trimmed(s: Seq<char>) -> Seq<char>;

pub open spec fn header_view(h: (String, Vec<u8>)) -> (Seq<char>, Seq<u8>) {
    (h.0@, h.1@)
}

pub open spec fn raw_head_view(h: RawHead) -> (Seq<char>, Seq<char>, Seq<(Seq<char>, Seq<u8>)>) {
    (h.method@, h.path@, h.headers@.map_values(|p: (String, Vec<u8>)| header_view(p)))
}

/// Relies on `httparse::Request::parse` with 32 header slots: the parsed
/// method, path and header slots.
#[verifier::external_body]
fn parse_head(buf: &[u8]) -> (r: Option<RawHead>)
    ensures
        r is Some <==> http_head(buf@) is Some,
        r is Some ==> raw_head_view(r->0) == http_head(buf@)->0,
{
    let mut headers = [httparse::EMPTY_HEADER; 32];
    let mut req = httparse::Request::new(&mut headers);
    req.parse(buf).ok()?;
    Some(RawHead {
        method: req.method?.to_string(),
        path: req.path?.to_string(),
        headers: req.headers.iter().map(|h| (h.name.to_string(), h.value.to_vec())).collect(),
    })
}

pub open spec fn opt_text(o: Option<String>) -> Option<Seq<char>> {
    match o {
        Some(s) => Some(s@),
        None => None,
    }
}

pub open spec fn uri_view(p: (Option<String>, Option<u16>)) -> Option<(Option<Seq<char>>, Option<u16>)> {
    Some((opt_text(p.0), p.1))
}

/// Relies on `http::Uri::from_str` with `Uri::host` and `Uri::port_u16`.
#[verifier::external_body]
fn parse_uri(s: &str) -> (r: Option<(Option<String>, Option<u16>)>)
    ensures
        r is Some <==> uri_parts(s@) is Some,
        r is Some ==> uri_parts(s@) == uri_view(r->0),
{
    let uri = http::Uri::from_str(s).ok()?;
    Some((uri.host().map(|h| h.to_string()), uri.port_u16()))
}

/// Relies on base64's `STANDARD` engine `decode`.
#[verifier::external_body]
fn decode_base64(s: &str) -> (r: Option<Vec<u8>>)
    ensures
        r is Some <==> base64_decoded(s@) is Some,
        r is Some ==> r->0@ == base64_decoded(s@)->0,
{
    base64::engine::general_purpose::STANDARD.decode(s).ok()
}

/// Relies on `str::trim`.
#[verifier::external_body]
fn trim_text(s: &str) -> (r: String)
    ensures
        r@ == trimmed(s@),
{
    s.trim().to_string()
}

/// The two request kinds the proxy distinguishes.
#[derive(Debug, Clone, Copy, PartialEq, Eq, Structural)]
pub enum RequestType {
    Connect,
    Normal,
}

/// Which front end a connection went through.
#[derive(Debug, Clone, Copy, PartialEq, Eq, Structural)]
pub enum ProtocolType {
    Http,
    Socks5,
}

/// The request kind of an upper-cased method name.
pub open spec fn request_type_of(upper_method: Seq<char>) -> RequestType {
    if upper_method == "CONNECT"@ {
        RequestType::Connect
    } else {
        RequestType::Normal
    }
}

impl RequestType {
    /// The port used when the target names none: 443 for CONNECT, 80 otherwise.
    pub fn default_port(&self) -> (r: u16)
        ensures
            r == (if *self == RequestType::Connect { 443u16 } else { 80u16 }),
    {
        match *self {
            RequestType::Connect => 443,
            RequestType::Normal => 80,
        }
    }

    /// `Connect` for the method `CONNECT` in any case, `Normal` otherwise.
    pub fn from_method(s: &str) -> (r: RequestType)
        ensures
            r == request_type_of(upper_of(s@)),
    {
        let up = upper(s);
        if str_eq(up.as_str(), "CONNECT") {
            RequestType::Connect
        } else {
            RequestType::Normal
        }
    }
}

/// The credentials carried by a basic-auth token: base64 of `user:pass`
/// after trimming; a value that does not decode to UTF-8 text is a parse
/// error, text without exactly one `:` an invalid header.
pub open spec fn basic_credentials(token: Seq<char>) -> Result<(Seq<char>, Seq<char>), RgError> {
    match base64_decoded(trimmed(token)) {
        None => Err(RgError::ParseError),
        Some(b) => match utf8_text(b) {
            None => Err(RgError::ParseError),
            Some(t) => match split_two(t, ':') {
                Some(p) => Ok(p),
                None => Err(RgError::InvalidAuthHeader),
            },
        },
    }
}

/// Decodes a basic-auth token into `(username, password)`.
pub fn decode_basic_auth(auth: &str) -> (r: Result<(String, String), RgError>)
    ensures
        match r {
            Ok(p) => basic_credentials(auth@) == Ok::<(Seq<char>, Seq<char>), RgError>((p.0@, p.1@)),
            Err(e) => basic_credentials(auth@) == Err::<(Seq<char>, Seq<char>), RgError>(e),
        },
{
    let t = trim_text(auth);
    let bytes = match decode_base64(t.as_str()) {
        Some(b) => b,
        None => return Err(RgError::ParseError),
    };
    let text = match utf8_of(bytes.as_slice()) {
        Some(s) => s,
        None => return Err(RgError::ParseError),
    };
    match split_pair(text.as_str(), ':') {
        Some(p) => Ok(p),
        None => Err(RgError::InvalidAuthHeader),
    }
}

/// The value of the last header named `name` (names already upper-cased).
pub open spec fn last_value(ps: Seq<(Seq<char>, Seq<char>)>, name: Seq<char>) -> Option<Seq<char>>
    decreases ps.len(),
{
    if ps.len() == 0 {
        None
    } else if ps.last().0 == name {
        Some(ps.last().1)
    } else {
        last_value(ps.drop_last(), name)
    }
}

/// The credentials of a `Proxy-Authorization` value `scheme token`: the
/// value must hold exactly one space and the token must decode.
pub open spec fn auth_of_value(v: Seq<char>) -> Option<(Seq<char>, Seq<char>)> {
    match split_two(v, ' ') {
        Some(parts) => match basic_credentials(parts.1) {
            Ok(p) => Some(p),
            Err(_) => None,
        },
        None => None,
    }
}

pub open spec fn text_pairs(hs: Seq<(String, String)>) -> Seq<(Seq<char>, Seq<char>)> {
    hs.map_values(|p: (String, String)| (p.0@, p.1@))
}

/// The credentials of the last `PROXY-AUTHORIZATION` header among `headers`
/// (upper-cased name, value), if it holds usable basic credentials.
pub fn get_auth_header(headers: &Vec<(String, String)>) -> (r: Option<(String, String)>)
    ensures
        match r {
            Some(p) => {
                &&& last_value(text_pairs(headers@), "PROXY-AUTHORIZATION"@) is Some
                &&& auth_of_value(last_value(text_pairs(headers@), "PROXY-AUTHORIZATION"@)->0) == Some((p.0@, p.1@))
            },
            None => match last_value(text_pairs(headers@), "PROXY-AUTHORIZATION"@) {
                Some(v) => auth_of_value(v) is None,
                None => true,
            },
        },
{
    let mut found: Option<usize> = None;
    let mut i: usize = 0;
    while i < headers.len()
        invariant
            i <= headers@.len(),
            match found {
                Some(j) => j < i && last_value(text_pairs(headers@.subrange(0, i as int)), "PROXY-AUTHORIZATION"@)
                    == Some(headers@[j as int].1@),
                None => last_value(text_pairs(headers@.subrange(0, i as int)), "PROXY-AUTHORIZATION"@) is None,
            },
        decreases headers@.len() - i,
    {
        proof {
            let pre = headers@.subrange(0, i as int);
            let post = headers@.subrange(0, i as int + 1);
            assert(text_pairs(post).drop_last() =~= text_pairs(pre));
            assert(text_pairs(post).last() == (headers@[i as int].0@, headers@[i as int].1@));
        }
        if str_eq(headers[i].0.as_str(), "PROXY-AUTHORIZATION") {
            found = Some(i);
        }
        i = i + 1;
    }
    assert(headers@.subrange(0, headers@.len() as int) =~= headers@);
    let j = match found {
        Some(j) => j,
        None => return None,
    };
    let value = headers[j].1.as_str();
    let (_, token) = match split_pair(value, ' ') {
        Some(parts) => parts,
        None => return None,
    };
    match decode_basic_auth(token.as_str()) {
        Ok(p) => Some(p),
        Err(_) => None,
    }
}

/// The headers with a name, upper-cased, with values as text; `None` when
/// a value is not UTF-8.
pub open spec fn named_headers(hs: Seq<(Seq<char>, Seq<u8>)>) -> Option<Seq<(Seq<char>, Seq<char>)>>
    decreases hs.len(),
{
    if hs.len() == 0 {
        Some(Seq::empty())
    } else {
        match named_headers(hs.drop_last()) {
            None => None,
            Some(p) => if hs.last().0.len() == 0 {
                Some(p)
            } else {
                match utf8_text(hs.last().1) {
                    None => None,
                    Some(t) => Some(p.push((upper_of(hs.last().0), t))),
                }
            },
        }
    }
}

/// What a request head means to the proxy: its kind, target host and port,
/// and credentials; `None` when any part fails to parse.
pub struct RequestView {
    pub method: RequestType,
    pub host: Option<Seq<char>>,
    pub port: Option<u16>,
    pub auth: Option<(Seq<char>, Seq<char>)>,
}

pub open spec fn request_of(b: Seq<u8>) -> Option<RequestView> {
    match http_head(b) {
        None => None,
        Some(head) => match uri_parts(head.1) {
            None => None,
            Some(uri) => match named_headers(head.2) {
                None => None,
                Some(hs) => Some(RequestView {
                    method: request_type_of(upper_of(upper_of(head.0))),
                    host: uri.0,
                    port: uri.1,
                    auth: match last_value(hs, "PROXY-AUTHORIZATION"@) {
                        Some(v) => auth_of_value(v),
                        None => None,
                    },
                }),
            },
        },
    }
}

/// A parsed HTTP proxy request.
#[derive(Debug)]
pub struct HttpRequest {
    pub method: RequestType,
    pub host: Option<String>,
    pub port: Option<u16>,
    pub auth: Option<(String, String)>,
}

pub open spec fn opt_pair(o: Option<(String, String)>) -> Option<(Seq<char>, Seq<char>)> {
    match o {
        Some(p) => Some((p.0@, p.1@)),
        None => None,
    }
}

impl HttpRequest {
    /// What this request holds, as values.
    pub open spec fn view_of(&self) -> RequestView {
        RequestView { method: self.method, host: opt_text(self.host), port: self.port, auth: opt_pair(self.auth) }
    }

    /// Parses a request head; any part that does not parse is a `ParseError`.
    pub fn new(buf: &[u8]) -> (r: Result<HttpRequest, RgError>)
        ensures
            match r {
                Ok(req) => request_of(buf@) == Some(req.view_of()),
                Err(e) => request_of(buf@) is None && e == RgError::ParseError,
            },
    {
        let head = match parse_head(buf) {
            Some(h) => h,
            None => return Err(RgError::ParseError),
        };
        let ghost hv = raw_head_view(head);
        let method = upper(head.method.as_str());
        let uri = match parse_uri(head.path.as_str()) {
            Some(u) => u,
            None => return Err(RgError::ParseError),
        };
        let mut named: Vec<(String, String)> = Vec::new();
        let mut i: usize = 0;
        while i < head.headers.len()
            invariant
                i <= head.headers@.len(),
                hv == raw_head_view(head),
                http_head(buf@) == Some(hv),
                uri_parts(hv.1) == uri_view(uri),
                named_headers(hv.2.subrange(0, i as int)) == Some(text_pairs(named@)),
            decreases head.headers@.len() - i,
        {
            proof {
                let post = hv.2.subrange(0, i as int + 1);
                assert(post.drop_last() =~= hv.2.subrange(0, i as int));
                assert(post.last() == header_view(head.headers@[i as int]));
            }
            let name = &head.headers[i].0;
            if !name.as_str().is_empty() {
                let value = match utf8_of(head.headers[i].1.as_slice()) {
                    Some(v) => v,
                    None => {
                        proof {
                            let post = hv.2.subrange(0, i as int + 1);
                            assert(post.drop_last() =~= hv.2.subrange(0, i as int));
                            assert(post.last().0 == name@);
                            assert(post.last().1 == head.headers@[i as int].1@);
                            assert(named_headers(post) is None);
                            lemma_named_headers_fail(hv.2, i as int + 1);

                        }
                        return Err(RgError::ParseError);
                    },
                };
                let up = upper(name.as_str());
                let ghost before = named@;
                named.push((up, value));
                assert(text_pairs(named@) =~= text_pairs(before).push((upper_of(name@), value@)));
            }
            i = i + 1;
        }
        assert(hv.2.subrange(0, hv.2.len() as int) =~= hv.2);
        let auth = get_auth_header(&named);
        Ok(HttpRequest {
            method: RequestType::from_method(method.as_str()),
            host: uri.0,
            port: uri.1,
            auth,
        })
    }
}

/// Once the headers up to `n` fail to convert, every longer prefix fails too.
proof fn lemma_named_headers_fail(hs: Seq<(Seq<char>, Seq<u8>)>, n: int)
    requires
        0 <= n <= hs.len(),
        named_headers(hs.subrange(0, n)) is None,
    ensures
        named_headers(hs) is None,
    decreases hs.len() - n,
{
    if n < hs.len() {
        assert(hs.subrange(0, n + 1).drop_last() =~= hs.subrange(0, n));
        lemma_named_headers_fail(hs, n + 1);
    } else {
        assert(hs.subrange(0, n) =~= hs);
    }
}

} // verus!

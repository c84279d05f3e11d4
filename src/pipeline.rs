//! Per-connection decisions: protocol choice, authentication with the
//! bootstrap admin credentials, challenge and reply choice, target
//! selection and connect retries.
use vstd::prelude::*;
use crate::directory::{auth_decision, accepted_as, white_pass, DcAuthenticator, DirView};
use crate::error::RgError;
use crate::hostname::{canonical_host, format_hostname};
use crate::model::{id_only, UserInfo};
use crate::request::{HttpRequest, ProtocolType, RequestType};
use crate::text::{owned, str_eq};
use crate::headers::{copy_range, utf8_of, utf8_text};

verus! {

/// Username of the bootstrap admin credentials.
pub const DEFAULT_USERNAME: &'static str = "iPOasIsAdmInT0ken";
/// Password of the bootstrap admin credentials.
pub const DEFAULT_PASSWORD: &'static str = "W0rstPassw0rdEveR";

/// Reply to a CONNECT once the outbound socket is up.
pub const HTTP_SUCCESS: &'static str = "HTTP/1.1 200 OK\r\n\r\n";
/// Reply to failed credentials.
pub const HTTP_UNAUTHORIZED: &'static str = "HTTP/1.1 401 Unauthorized\r\nUnauthorized\r\n\r\n";
/// Challenge sent when credentials are missing.
pub const HTTP_AUTHENTICATION_REQUIRED: &'static str = "HTTP/1.1 407 Proxy Authentication Required\r\nProxy-Authenticate: Basic realm=\"Proxy-Login\"\r\n\r\n";
/// Reply to a request that the ACL refuses.
pub const HTTP_FORBIDDEN: &'static str = "HTTP/1.1 403 Forbidden\r\n\r\n";

/// The SOCKS protocol version byte.
pub const SOCKS5_VERSION: u8 = 5;
/// How many times connecting to the target is tried.
pub const RETRY_LIMIT: u32 = 3;

/// Which front end serves a connection.
#[derive(Debug, Clone, Copy, PartialEq, Eq, Structural)]
pub enum Sock5OrHttp {
    Sock5,
    Http,
}

/// The front end chosen by the first byte: SOCKS5 for the version byte 5,
/// HTTP for anything else.
pub fn socks5_or_http(first: u8) -> (r: Sock5OrHttp)
    ensures
        r == (if first == 5 { Sock5OrHttp::Sock5 } else { Sock5OrHttp::Http }),
{
    if first == SOCKS5_VERSION {
        Sock5OrHttp::Sock5
    } else {
        Sock5OrHttp::Http
    }
}

/// Whether the client is white: its address is the white IP of an
/// available user that authenticates by IP, or the allowlist holds an
/// entry for its address alone.
pub fn check_is_white(auth: &DcAuthenticator, remote_ip: &str) -> (r: bool)
    ensures
        r == (white_pass(auth@, remote_ip@) is Some || auth@.white.contains_key(remote_ip@)),
{
    if let Some(user_info) = auth.user_map_get(remote_ip) {
        if user_info.available && str_eq(user_info.auth_type.as_str(), "IP")
            && str_eq(remote_ip, user_info.white_ip.as_str()) {
            return true;
        }
    }
    auth.check_white_list(remote_ip).is_some()
}

/// The decision including the bootstrap admin credentials: when enabled
/// they are accepted as the default user for a client whose address the
/// allowlist does not name.
pub open spec fn login_decision(
    d: DirView,
    admin_enabled: bool,
    username: Seq<char>,
    password: Seq<char>,
    local_ip: Seq<char>,
    remote_ip: Seq<char>,
    is_white: bool,
) -> Option<(u64, u64)> {
    if admin_enabled && !d.stock.contains(remote_ip) && username == DEFAULT_USERNAME@
        && password == DEFAULT_PASSWORD@ {
        Some((0u64, 0u64))
    } else {
        auth_decision(d, username, password, local_ip, remote_ip, is_white)
    }
}

/// Authenticates credentials, accepting the bootstrap admin credentials
/// when `admin_enabled` and the client's address is not allowlisted.
pub fn check_user_auth(
    auth: &DcAuthenticator,
    admin_enabled: bool,
    local_ip: &str,
    remote_ip: &str,
    is_white: bool,
    username: &str,
    password: &str,
) -> (r: (bool, UserInfo))
    ensures
        r.0 == login_decision(auth@, admin_enabled, username@, password@, local_ip@, remote_ip@, is_white) is Some,
        r.0 ==> accepted_as(r.1, login_decision(auth@, admin_enabled, username@, password@, local_ip@, remote_ip@, is_white)),
        !r.0 ==> id_only(r.1, 0, 0),
{
    if admin_enabled && !auth.in_stock(remote_ip) && str_eq(DEFAULT_USERNAME, username)
        && str_eq(DEFAULT_PASSWORD, password) {
        return (true, UserInfo::default());
    }
    auth.check_auth(username, password, local_ip, remote_ip, is_white)
}

/// Whether a non-white client that sent no credentials must be challenged
/// with `407` before its request is read again.
pub fn needs_challenge(is_white: bool, req: &HttpRequest) -> (r: bool)
    ensures
        r == (!is_white && req.auth is None),
{
    !is_white && req.auth.is_none()
}

/// The credentials an HTTP request is judged by: none for a white client,
/// else those of its `Proxy-Authorization` header, else empty ones.
pub open spec fn http_credentials(is_white: bool, req: HttpRequest) -> (Seq<char>, Seq<char>) {
    if is_white {
        (Seq::empty(), Seq::empty())
    } else {
        match req.auth {
            Some(p) => (p.0@, p.1@),
            None => (Seq::empty(), Seq::empty()),
        }
    }
}

/// Authenticates an HTTP request: the identity on success, `AuthFailed`
/// (answered with `401`) otherwise.
pub fn http_check_user_auth(
    auth: &DcAuthenticator,
    admin_enabled: bool,
    req: &HttpRequest,
    local_ip: &str,
    remote_ip: &str,
    is_white: bool,
) -> (r: Result<UserInfo, RgError>)
    ensures
        ({
            let c = http_credentials(is_white, *req);
            let d = login_decision(auth@, admin_enabled, c.0, c.1, local_ip@, remote_ip@, is_white);
            match r {
                Ok(u) => accepted_as(u, d),
                Err(e) => d is None && e == RgError::AuthFailed,
            }
        }),
{
    let (username, password) = if is_white {
        (String::new(), String::new())
    } else {
        match &req.auth {
            Some(p) => (p.0.clone(), p.1.clone()),
            None => (String::new(), String::new()),
        }
    };
    let (valid, user_info) = check_user_auth(
        auth,
        admin_enabled,
        local_ip,
        remote_ip,
        is_white,
        username.as_str(),
        password.as_str(),
    );
    if valid {
        Ok(user_info)
    } else {
        Err(RgError::AuthFailed)
    }
}

/// Where a request goes: its host (empty when the target names none) and
/// its port (the default of its kind when the target names none).
pub fn target_of(req: &HttpRequest) -> (r: (String, u16))
    ensures
        r.0@ == (match req.host {
            Some(h) => h@,
            None => Seq::empty(),
        }),
        r.1 == (match req.port {
            Some(p) => p,
            None => if req.method == RequestType::Connect { 443u16 } else { 80u16 },
        }),
{
    let host = match &req.host {
        Some(h) => owned(h.as_str()),
        None => String::new(),
    };
    let port = match req.port {
        Some(p) => p,
        None => req.method.default_port(),
    };
    (host, port)
}

/// The host name under which a request's traffic is reported.
pub fn report_host(req: &HttpRequest) -> (r: String)
    ensures
        r@ == canonical_host(match req.host {
            Some(h) => h@,
            None => Seq::empty(),
        }),
{
    let (host, _) = target_of(req);
    format_hostname(host.as_str())
}

/// What the HTTP front end does once a client is authenticated.
#[derive(Debug, Clone, Copy, PartialEq, Eq, Structural)]
pub enum HttpVerdict {
    /// Answer `403` and close.
    Forbidden,
    /// Answer `200` once connected, then relay raw bytes.
    Tunnel,
    /// Forward the request without its proxy headers, then relay with the
    /// header filter on the client-to-server direction.
    Relay,
}

/// The verdict from the ACL's answer and the request kind.
pub fn http_verdict(acl_allows: bool, method: RequestType) -> (r: HttpVerdict)
    ensures
        r == (if !acl_allows {
            HttpVerdict::Forbidden
        } else if method == RequestType::Connect {
            HttpVerdict::Tunnel
        } else {
            HttpVerdict::Relay
        }),
{
    if !acl_allows {
        HttpVerdict::Forbidden
    } else {
        match method {
            RequestType::Connect => HttpVerdict::Tunnel,
            RequestType::Normal => HttpVerdict::Relay,
        }
    }
}

/// HTTP CONNECT counts as HTTPS, other HTTP requests as HTTP, SOCKS5 as SOCKS5.
pub fn get_stat_request_type(protocol: ProtocolType, method: RequestType) -> (r: crate::stats::RequestType)
    ensures
        r == (match protocol {
            ProtocolType::Http => if method == RequestType::Connect {
                crate::stats::RequestType::Https
            } else {
                crate::stats::RequestType::Http
            },
            ProtocolType::Socks5 => crate::stats::RequestType::Socks5,
        }),
{
    match protocol {
        ProtocolType::Http => match method {
            RequestType::Connect => crate::stats::RequestType::Https,
            RequestType::Normal => crate::stats::RequestType::Http,
        },
        ProtocolType::Socks5 => crate::stats::RequestType::Socks5,
    }
}

/// Whether to try connecting again after `failures` failed attempts.
pub fn should_retry_connect(failures: u32) -> (r: bool)
    ensures
        r == (failures < 3),
{
    failures < RETRY_LIMIT
}

/// SOCKS5 method `NO AUTHENTICATION REQUIRED`.
pub const SOCKS5_NO_AUTH: u8 = 0;
/// SOCKS5 method `USERNAME/PASSWORD`.
pub const SOCKS5_USER_PASS: u8 = 2;
/// Username/password sub-negotiation status: success.
pub const SOCKS5_AUTH_SUCCEEDED: u8 = 0;
/// Username/password sub-negotiation status: failure.
pub const SOCKS5_AUTH_FAILED: u8 = 0xFF;
/// SOCKS5 command `CONNECT`.
pub const SOCKS5_CMD_CONNECT: u8 = 1;
/// SOCKS5 reply `succeeded`.
pub const SOCKS5_REPLY_SUCCEEDED: u8 = 0;
/// SOCKS5 reply `connection not allowed by ruleset`.
pub const SOCKS5_REPLY_NOT_ALLOWED: u8 = 2;
/// SOCKS5 reply `command not supported`.
pub const SOCKS5_REPLY_COMMAND_NOT_SUPPORTED: u8 = 7;

/// The method offered to a SOCKS5 client: none for a white client,
/// username/password otherwise.
pub fn socks5_auth_method(is_white: bool) -> (r: u8)
    ensures
        r == (if is_white { 0u8 } else { 2u8 }),
{
    if is_white {
        SOCKS5_NO_AUTH
    } else {
        SOCKS5_USER_PASS
    }
}

/// SOCKS5 method `NO ACCEPTABLE METHODS`.
pub const SOCKS5_NO_ACCEPTABLE_METHOD: u8 = 0xFF;

/// The method selected from those a SOCKS5 client offered: the method this
/// client must use (none for a white client, username/password otherwise)
/// when offered, else "no acceptable methods" (0xFF), after which the
/// connection is closed.
pub fn socks5_select_method(is_white: bool, offered: &Vec<u8>) -> (r: u8)
    ensures
        r == (if offered@.contains(if is_white { 0u8 } else { 2u8 }) {
            if is_white { 0u8 } else { 2u8 }
        } else {
            0xFFu8
        }),
{
    let wanted = socks5_auth_method(is_white);
    let mut i: usize = 0;
    while i < offered.len()
        invariant
            i <= offered@.len(),
            wanted == (if is_white { 0u8 } else { 2u8 }),
            forall|j: int| 0 <= j < i ==> offered@[j] != wanted,
        decreases offered@.len() - i,
    {
        if offered[i] == wanted {
            return wanted;
        }
        i = i + 1;
    }
    SOCKS5_NO_ACCEPTABLE_METHOD
}

/// Runs the username/password sub-negotiation's check: the identity when
/// accepted, and the status byte to send (0 on success, 0xFF on failure,
/// after which the connection is closed).
pub fn socks5_check_credentials(
    auth: &DcAuthenticator,
    admin_enabled: bool,
    local_ip: &str,
    remote_ip: &str,
    username: &str,
    password: &str,
) -> (r: (u8, Result<UserInfo, RgError>))
    ensures
        ({
            let d = login_decision(auth@, admin_enabled, username@, password@, local_ip@, remote_ip@, false);
            match r.1 {
                Ok(u) => r.0 == 0 && accepted_as(u, d),
                Err(e) => r.0 == 0xFF && d is None && e == RgError::AuthFailed,
            }
        }),
{
    let (valid, user) = check_user_auth(auth, admin_enabled, local_ip, remote_ip, false, username, password);
    if valid {
        (SOCKS5_AUTH_SUCCEEDED, Ok(user))
    } else {
        (SOCKS5_AUTH_FAILED, Err(RgError::AuthFailed))
    }
}

/// The reply to a SOCKS5 request: `UnsupportedCommand` for anything but
/// CONNECT; for CONNECT, success when the ACL allows it and `ForbiddenRequest`
/// otherwise. The byte is the reply code to send.
pub fn socks5_request_reply(command: u8, acl_allows: bool) -> (r: (u8, Result<(), RgError>))
    ensures
        r == (if command != 1 {
            (7u8, Err::<(), RgError>(RgError::UnsupportedCommand))
        } else if !acl_allows {
            (2u8, Err::<(), RgError>(RgError::ForbiddenRequest))
        } else {
            (0u8, Ok::<(), RgError>(()))
        }),
{
    if command != SOCKS5_CMD_CONNECT {
        (SOCKS5_REPLY_COMMAND_NOT_SUPPORTED, Err(RgError::UnsupportedCommand))
    } else if !acl_allows {
        (SOCKS5_REPLY_NOT_ALLOWED, Err(RgError::ForbiddenRequest))
    } else {
        (SOCKS5_REPLY_SUCCEEDED, Ok(()))
    }
}

/// What reading a request head should do after a read of `n` bytes, with
/// `buf` holding everything read so far (the new bytes included).
#[derive(Debug, Clone, Copy, PartialEq, Eq, Structural)]
pub enum ReadStep {
    /// The peer closed before the head was complete.
    Empty,
    /// The head is complete.
    Done,
    /// Read again.
    More,
}

/// Whether `b` ends with the blank line `\r\n\r\n`.
pub open spec fn ends_with_blank_line(b: Seq<u8>) -> bool {
    b.len() >= 4 && b.subrange(b.len() - 4, b.len() as int) == seq![13u8, 10u8, 13u8, 10u8]
}

/// Size of one read while collecting a request head.
pub const READ_CHUNK: usize = 4096;

/// A read of zero bytes ends the head as empty; a head that ends with a
/// blank line, or a short read, is complete; otherwise read again.
pub fn read_step(buf: &Vec<u8>, n: usize) -> (r: ReadStep)
    ensures
        r == (if n == 0 {
            ReadStep::Empty
        } else if ends_with_blank_line(buf@) || n < 4096 {
            ReadStep::Done
        } else {
            ReadStep::More
        }),
{
    if n == 0 {
        return ReadStep::Empty;
    }
    let len = buf.len();
    let blank = len >= 4 && buf[len - 4] == 13u8 && buf[len - 3] == 10u8 && buf[len - 2] == 13u8
        && buf[len - 1] == 10u8;
    proof {
        if len >= 4 {
            let t = buf@.subrange(len - 4, len as int);
            if blank {
                assert(t =~= seq![13u8, 10u8, 13u8, 10u8]);
            } else {
                if t == seq![13u8, 10u8, 13u8, 10u8] {
                    assert(t[0] == buf@[len - 4]);
                    assert(t[1] == buf@[len - 3]);
                    assert(t[2] == buf@[len - 2]);
                    assert(t[3] == buf@[len - 1]);
                }
            }
        }
    }
    if blank || n < READ_CHUNK {
        ReadStep::Done
    } else {
        ReadStep::More
    }
}

/// Progress of reading a username/password sub-negotiation request
/// (`VER ULEN UNAME PLEN PASSWD`, version 1).
#[derive(Debug)]
pub enum UserPassParse {
    /// More bytes are needed.
    Incomplete,
    /// Not a version-1 request, or the name or password is not UTF-8.
    Invalid,
    /// The username and password.
    Done(String, String),
}

/// The username/password request held at the start of `b`, with the
/// username and password as bytes; `None` while incomplete or when the
/// version is not 1 (see `user_pass_state`).
pub open spec fn user_pass_fields(b: Seq<u8>) -> Option<(Seq<u8>, Seq<u8>)> {
    if b.len() >= 2 && b[0] == 1u8 && b.len() >= 3 + b[1] && b.len() >= 3 + b[1] + b[2 + b[1] as int] {
        let ulen = b[1] as int;
        let plen = b[2 + ulen] as int;
        Some((b.subrange(2, 2 + ulen), b.subrange(3 + ulen, 3 + ulen + plen)))
    } else {
        None
    }
}

pub open spec fn name_bytes(f: (Seq<u8>, Seq<u8>)) -> Seq<u8> {
    f.0
}

pub open spec fn pass_bytes(f: (Seq<u8>, Seq<u8>)) -> Seq<u8> {
    f.1
}

/// Whether `b` is a request with a bad version byte.
pub open spec fn user_pass_bad_version(b: Seq<u8>) -> bool {
    b.len() >= 1 && b[0] != 1u8
}

/// Reads a username/password request from the bytes received so far.
pub fn parse_user_pass(buf: &[u8]) -> (r: UserPassParse)
    ensures
        match r {
            UserPassParse::Incomplete => !user_pass_bad_version(buf@) && user_pass_fields(buf@) is None,
            UserPassParse::Invalid => user_pass_bad_version(buf@) || ({
                let f = user_pass_fields(buf@);
                &&& f is Some
                &&& (utf8_text(name_bytes(f->0)) is None || utf8_text(pass_bytes(f->0)) is None)
            }),
            UserPassParse::Done(u, p) => {
                let f = user_pass_fields(buf@);
                &&& f is Some
                &&& utf8_text(name_bytes(f->0)) == Some(u@)
                &&& utf8_text(pass_bytes(f->0)) == Some(p@)
            },
        },
{
    let n = buf.len();
    if n >= 1 && buf[0] != 1u8 {
        return UserPassParse::Invalid;
    }
    if n < 2 {
        return UserPassParse::Incomplete;
    }
    let ulen = buf[1] as usize;
    if n < 3 + ulen {
        return UserPassParse::Incomplete;
    }
    let plen = buf[2 + ulen] as usize;
    if n < 3 + ulen + plen {
        return UserPassParse::Incomplete;
    }
    let name = copy_range(buf, 2, 2 + ulen);
    let pass = copy_range(buf, 3 + ulen, 3 + ulen + plen);
    let u = match utf8_of(name.as_slice()) {
        Some(u) => u,
        None => return UserPassParse::Invalid,
    };
    let p = match utf8_of(pass.as_slice()) {
        Some(p) => p,
        None => return UserPassParse::Invalid,
    };
    UserPassParse::Done(u, p)
}

/// The reply to a username/password request: version 1, then the status.
pub fn user_pass_reply(status: u8) -> (r: Vec<u8>)
    ensures
        r@ == seq![1u8, status],
{
    let r = vec![1u8, status];
    r
}

} // verus!

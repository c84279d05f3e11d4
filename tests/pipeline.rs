use rg_proxy::acl::{AclRule, BlackListAclRule, DefaultAclRule};
use rg_proxy::directory::DcAuthenticator;
use rg_proxy::error::RgError;
use rg_proxy::headers::remove_headers;
use rg_proxy::model::{TrafficInfo, UserInfo};
use rg_proxy::stats::RequestType as StatRequestType;
use rg_proxy::pipeline::{
    get_stat_request_type, http_verdict, needs_challenge, read_step, report_host, should_retry_connect,
    socks5_or_http, socks5_request_reply, target_of, HttpVerdict, ReadStep, Sock5OrHttp,
    HTTP_AUTHENTICATION_REQUIRED, HTTP_FORBIDDEN, HTTP_SUCCESS, HTTP_UNAUTHORIZED,
};
use rg_proxy::request::{decode_basic_auth, get_auth_header, HttpRequest, ProtocolType, RequestType};
use rg_proxy::tunnel::{copy_step, traffic_event, CopyAction, CopyEvent, CopyMeter, TunnelState};

#[test]
fn wire_replies_are_exact() {
    assert_eq!(HTTP_SUCCESS.as_bytes(), b"HTTP/1.1 200 OK\r\n\r\n");
    assert_eq!(HTTP_UNAUTHORIZED.as_bytes(), b"HTTP/1.1 401 Unauthorized\r\nUnauthorized\r\n\r\n");
    assert_eq!(
        HTTP_AUTHENTICATION_REQUIRED.as_bytes(),
        b"HTTP/1.1 407 Proxy Authentication Required\r\nProxy-Authenticate: Basic realm=\"Proxy-Login\"\r\n\r\n"
    );
    assert_eq!(HTTP_FORBIDDEN.as_bytes(), b"HTTP/1.1 403 Forbidden\r\n\r\n");
}

#[test]
fn connect_request_parses_target_and_credentials() {
    let req = HttpRequest::new(b"CONNECT www.example.com:443 HTTP/1.1\r\nProxy-Authorization: Basic dXNlcjpwYXNz\r\n\r\n").unwrap();
    assert_eq!(req.method, RequestType::Connect);
    assert_eq!(req.auth, Some(("user".to_string(), "pass".to_string())));
    assert_eq!(target_of(&req), ("www.example.com".to_string(), 443));
    assert_eq!(http_verdict(true, req.method), HttpVerdict::Tunnel);
    assert_eq!(report_host(&req), "www.example.com");
}

#[test]
fn get_without_credentials_is_challenged_then_relayed() {
    let first = HttpRequest::new(b"GET http://a.com/ HTTP/1.1\r\n\r\n").unwrap();
    assert_eq!(first.method, RequestType::Normal);
    assert!(needs_challenge(false, &first));
    assert!(!needs_challenge(true, &first));
    let again: &[u8] = b"GET http://a.com/ HTTP/1.1\r\nHost: a.com\r\nProxy-Authorization: Basic dXNlcjpwYXNz\r\nproxy-connection: keep-alive\r\n\r\n";
    let second = HttpRequest::new(again).unwrap();
    assert!(!needs_challenge(false, &second));
    assert_eq!(target_of(&second), ("a.com".to_string(), 80));
    assert_eq!(http_verdict(true, second.method), HttpVerdict::Relay);
    assert_eq!(remove_headers(again, "PROXY"), b"GET http://a.com/ HTTP/1.1\r\nHost: a.com\r\n\r\n".to_vec());
}

#[test]
fn method_case_is_ignored() {
    assert_eq!(RequestType::from_method("connect"), RequestType::Connect);
    assert_eq!(RequestType::from_method("Get"), RequestType::Normal);
    assert_eq!(RequestType::Connect.default_port(), 443);
    assert_eq!(RequestType::Normal.default_port(), 80);
}

#[test]
fn malformed_requests_are_parse_errors() {
    assert_eq!(HttpRequest::new(b"\x00\x01garbage\r\n\r\n").unwrap_err(), RgError::ParseError);
    assert_eq!(HttpRequest::new(b"GET http://a b/ HTTP/1.1\r\n\r\n").unwrap_err(), RgError::ParseError);
    assert_eq!(HttpRequest::new(b"GET / HTTP/1.1\r\nX: \xff\r\n\r\n").unwrap_err(), RgError::ParseError);
}

#[test]
fn at_most_32_headers_are_accepted() {
    let mut head = b"GET http://a.com/ HTTP/1.1\r\n".to_vec();
    for i in 0..32 {
        head.extend_from_slice(format!("X-{}: v\r\n", i).as_bytes());
    }
    let mut over = head.clone();
    head.extend_from_slice(b"\r\n");
    assert!(HttpRequest::new(&head).is_ok());
    over.extend_from_slice(b"X-last: v\r\n\r\n");
    assert_eq!(HttpRequest::new(&over).unwrap_err(), RgError::ParseError);
}

#[test]
fn basic_auth_decoding() {
    assert_eq!(decode_basic_auth(" dXNlcjpwYXNz "), Ok(("user".to_string(), "pass".to_string())));
    assert_eq!(decode_basic_auth("***"), Err(RgError::ParseError));
    assert_eq!(decode_basic_auth("dXNlcg=="), Err(RgError::InvalidAuthHeader));
    assert_eq!(decode_basic_auth("/w=="), Err(RgError::ParseError));
    let headers = vec![
        ("PROXY-AUTHORIZATION".to_string(), "Basic dXNlcjpwYXNz".to_string()),
        ("HOST".to_string(), "a".to_string()),
    ];
    assert_eq!(get_auth_header(&headers), Some(("user".to_string(), "pass".to_string())));
    let headers = vec![("PROXY-AUTHORIZATION".to_string(), "dXNlcjpwYXNz".to_string())];
    assert_eq!(get_auth_header(&headers), None);
}

#[test]
fn header_stripping_is_idempotent() {
    let x: &[u8] = b"GET / HTTP/1.1\r\nProxy-A: 1\r\nHost: h\r\nPROXY-B: 2\r\ntail";
    let once = remove_headers(x, "PROXY");
    assert_eq!(once, b"GET / HTTP/1.1\r\nHost: h\r\ntail".to_vec());
    assert_eq!(remove_headers(&once, "PROXY"), once);
}

#[test]
fn non_utf8_lines_are_dropped() {
    let x: &[u8] = b"a\r\n\xff\xfe\r\nb\r\n";
    assert_eq!(remove_headers(x, "PROXY"), b"a\r\nb\r\n".to_vec());
}

#[test]
fn forbidden_by_acl() {
    let mut acl = BlackListAclRule::new();
    acl.block_host("blocked.example");
    let user = UserInfo::default();
    assert!(!acl.check(&user, "blocked.example", "10.0.0.1"));
    assert!(acl.check(&user, "ok.example", "10.0.0.1"));
    assert_eq!(http_verdict(false, RequestType::Connect), HttpVerdict::Forbidden);
    assert_eq!(socks5_request_reply(1, false), (2, Err(RgError::ForbiddenRequest)));
    assert_eq!(socks5_request_reply(1, true), (0, Ok(())));
    assert_eq!(socks5_request_reply(2, true), (7, Err(RgError::UnsupportedCommand)));
}

#[test]
fn acl_user_and_ip_rules() {
    let mut acl = BlackListAclRule::new();
    acl.block_user_host(42, "x.com");
    acl.block_ip_host("10.0.0.1", "y.com");
    let u42 = UserInfo::id_record(42, 0);
    let u7 = UserInfo::id_record(7, 0);
    assert!(!acl.check(&u42, "x.com", "10.0.0.2"));
    assert!(acl.check(&u7, "x.com", "10.0.0.2"));
    assert!(!acl.check(&u7, "y.com", "10.0.0.1"));
    assert!(acl.check(&u7, "y.com", "10.0.0.2"));
    assert!(DefaultAclRule.check(&u7, "y.com", "10.0.0.1"));
}

#[test]
fn demux_by_first_byte() {
    assert_eq!(socks5_or_http(5), Sock5OrHttp::Sock5);
    assert_eq!(socks5_or_http(b'G'), Sock5OrHttp::Http);
    assert_eq!(socks5_or_http(b'C'), Sock5OrHttp::Http);
}

#[test]
fn request_kinds_for_statistics() {
    assert_eq!(get_stat_request_type(ProtocolType::Http, RequestType::Connect), StatRequestType::Https);
    assert_eq!(get_stat_request_type(ProtocolType::Http, RequestType::Normal), StatRequestType::Http);
    assert_eq!(get_stat_request_type(ProtocolType::Socks5, RequestType::Normal), StatRequestType::Socks5);
}

#[test]
fn read_steps() {
    assert_eq!(read_step(&vec![], 0), ReadStep::Empty);
    assert_eq!(read_step(&b"GET / HTTP/1.1\r\n\r\n".to_vec(), 18), ReadStep::Done);
    assert_eq!(read_step(&vec![b'a'; 4096], 4096), ReadStep::More);
    let mut full = vec![b'a'; 4092];
    full.extend_from_slice(b"\r\n\r\n");
    assert_eq!(read_step(&full, 4096), ReadStep::Done);
}

#[test]
fn connect_is_tried_three_times() {
    assert!(should_retry_connect(0));
    assert!(should_retry_connect(2));
    assert!(!should_retry_connect(3));
}

#[test]
fn copy_steps() {
    match copy_step(true, CopyEvent::Data(b"Proxy-X: 1\r\nA: b\r\n".to_vec())) {
        CopyAction::Write(w) => assert_eq!(w, b"A: b\r\n".to_vec()),
        other => panic!("unexpected {:?}", other),
    }
    match copy_step(false, CopyEvent::Data(b"Proxy-X: 1\r\n".to_vec())) {
        CopyAction::Write(w) => assert_eq!(w, b"Proxy-X: 1\r\n".to_vec()),
        other => panic!("unexpected {:?}", other),
    }
    assert!(matches!(copy_step(false, CopyEvent::Eof), CopyAction::LingerThenExit(50)));
    assert!(matches!(copy_step(false, CopyEvent::Cancelled), CopyAction::Exit));
    assert!(matches!(copy_step(false, CopyEvent::Failed), CopyAction::Exit));
}

#[test]
fn traffic_records_carry_written_bytes() {
    let user = UserInfo::id_record(3, 30);
    let writes = [(100u64, true), (7u64, false), (0u64, true), (51200u64, false)];
    let mut carried = 0u64;
    for (n, up) in writes {
        let t = traffic_event(&user, "example.com", "10.0.0.1", "9.9.9.9", n, up);
        assert_eq!((t.user_id, t.user_plan_id), (3, 30));
        carried += t.upload + t.download;
    }
    assert_eq!(carried, 100 + 7 + 51200);
    let t = TrafficInfo::new(1, 2, "h", 5, false, "r", "l");
    assert_eq!((t.upload, t.download), (0, 5));
    assert_eq!(t.get_key(), "h-l-r");
}

#[test]
fn first_exit_fires_the_canceller() {
    let mut t = TunnelState::new();
    assert!(t.direction_exited(true));
    assert!(!t.finished());
    assert!(!t.direction_exited(false));
    assert!(t.finished());
}

#[test]
fn directory_is_a_plain_value_between_updates() {
    let mut d = DcAuthenticator::new();
    assert!(!d.check_auth("u", "p", "l", "r", false).0);
    d.update_all(vec![UserInfo::new(1, 1, "u", "p", "", "PASSWORD", vec!["l".to_string()])]);
    assert!(d.check_auth("u", "p", "l", "r", false).0);
    d.update_all(vec![]);
    assert!(!d.check_auth("u", "p", "l", "r", false).0);
}

#[test]
fn meter_reports_each_write_once() {
    let user = UserInfo::id_record(9, 90);
    let mut up = CopyMeter::new(true);
    let a = up.written(&user, "h", "l", "r", 10);
    let b = up.written(&user, "h", "l", "r", 0);
    assert_eq!((a.upload, a.download, b.upload), (10, 0, 0));
    let mut down = CopyMeter::new(false);
    let c = down.written(&user, "h", "l", "r", 7);
    assert_eq!((c.upload, c.download, c.user_id), (0, 7, 9));
}

use rg_proxy::directory::{DcAuthenticator, DefaultAuthenticator};
use rg_proxy::error::RgError;
use rg_proxy::model::{UserInfo, WhiteListData};
use rg_proxy::pipeline::{
    check_is_white, check_user_auth, http_check_user_auth, needs_challenge, socks5_auth_method, socks5_select_method,
    socks5_check_credentials, DEFAULT_PASSWORD, DEFAULT_USERNAME,
};
use rg_proxy::request::HttpRequest;

fn password_user(id: u64, name: &str, pass: &str, local_ip: &str) -> UserInfo {
    UserInfo::new(id, id * 10, name, pass, "", "PASSWORD", vec![local_ip.to_string()])
}

fn directory() -> DcAuthenticator {
    let mut d = DcAuthenticator::new();
    d.update_all(vec![
        password_user(1, "user", "pass", "10.0.0.1"),
        UserInfo::new(2, 20, "", "", "1.2.3.4", "IP", vec!["10.0.0.1".to_string()]),
    ]);
    d
}

#[test]
fn index_holds_every_local_ip_and_white_ip() {
    let d = directory();
    assert_eq!(d.user_map_get("10.0.0.1-user").map(|u| u.user_id), Some(1));
    assert_eq!(d.user_map_get("1.2.3.4").map(|u| u.user_id), Some(2));
    assert_eq!(d.user_map_get("10.0.0.2-user"), None);
    assert_eq!(d.user(2).map(|u| u.user_plan_id), Some(20));
}

#[test]
fn later_user_wins_a_shared_key() {
    let mut d = DcAuthenticator::new();
    d.update_all(vec![password_user(1, "user", "a", "10.0.0.1"), password_user(3, "user", "b", "10.0.0.1")]);
    assert_eq!(d.user_map_get("10.0.0.1-user").map(|u| u.user_id), Some(3));
}

#[test]
fn password_path_accepts_matching_credentials() {
    let d = directory();
    let (ok, info) = d.check_auth("user", "pass", "10.0.0.1", "9.9.9.9", false);
    assert!(ok);
    assert_eq!((info.user_id, info.user_plan_id), (1, 10));
    assert_eq!(info.username, "");
    let (ok, info) = d.check_auth("user", "wrong", "10.0.0.1", "9.9.9.9", false);
    assert!(!ok);
    assert_eq!(info, UserInfo::default());
    let (ok, _) = d.check_auth("user", "pass", "10.0.0.2", "9.9.9.9", false);
    assert!(!ok);
}

#[test]
fn white_path_accepts_ip_user() {
    let d = directory();
    assert!(check_is_white(&d, "1.2.3.4"));
    assert!(!check_is_white(&d, "1.2.3.5"));
    let (ok, info) = d.check_auth("", "", "10.0.0.1", "1.2.3.4", true);
    assert!(ok);
    assert_eq!(info.user_id, 2);
}

#[test]
fn disabled_user_is_refused_and_enabled_again() {
    let mut d = directory();
    d.disable_user(1);
    assert!(!d.check_auth("user", "pass", "10.0.0.1", "9.9.9.9", false).0);
    d.enable_user(1);
    assert!(d.check_auth("user", "pass", "10.0.0.1", "9.9.9.9", false).0);
    d.disable_user(99);
    assert_eq!(d.user(99), None);
}

#[test]
fn allowlist_default_user_ignores_directory() {
    let mut d = DcAuthenticator::new();
    d.update_white_list(vec![WhiteListData::new_default_id("5.5.5.5", "guest", "secret")]);
    let (ok, info) = d.check_auth("guest", "secret", "10.0.0.1", "5.5.5.5", false);
    assert!(ok);
    assert_eq!(info, UserInfo::default());
    assert_eq!(d.check_white_list("5.5.5.5-guest-secret"), Some(0));
    assert!(d.in_stock("5.5.5.5"));
    assert!(!d.in_stock("5.5.5.6"));
}

#[test]
fn allowlist_entry_for_password_user() {
    let mut d = directory();
    d.update_white_list(vec![
        WhiteListData::new_with_id("6.6.6.6", "alice", "pw", 1),
        WhiteListData::new_with_id("7.7.7.7", "", "", 2),
    ]);
    let (ok, info) = d.check_auth("alice", "pw", "10.0.0.9", "6.6.6.6", false);
    assert!(ok);
    assert_eq!(info.user_id, 1);
    assert_eq!(d.check_white_list("7.7.7.7"), Some(2));
}

#[test]
fn upsert_indexes_by_username_or_white_ip() {
    let mut d = DcAuthenticator::new();
    d.update_user_info(password_user(4, "bob", "pw", "10.0.0.3"));
    assert_eq!(d.user_map_get("10.0.0.3-bob").map(|u| u.user_id), Some(4));
    d.update_user_info(UserInfo::new(5, 50, "", "", "3.3.3.3", "IP", vec!["10.0.0.3".to_string()]));
    assert_eq!(d.user_map_get("3.3.3.3").map(|u| u.user_id), Some(5));
}

#[test]
fn admin_credentials_only_for_unlisted_clients() {
    let mut d = directory();
    let (ok, info) = check_user_auth(&d, true, "10.0.0.1", "8.8.8.8", false, DEFAULT_USERNAME, DEFAULT_PASSWORD);
    assert!(ok);
    assert_eq!(info.user_id, 0);
    let (ok, _) = check_user_auth(&d, false, "10.0.0.1", "8.8.8.8", false, DEFAULT_USERNAME, DEFAULT_PASSWORD);
    assert!(!ok);
    d.update_white_list(vec![WhiteListData::new_with_id("8.8.8.8", "x", "y", 1)]);
    let (ok, _) = check_user_auth(&d, true, "10.0.0.1", "8.8.8.8", false, DEFAULT_USERNAME, DEFAULT_PASSWORD);
    assert!(!ok);
}

#[test]
fn http_connect_with_valid_password() {
    let d = directory();
    let req = HttpRequest::new(b"CONNECT www.example.com:443 HTTP/1.1\r\nProxy-Authorization: Basic dXNlcjpwYXNz\r\n\r\n").unwrap();
    assert!(!needs_challenge(false, &req));
    let user = http_check_user_auth(&d, true, &req, "10.0.0.1", "9.9.9.9", false).unwrap();
    assert_eq!(user.user_id, 1);
}

#[test]
fn http_failed_credentials_are_auth_failed() {
    let d = directory();
    let req = HttpRequest::new(b"GET http://a.com/ HTTP/1.1\r\nProxy-Authorization: Basic dXNlcjp4\r\n\r\n").unwrap();
    assert_eq!(http_check_user_auth(&d, true, &req, "10.0.0.1", "9.9.9.9", false).unwrap_err(), RgError::AuthFailed);
}

#[test]
fn socks5_whitelisted_client_gets_no_auth() {
    let d = directory();
    let white = check_is_white(&d, "1.2.3.4");
    assert_eq!(socks5_auth_method(white), 0);
    assert_eq!(socks5_auth_method(false), 2);
}

#[test]
fn socks5_bad_credentials_fail_with_ff() {
    let d = directory();
    let (status, res) = socks5_check_credentials(&d, true, "10.0.0.1", "9.9.9.9", "user", "bad");
    assert_eq!(status, 0xFF);
    assert_eq!(res.unwrap_err(), RgError::AuthFailed);
    let (status, res) = socks5_check_credentials(&d, true, "10.0.0.1", "9.9.9.9", "user", "pass");
    assert_eq!(status, 0);
    assert_eq!(res.unwrap().user_id, 1);
}

#[test]
fn default_authenticator_accepts_everyone() {
    let a = DefaultAuthenticator;
    let (ok, info) = a.check_auth("x", "y", "1.1.1.1", "2.2.2.2", false);
    assert!(ok);
    assert_eq!(info, UserInfo::default());
    assert!(!a.in_stock("1.1.1.1"));
    assert!(a.user_map_get("1.1.1.1").is_none());
}

#[test]
fn user_info_constructors() {
    let u = UserInfo::new(7, 70, "n", "p", "w", "IP", vec![]);
    assert!(u.available);
    let id = UserInfo::clone_id(&u);
    assert_eq!((id.user_id, id.user_plan_id, id.available), (7, 70, false));
    assert_eq!(id.username, "");
    let w = WhiteListData::new_default_id("1.1.1.1", "a", "b");
    assert_eq!(w.user_id, 0);
    assert_eq!(WhiteListData::new_with_id("1.1.1.1", "a", "b", 9).user_id, 9);
}

#[test]
fn socks5_client_allowlisted_as_default_gets_no_auth() {
    let mut d = DcAuthenticator::new();
    d.update_white_list(vec![WhiteListData::new_default_id("4.4.4.4", "", "")]);
    let white = check_is_white(&d, "4.4.4.4");
    assert!(white);
    assert!(!check_is_white(&d, "4.4.4.5"));
    assert_eq!(socks5_select_method(white, &vec![0]), 0);
    let (ok, info) = check_user_auth(&d, true, "10.0.0.1", "4.4.4.4", white, "", "");
    assert!(ok);
    assert_eq!(info, UserInfo::default());
}

#[test]
fn socks5_method_must_be_offered() {
    assert_eq!(socks5_select_method(false, &vec![0, 2]), 2);
    assert_eq!(socks5_select_method(false, &vec![0]), 0xFF);
    assert_eq!(socks5_select_method(true, &vec![2]), 0xFF);
}

#[test]
fn white_client_falls_back_to_allowlist_credentials() {
    let mut d = directory();
    d.update_white_list(vec![WhiteListData::new_with_id("1.2.3.9", "user", "pw", 1)]);
    let (ok, info) = d.check_auth("user", "pw", "10.0.0.1", "1.2.3.9", true);
    assert!(ok);
    assert_eq!(info.user_id, 1);
}

#[test]
fn upsert_indexes_ip_user_under_white_ip_even_with_username() {
    let mut d = DcAuthenticator::new();
    d.update_user_info(UserInfo::new(6, 60, "carol", "", "5.6.7.8", "IP", vec!["10.0.0.3".to_string()]));
    assert_eq!(d.user_map_get("5.6.7.8").map(|u| u.user_id), Some(6));
    assert_eq!(d.user_map_get("10.0.0.3-carol"), None);
}

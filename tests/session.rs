use rg_proxy::acl::DefaultAclRule;
use rg_proxy::config::{init_env_arg, local_ip_config_file, port_settings, server_addr, DatabaseConfig, RedisConfig};
use rg_proxy::directory::DcAuthenticator;
use rg_proxy::endpoints::{Config, IpRange};
use rg_proxy::error::RgError;
use rg_proxy::model::{TrafficInfo, UserInfo, WhiteListData};
use rg_proxy::stats::RequestType as StatRequestType;
use rg_proxy::registry::ConnStat;
use rg_proxy::session::{
    apply_server_message, handshake_messages, ClientMessage, ControlSession, Frame, RxAction, ServerMessage,
    SessionAction,
};
use rg_proxy::stats::{
    first_reply, ConnectionStat, RequestStat, StatData, StatEvent, StatType, StatsCore, TrafficTotalStat, TrafficUserStat,
};

#[test]
fn kill_user_cancels_every_tunnel_of_that_user_only() {
    let mut reg: ConnStat<&str> = ConnStat::new();
    reg.add(42, 1, "a");
    reg.add(42, 2, "b");
    reg.add(7, 3, "c");
    assert!(reg.contains(2));
    let fired = reg.kill_user(42);
    assert_eq!(fired, vec!["a", "b"]);
    assert!(!reg.contains(2));
    assert!(reg.contains(3));
    assert!(reg.remove_all(42).is_empty());
    assert_eq!(reg.remove_all(7), vec!["c"]);
}

#[test]
fn remove_is_idempotent_and_owner_checked() {
    let mut reg: ConnStat<u8> = ConnStat::new();
    reg.add(1, 10, 0);
    reg.add(1, 11, 1);
    reg.remove(2, 10);
    assert!(reg.contains(10));
    reg.remove(1, 10);
    reg.remove(1, 10);
    assert!(!reg.contains(10));
    assert_eq!(reg.kill_user(1), vec![1]);
    assert!(reg.remove_all(1).is_empty());
}

#[test]
fn shutdown_hands_out_all_cancellers() {
    let mut reg: ConnStat<u8> = ConnStat::new();
    reg.add(1, 10, 0);
    reg.add(2, 11, 1);
    reg.add(1, 12, 2);
    let mut all = reg.shutdown();
    all.sort();
    assert_eq!(all, vec![0, 1, 2]);
    assert!(reg.shutdown().is_empty());
}

#[test]
fn disable_user_message_kills_tunnels() {
    let mut auth = DcAuthenticator::new();
    let mut acl = DefaultAclRule;
    let mut reg: ConnStat<u32> = ConnStat::new();
    reg.add(42, 1, 100);
    reg.add(42, 2, 200);
    reg.add(5, 3, 300);
    let fired = apply_server_message(ServerMessage::DisableUser(42), &mut auth, &mut acl, &mut reg);
    assert_eq!(fired, vec![100, 200]);
    assert!(reg.kill_user(42).is_empty());
    assert_eq!(reg.kill_user(5), vec![300]);
}

#[test]
fn directory_messages_update_the_directory() {
    let mut auth = DcAuthenticator::new();
    let mut acl = DefaultAclRule;
    let mut reg: ConnStat<u32> = ConnStat::new();
    let users = vec![UserInfo::new(1, 1, "u", "p", "", "PASSWORD", vec!["l".to_string()])];
    assert!(apply_server_message(ServerMessage::UserAuth(users), &mut auth, &mut acl, &mut reg).is_empty());
    assert!(auth.check_auth("u", "p", "l", "r", false).0);
    let wl = vec![WhiteListData::new_default_id("r", "g", "h")];
    apply_server_message(ServerMessage::UserWhiteList(wl), &mut auth, &mut acl, &mut reg);
    assert!(auth.in_stock("r"));
    let u2 = UserInfo::new(2, 2, "v", "q", "", "PASSWORD", vec!["l".to_string()]);
    apply_server_message(ServerMessage::UpdateUser(u2), &mut auth, &mut acl, &mut reg);
    assert!(auth.check_auth("v", "q", "l", "r", false).0);
    apply_server_message(ServerMessage::AclData("rules".to_string()), &mut auth, &mut acl, &mut reg);
    assert!(auth.check_auth("u", "p", "l", "r", false).0);
}

#[test]
fn frames_move_session_liveness() {
    let mut s = ControlSession::new();
    assert!(!s.backend_up);
    assert_eq!(s.on_handshake(false), SessionAction::RetryAfter(5000));
    assert_eq!(s.on_handshake(true), SessionAction::Run);
    assert!(matches!(s.on_frame(Frame::Text(Some(ServerMessage::DisableUser(1)))), RxAction::Dispatch(ServerMessage::DisableUser(1))));
    assert!(matches!(s.on_frame(Frame::Text(None)), RxAction::Ignore));
    assert!(matches!(s.on_frame(Frame::Other), RxAction::Ignore));
    assert!(s.backend_up);
    assert!(matches!(s.on_frame(Frame::Close), RxAction::Down));
    assert!(!s.backend_up);
    s.on_handshake(true);
    s.on_send(false);
    assert!(!s.backend_up);
    assert_eq!(s.next_action(), SessionAction::RetryAfter(0));
}

#[test]
fn stats_are_wrapped_by_kind() {
    let stat = StatData { stat_type: StatType::Connection, data: "test".to_string(), timestamp: 123 };
    assert_eq!(ClientMessage::from_stat(stat.clone(), None), Ok(ClientMessage::ClientInfoStat(stat)));
    let ut = StatData { stat_type: StatType::UserTraffic, data: "[]".to_string(), timestamp: 9 };
    assert_eq!(ClientMessage::from_stat(ut.clone(), None), Err(RgError::ParseError));
    match ClientMessage::from_stat(ut, Some(vec![])).unwrap() {
        ClientMessage::UserTrafficStat(info) => assert_eq!(info.timestamp, 9),
        other => panic!("unexpected {:?}", other),
    }
}

#[test]
fn handshake_sends_key_then_layout() {
    let config = Config {
        local_ip: "192.168.0.1".to_string(),
        port_start: 40000,
        port_end: 40000,
        offset: 0,
        ip_range: vec![IpRange { ip: "152.168.0.0".to_string(), mask: 21 }],
        extra_ips: vec![],
        server_start: None,
        server_end: None,
    };
    let msgs = handshake_messages("k", &config);
    assert_eq!(msgs[0], ClientMessage::Authenticate("k".to_string()));
    match &msgs[1] {
        ClientMessage::IpRange(info) => {
            assert_eq!(info.ip_range, vec!["152.168.0.0/21".to_string()]);
            assert_eq!(info.port_end, Some(40000));
            assert_eq!(info.offset, Some(0));
            assert_eq!(info.local_ip, "192.168.0.1");
        },
        other => panic!("unexpected {:?}", other),
    }
}

#[test]
fn counters_read_and_clear() {
    let mut t = TrafficTotalStat::new();
    t.add(3, 4);
    t.add(1, 0);
    let snap = t.collect();
    assert_eq!((snap.total, snap.upload, snap.download), (8, 4, 4));
    assert_eq!(t.collect().total, 0);
    t.add(u64::MAX, 1);
    assert_eq!(t.total, 0);

    let mut r = RequestStat::new();
    r.add(StatRequestType::Total);
    r.add(StatRequestType::Https);
    r.add(StatRequestType::Https);
    r.add(StatRequestType::Socks5);
    let s = r.collect();
    assert_eq!((s.total_request, s.http_request, s.https_request, s.socks5_request), (1, 0, 2, 1));
    assert_eq!(r.collect().https_request, 0);

    let mut c = ConnectionStat::new();
    c.add(1);
    c.add(1);
    c.add(-1);
    assert_eq!(c.collect().alive_in_connection, 1);
    assert_eq!(c.alive_in_connection, 0);
}

#[test]
fn user_traffic_folds_by_flow() {
    let mut u = TrafficUserStat::new();
    u.add(&TrafficInfo::new(1, 1, "h", 10, true, "r", "l"));
    u.add(&TrafficInfo::new(1, 1, "h", 5, false, "r", "l"));
    u.add(&TrafficInfo::new(2, 1, "h", 1, true, "r", "l"));
    let mut recs = u.records();
    recs.sort_by_key(|t| t.user_id);
    assert_eq!(recs.len(), 2);
    assert_eq!((recs[0].upload, recs[0].download), (10, 5));
    assert_eq!((recs[1].upload, recs[1].download), (1, 0));
    u.clear();
    assert!(u.records().is_empty());
}

#[test]
fn stats_core_applies_events() {
    let mut core = StatsCore::new();
    core.apply(StatEvent::Traffic(TrafficInfo::new(1, 1, "h", 10, true, "r", "l")));
    core.apply(StatEvent::Request(StatRequestType::Http));
    core.apply(StatEvent::Connection(1));
    assert_eq!(core.total_traffic.total, 10);
    assert_eq!(core.request_stat.http_request, 1);
    assert_eq!(core.connection_stat.alive_in_connection, 1);
    assert_eq!(core.user_traffic.records().len(), 1);
}

#[test]
fn stat_type_names() {
    assert_eq!(StatType::UserTraffic.to_string(), "user_traffic");
    assert_eq!(StatType::from_name("traffic_total"), StatType::TrafficTotal);
    assert_eq!(StatType::all().len(), 5);
}

#[test]
fn configuration_strings() {
    let r = RedisConfig { addr: "h:6379".to_string(), username: Some("u".to_string()), password: Some("p".to_string()), db: "0".to_string() };
    assert_eq!(r.connection_string(), "redis://u:p@h:6379/0");
    let r = RedisConfig { addr: "h".to_string(), username: None, password: None, db: "1".to_string() };
    assert_eq!(r.connection_string(), "redis://h/1");
    let d = DatabaseConfig { addr: "h".to_string(), username: "u".to_string(), password: "p".to_string(), database: "d".to_string() };
    assert_eq!(d.connection_string(), "mysql://u:p@h/d");
    assert_eq!(init_env_arg(&vec!["prog".to_string(), "dev".to_string()]), "dev");
    assert_eq!(init_env_arg(&vec!["prog".to_string()]), "");
    assert_eq!(local_ip_config_file("beta"), "/etc/beta_gre_tunnel_config");
    assert_eq!(local_ip_config_file(""), "/etc/gre_tunnel_config");
    assert_eq!(server_addr("dev"), "ws://127.0.0.1:8080/ws");
    assert_eq!(port_settings(None, None, None), (40000, 50000, 2));
    assert_eq!(port_settings(Some(1), Some(5), Some(0)), (1, 5, 0));
}

#[test]
fn ping_takes_first_reply_of_four() {
    assert_eq!(first_reply(&vec![None, Some(12), Some(3)]), Some(12));
    assert_eq!(first_reply(&vec![None, None, None, None, Some(1)]), None);
    assert_eq!(first_reply(&vec![]), None);
}

//! The control session with the central server: its messages, how server
//! messages are applied, how frames and send results move the session's
//! liveness, and how statistics are wrapped for sending.
use vstd::prelude::*;
use crate::acl::AclRule;
use crate::directory::{ip_index_of, records_of, stock_of, white_index_of, add_user_keys, DcAuthenticator};
use crate::endpoints::{Config, IpRange};
use crate::error::RgError;
use crate::model::{texts, TrafficInfo, UserId, UserInfo, WhiteListData};
use crate::registry::ConnStat;
use crate::stats::{StatData, StatType};
use crate::text::{dec, owned};

verus! {

/// The IP layout this host reports after authenticating.
#[derive(Debug, Clone, PartialEq, Eq)]
pub struct ServerIpInfo {
    pub local_ip: String,
    pub ip_range: Vec<String>,
    pub port_start: u32,
    pub port_end: Option<u32>,
    /// Offset of the port range.
    pub offset: Option<u32>,
    pub extra_ips: Vec<String>,
    pub server_start: Option<String>,
    pub server_end: Option<String>,
}

/// A batch of per-user traffic records.
#[derive(Debug, Clone, PartialEq, Eq)]
pub struct UserTrafficInfo {
    pub user_traffics: Vec<TrafficInfo>,
    pub timestamp: u64,
}

/// Frames sent to the central server.
#[derive(Debug, Clone, PartialEq, Eq)]
pub enum ClientMessage {
    Authenticate(String),
    ClientInfoStat(StatData),
    UserTrafficStat(UserTrafficInfo),
    IpRange(ServerIpInfo),
}

/// Frames received from the central server.
#[derive(Debug, Clone, PartialEq, Eq)]
pub enum ServerMessage {
    /// All ACL data.
    AclData(String),
    /// All users of this host's IP ranges.
    UserAuth(Vec<UserInfo>),
    UserWhiteList(Vec<WhiteListData>),
    /// One user, inserted or replaced.
    UpdateUser(UserInfo),
    /// Terminate every connection of the user.
    DisableUser(UserId),
}

/// Applies a server message: ACL data to the ACL, users and allowlist to
/// the directory, and a disabled user to the registry, whose tunnels are
/// taken out; the cancellers to fire are returned (none for other messages).
pub fn apply_server_message<A: AclRule, T>(
    msg: ServerMessage,
    auth: &mut DcAuthenticator,
    acl: &mut A,
    conns: &mut ConnStat<T>,
) -> (r: Vec<T>)
    requires
        old(conns).wf(),
    ensures
        final(conns).wf(),
        match msg {
            ServerMessage::AclData(_) => {
                &&& *final(auth) == *old(auth)
                &&& *final(conns) == *old(conns)
                &&& r@.len() == 0
            },
            ServerMessage::UserAuth(users) => {
                &&& final(auth)@.users == records_of(users@)
                &&& final(auth)@.ips == ip_index_of(users@)
                &&& final(auth)@.white == old(auth)@.white
                &&& final(auth)@.stock == old(auth)@.stock
                &&& *final(conns) == *old(conns)
                &&& *final(acl) == *old(acl)
                &&& r@.len() == 0
            },
            ServerMessage::UserWhiteList(ws) => {
                &&& final(auth)@.white == white_index_of(ws@)
                &&& final(auth)@.stock == stock_of(ws@)
                &&& final(auth)@.users == old(auth)@.users
                &&& final(auth)@.ips == old(auth)@.ips
                &&& *final(conns) == *old(conns)
                &&& *final(acl) == *old(acl)
                &&& r@.len() == 0
            },
            ServerMessage::UpdateUser(u) => {
                &&& final(auth)@.users == old(auth)@.users.insert(u.user_id, u)
                &&& final(auth)@.ips == add_user_keys(old(auth)@.ips, u, u.ips@.len())
                &&& final(auth)@.white == old(auth)@.white
                &&& final(auth)@.stock == old(auth)@.stock
                &&& *final(conns) == *old(conns)
                &&& *final(acl) == *old(acl)
                &&& r@.len() == 0
            },
            ServerMessage::DisableUser(id) => {
                &&& *final(auth) == *old(auth)
                &&& *final(acl) == *old(acl)
                &&& r@.len() == old(conns).handles_of(id).len()
                &&& final(conns).handles_of(id).len() == 0
                &&& forall|u: UserId| u != id ==> #[trigger] final(conns).handles_of(u) == old(conns).handles_of(u)
                &&& forall|i: int| 0 <= i < r@.len()
                    ==> r@[i] == old(conns).entries()[#[trigger] old(conns).handles_of(id)[i]].1
                &&& forall|h: u64| #[trigger] final(conns).entries().contains_key(h)
                    <==> (old(conns).entries().contains_key(h) && old(conns).entries()[h].0 != id)
                &&& forall|h: u64| #[trigger] final(conns).entries().contains_key(h)
                    ==> final(conns).entries()[h] == old(conns).entries()[h]
            },
        },
{
    match msg {
        ServerMessage::AclData(data) => {
            acl.update(data.as_str());
            Vec::new()
        },
        ServerMessage::UserAuth(users) => {
            auth.update_all(users);
            Vec::new()
        },
        ServerMessage::UserWhiteList(ws) => {
            auth.update_white_list(ws);
            Vec::new()
        },
        ServerMessage::UpdateUser(u) => {
            auth.update_user_info(u);
            Vec::new()
        },
        ServerMessage::DisableUser(id) => conns.kill_user(id),
    }
}

/// Pause before redialing after the session went down, in milliseconds.
pub const RECONNECT_DELAY_MS: u64 = 5000;
/// Interval between pings, in milliseconds.
pub const PING_INTERVAL_MS: u64 = 5000;

/// A frame as read from the server.
pub enum Frame {
    /// A text frame, with the message it decodes to (if it does).
    Text(Option<ServerMessage>),
    Close,
    /// Any other frame kind (ping, pong, binary).
    Other,
    /// A read error.
    Failed,
    /// The stream ended.
    Ended,
}

/// What the receiving task does with a frame.
pub enum RxAction {
    Dispatch(ServerMessage),
    Ignore,
    /// The session is down; the receiving task exits.
    Down,
}

/// What the session loop does next.
#[derive(Debug, Clone, Copy, PartialEq, Eq, Structural)]
pub enum SessionAction {
    /// Run the receive and send tasks.
    Run,
    /// Wait this many milliseconds, then dial again.
    RetryAfter(u64),
}

/// Liveness of the control session.
pub struct ControlSession {
    pub backend_up: bool,
}

impl ControlSession {
    /// A session not yet connected.
    pub fn new() -> (r: ControlSession)
        ensures
            !r.backend_up,
    {
        ControlSession { backend_up: false }
    }

    /// After dialing and sending the handshake: up and running, or retry later.
    pub fn on_handshake(&mut self, ok: bool) -> (r: SessionAction)
        ensures
            final(self).backend_up == ok,
            r == (if ok { SessionAction::Run } else { SessionAction::RetryAfter(5000) }),
    {
        self.backend_up = ok;
        if ok {
            SessionAction::Run
        } else {
            SessionAction::RetryAfter(RECONNECT_DELAY_MS)
        }
    }

    /// A decoded text frame is dispatched, an undecodable one or another
    /// kind ignored; a close frame, a read error or the end of the stream
    /// takes the session down.
    pub fn on_frame(&mut self, frame: Frame) -> (r: RxAction)
        ensures
            match frame {
                Frame::Text(Some(m)) => r == RxAction::Dispatch(m) && final(self).backend_up == old(self).backend_up,
                Frame::Text(None) => r == RxAction::Ignore && final(self).backend_up == old(self).backend_up,
                Frame::Other => r == RxAction::Ignore && final(self).backend_up == old(self).backend_up,
                _ => r == RxAction::Down && !final(self).backend_up,
            },
    {
        match frame {
            Frame::Text(Some(m)) => RxAction::Dispatch(m),
            Frame::Text(None) => RxAction::Ignore,
            Frame::Other => RxAction::Ignore,
            _ => {
                self.backend_up = false;
                RxAction::Down
            },
        }
    }

    /// A failed send takes the session down.
    pub fn on_send(&mut self, ok: bool)
        ensures
            final(self).backend_up == (old(self).backend_up && ok),
    {
        if !ok {
            self.backend_up = false;
        }
    }

    /// What the loop does once the session state is read.
    pub fn next_action(&self) -> (r: SessionAction)
        ensures
            r == (if self.backend_up { SessionAction::Run } else { SessionAction::RetryAfter(0) }),
    {
        if self.backend_up {
            SessionAction::Run
        } else {
            SessionAction::RetryAfter(0)
        }
    }
}

impl ClientMessage {
    /// Wraps a snapshot for sending: user traffic becomes `UserTrafficStat`
    /// with the records decoded from its payload (`ParseError` when the
    /// payload did not decode), anything else `ClientInfoStat`.
    pub fn from_stat(stat: StatData, user_traffics: Option<Vec<TrafficInfo>>) -> (r: Result<ClientMessage, RgError>)
        ensures
            stat.stat_type == StatType::UserTraffic ==> match user_traffics {
                Some(v) => r == Ok::<ClientMessage, RgError>(
                    ClientMessage::UserTrafficStat(UserTrafficInfo { user_traffics: v, timestamp: stat.timestamp })),
                None => r == Err::<ClientMessage, RgError>(RgError::ParseError),
            },
            stat.stat_type != StatType::UserTraffic ==> r == Ok::<ClientMessage, RgError>(ClientMessage::ClientInfoStat(stat)),
    {
        match stat.stat_type {
            StatType::UserTraffic => match user_traffics {
                Some(v) => Ok(ClientMessage::UserTrafficStat(UserTrafficInfo { user_traffics: v, timestamp: stat.timestamp })),
                None => Err(RgError::ParseError),
            },
            _ => Ok(ClientMessage::ClientInfoStat(stat)),
        }
    }
}

pub open spec fn range_texts(rs: Seq<IpRange>) -> Seq<Seq<char>> {
    rs.map_values(|r: IpRange| r.ip@ + seq!['/'] + dec(r.mask as nat))
}

/// `info` reports the layout `config`: ranges as `ip/mask`, the port
/// range, the offset and the extra IPs.
pub open spec fn reports_layout(info: ServerIpInfo, config: Config) -> bool {
    &&& info.local_ip@ == config.local_ip@
    &&& texts(info.ip_range@) == range_texts(config.ip_range@)
    &&& info.port_start == config.port_start
    &&& info.port_end == Some(config.port_end)
    &&& info.offset == Some(config.offset)
    &&& info.extra_ips@ == config.extra_ips@
    &&& info.server_start is None
    &&& info.server_end is None
}

/// The report of this host's IP layout.
pub fn ip_range_info(config: &Config) -> (r: ServerIpInfo)
    ensures
        reports_layout(r, *config),
{
    let mut ranges: Vec<String> = Vec::new();
    let mut i: usize = 0;
    while i < config.ip_range.len()
        invariant
            i <= config.ip_range@.len(),
            texts(ranges@) == range_texts(config.ip_range@.subrange(0, i as int)),
        decreases config.ip_range@.len() - i,
    {
        let ghost before = ranges@;
        let t = config.ip_range[i].to_string();
        ranges.push(t);
        proof {
            let pre = config.ip_range@.subrange(0, i as int);
            let post = config.ip_range@.subrange(0, i as int + 1);
            assert(post =~= pre.push(config.ip_range@[i as int]));
            assert(range_texts(post) =~= range_texts(pre).push(t@));
            assert(texts(ranges@) =~= texts(before).push(t@));
        }
        i = i + 1;
    }
    assert(config.ip_range@.subrange(0, config.ip_range@.len() as int) =~= config.ip_range@);
    ServerIpInfo {
        local_ip: owned(config.local_ip.as_str()),
        ip_range: ranges,
        port_start: config.port_start,
        port_end: Some(config.port_end),
        offset: Some(config.offset),
        extra_ips: crate::model::copy_strings(&config.extra_ips),
        server_start: None,
        server_end: None,
    }
}

/// The frames sent on every (re)connect, in order: the shared key, then
/// this host's IP layout.
pub fn handshake_messages(key: &str, config: &Config) -> (r: Vec<ClientMessage>)
    ensures
        r@.len() == 2,
        r@[0] is Authenticate && r@[0]->Authenticate_0@ == key@,
        r@[1] is IpRange && reports_layout(r@[1]->IpRange_0, *config),
{
    let mut out: Vec<ClientMessage> = Vec::new();
    out.push(ClientMessage::Authenticate(owned(key)));
    out.push(ClientMessage::IpRange(ip_range_info(config)));
    out
}

/// A control-plane backend driven from standard input and output, for
/// running without a central server.
pub struct StdClient;

impl StdClient {
    pub fn new() -> (r: StdClient) {
        StdClient
    }
}

} // verus!

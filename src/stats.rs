//! Statistics counters: total traffic, per-user traffic by flow, requests
//! by kind and the live inbound connection delta.
use vstd::prelude::*;
use dashmap::DashMap;
use crate::model::{flow_key, TrafficInfo, UserId};
use crate::text::str_eq;

verus! {

/// The kinds of statistics snapshot.
#[derive(Debug, Clone, Copy, PartialEq, Eq, Hash, Structural)]
pub enum StatType {
    UserTraffic,
    TrafficTotal,
    Request,
    Connection,
    System,
}

pub open spec fn stat_type_name(t: StatType) -> Seq<char> {
    match t {
        StatType::UserTraffic => "user_traffic"@,
        StatType::TrafficTotal => "traffic_total"@,
        StatType::Request => "request"@,
        StatType::Connection => "connection"@,
        StatType::System => "system"@,
    }
}

pub open spec fn is_stat_type_name(s: Seq<char>) -> bool {
    s == "user_traffic"@ || s == "traffic_total"@ || s == "request"@ || s == "connection"@ || s == "system"@
}

impl StatType {
    /// Every kind, in declaration order.
    pub fn all() -> (r: Vec<StatType>)
        ensures
            r@ == seq![StatType::UserTraffic, StatType::TrafficTotal, StatType::Request, StatType::Connection, StatType::System],
    {
        vec![StatType::UserTraffic, StatType::TrafficTotal, StatType::Request, StatType::Connection, StatType::System]
    }

    /// The snake-case name of the kind.
    pub fn to_string(&self) -> (r: String)
        ensures
            r@ == stat_type_name(*self),
    {
        let s = match *self {
            StatType::UserTraffic => "user_traffic",
            StatType::TrafficTotal => "traffic_total",
            StatType::Request => "request",
            StatType::Connection => "connection",
            StatType::System => "system",
        };
        crate::text::owned(s)
    }

    /// The kind named `s`.
    pub fn from_name(s: &str) -> (r: StatType)
        requires
            is_stat_type_name(s@),
        ensures
            stat_type_name(r) == s@,
    {
        if str_eq(s, "user_traffic") {
            StatType::UserTraffic
        } else if str_eq(s, "traffic_total") {
            StatType::TrafficTotal
        } else if str_eq(s, "request") {
            StatType::Request
        } else if str_eq(s, "connection") {
            StatType::Connection
        } else {
            StatType::System
        }
    }
}

/// A snapshot as published: its kind, serialized payload and Unix time in seconds.
#[derive(Debug, Clone, PartialEq, Eq)]
pub struct StatData {
    pub stat_type: StatType,
    pub data: String,
    pub timestamp: u64,
}

#[derive(Debug, Clone, Copy, PartialEq, Eq, Structural)]
pub struct ConnectionStatSnapshot {
    pub alive_in_connection: i64,
}

#[derive(Debug, Clone, Copy, PartialEq, Eq, Structural)]
pub struct RequestStatSnapshot {
    pub total_request: u64,
    pub http_request: u64,
    pub https_request: u64,
    pub socks5_request: u64,
}

#[derive(Debug, Clone, Copy, PartialEq, Eq, Structural)]
pub struct TrafficTotalStatSnapshot {
    pub total: u64,
    pub upload: u64,
    pub download: u64,
}

/// Total traffic; counters wrap around like the atomics they stand for.
pub struct TrafficTotalStat {
    pub total: u64,
    pub upload: u64,
    pub download: u64,
}

impl TrafficTotalStat {
    pub fn new() -> (r: TrafficTotalStat)
        ensures
            r.total == 0 && r.upload == 0 && r.download == 0,
    {
        TrafficTotalStat { total: 0, upload: 0, download: 0 }
    }

    /// Counts `upload + download` in the total and each part in its own counter.
    pub fn add(&mut self, upload: u64, download: u64)
        ensures
            final(self).total == old(self).total.wrapping_add(upload.wrapping_add(download)),
            final(self).upload == old(self).upload.wrapping_add(upload),
            final(self).download == old(self).download.wrapping_add(download),
    {
        self.total = self.total.wrapping_add(upload.wrapping_add(download));
        self.upload = self.upload.wrapping_add(upload);
        self.download = self.download.wrapping_add(download);
    }

    /// Reads and clears the counters.
    pub fn collect(&mut self) -> (r: TrafficTotalStatSnapshot)
        ensures
            r == (TrafficTotalStatSnapshot { total: old(self).total, upload: old(self).upload, download: old(self).download }),
            final(self).total == 0 && final(self).upload == 0 && final(self).download == 0,
    {
        let r = TrafficTotalStatSnapshot { total: self.total, upload: self.upload, download: self.download };
        self.total = 0;
        self.upload = 0;
        self.download = 0;
        r
    }
}

/// The request kind counted for statistics.
#[derive(Debug, Clone, Copy, PartialEq, Eq, Structural)]
pub enum RequestType {
    Http,
    Https,
    Socks5,
    /// A connection accepted, before its protocol is known (counts toward
    /// the total only).
    Total,
}

/// Requests by kind; the total counts accepted connections.
pub struct RequestStat {
    pub total_request: u64,
    pub http_request: u64,
    pub https_request: u64,
    pub socks5_request: u64,
}

impl RequestStat {
    pub fn new() -> (r: RequestStat)
        ensures
            r.total_request == 0 && r.http_request == 0 && r.https_request == 0 && r.socks5_request == 0,
    {
        RequestStat { total_request: 0, http_request: 0, https_request: 0, socks5_request: 0 }
    }

    /// Counts one request in the counter of its kind (`Total` in the total only).
    pub fn add(&mut self, type_: RequestType)
        ensures
            final(self).total_request == (if type_ == RequestType::Total {
                old(self).total_request.wrapping_add(1)
            } else {
                old(self).total_request
            }),
            final(self).http_request == (if type_ == RequestType::Http {
                old(self).http_request.wrapping_add(1)
            } else {
                old(self).http_request
            }),
            final(self).https_request == (if type_ == RequestType::Https {
                old(self).https_request.wrapping_add(1)
            } else {
                old(self).https_request
            }),
            final(self).socks5_request == (if type_ == RequestType::Socks5 {
                old(self).socks5_request.wrapping_add(1)
            } else {
                old(self).socks5_request
            }),
    {
        match type_ {
            RequestType::Total => self.total_request = self.total_request.wrapping_add(1),
            RequestType::Http => self.http_request = self.http_request.wrapping_add(1),
            RequestType::Https => self.https_request = self.https_request.wrapping_add(1),
            RequestType::Socks5 => self.socks5_request = self.socks5_request.wrapping_add(1),
        }
    }

    /// Reads and clears the counters.
    pub fn collect(&mut self) -> (r: RequestStatSnapshot)
        ensures
            r == (RequestStatSnapshot {
                total_request: old(self).total_request,
                http_request: old(self).http_request,
                https_request: old(self).https_request,
                socks5_request: old(self).socks5_request,
            }),
            final(self).total_request == 0 && final(self).http_request == 0,
            final(self).https_request == 0 && final(self).socks5_request == 0,
    {
        let r = RequestStatSnapshot {
            total_request: self.total_request,
            http_request: self.http_request,
            https_request: self.https_request,
            socks5_request: self.socks5_request,
        };
        self.total_request = 0;
        self.http_request = 0;
        self.https_request = 0;
        self.socks5_request = 0;
        r
    }
}

/// Change in live inbound connections since the last collection.
pub struct ConnectionStat {
    pub alive_in_connection: i64,
}

impl ConnectionStat {
    pub fn new() -> (r: ConnectionStat)
        ensures
            r.alive_in_connection == 0,
    {
        ConnectionStat { alive_in_connection: 0 }
    }

    /// Adds `in_conn` (+1 on accept, -1 when handling ends).
    pub fn add(&mut self, in_conn: i64)
        ensures
            final(self).alive_in_connection == old(self).alive_in_connection.wrapping_add(in_conn),
    {
        self.alive_in_connection = self.alive_in_connection.wrapping_add(in_conn);
    }

    /// Reads and clears the delta.
    pub fn collect(&mut self) -> (r: ConnectionStatSnapshot)
        ensures
            r.alive_in_connection == old(self).alive_in_connection,
            final(self).alive_in_connection == 0,
    {
        let r = ConnectionStatSnapshot { alive_in_connection: self.alive_in_connection };
        self.alive_in_connection = 0;
        r
    }
}

/// What the per-user traffic table holds: (user id, flow key) to the
/// accumulated record.
pub uninterp spec fn flow_records(m: DashMap<(u64, String), TrafficInfo>) -> Map<(u64, Seq<char>), TrafficInfo>;

pub open spec fn no_flows() -> Map<(u64, Seq<char>), TrafficInfo> {
    Map::empty()
}

/// Relies on `DashMap::new`: a new map is empty.
#[verifier::external_body]
fn flows_new() -> (r: DashMap<(u64, String), TrafficInfo>)
    ensures
        flow_records(r) == no_flows(),
{
    DashMap::new()
}

/// Relies on `DashMap::get`: a copy of the record stored under the key.
#[verifier::external_body]
fn flows_get(m: &DashMap<(u64, String), TrafficInfo>, key: &(u64, String)) -> (r: Option<TrafficInfo>)
    ensures
        r == (if flow_records(*m).contains_key((key.0, key.1@)) {
            Some(flow_records(*m)[(key.0, key.1@)])
        } else {
            None
        }),
{
    m.get(key).map(|v| v.value().clone())
}

/// Relies on `DashMap::insert`: the key maps to `value` afterwards, every other key is unchanged.
#[verifier::external_body]
fn flows_insert(m: &mut DashMap<(u64, String), TrafficInfo>, key: (u64, String), value: TrafficInfo)
    ensures
        flow_records(*final(m)) == flow_records(*old(m)).insert((key.0, key.1@), value),
{
    m.insert(key, value);
}

/// Whether `t` is the record of some flow in `m`.
pub open spec fn holds_record(m: Map<(u64, Seq<char>), TrafficInfo>, t: TrafficInfo) -> bool {
    exists|k: (u64, Seq<char>)| #[trigger] m.contains_key(k) && m[k] == t
}

/// Relies on `DashMap::iter`: every stored record once, in no particular order.
#[verifier::external_body]
fn flows_values(m: &DashMap<(u64, String), TrafficInfo>) -> (r: Vec<TrafficInfo>)
    ensures
        r@.len() == flow_records(*m).dom().len(),
        forall|i: int| 0 <= i < r@.len() ==> #[trigger] holds_record(flow_records(*m), r@[i]),
        forall|k: (u64, Seq<char>)| #[trigger] flow_records(*m).contains_key(k)
            ==> exists|i: int| 0 <= i < r@.len() && r@[i] == flow_records(*m)[k],
{
    m.iter().map(|e| e.value().clone()).collect()
}

/// Relies on `DashMap::clear`: the map is empty afterwards.
#[verifier::external_body]
fn flows_clear(m: &mut DashMap<(u64, String), TrafficInfo>)
    ensures
        flow_records(*final(m)) == no_flows(),
{
    m.clear();
}

/// `old` with the traffic of `info` added to it.
pub open spec fn folded(old: TrafficInfo, info: TrafficInfo) -> TrafficInfo {
    TrafficInfo {
        upload: old.upload.wrapping_add(info.upload),
        download: old.download.wrapping_add(info.download),
        ..old
    }
}

/// Traffic by user and flow (`host-local_ip-remote_ip`).
pub struct TrafficUserStat {
    traffic_info: DashMap<(UserId, String), TrafficInfo>,
}

impl TrafficUserStat {
    /// The accumulated record of each (user id, flow key).
    pub closed spec fn flows(&self) -> Map<(u64, Seq<char>), TrafficInfo> {
        flow_records(self.traffic_info)
    }

    pub fn new() -> (r: TrafficUserStat)
        ensures
            r.flows() == no_flows(),
    {
        TrafficUserStat { traffic_info: flows_new() }
    }

    /// Folds `info` into the record of its user and flow, or stores it as
    /// that flow's first record.
    pub fn add(&mut self, info: &TrafficInfo)
        ensures
            ({
                let k = (info.user_id, flow_key(*info));
                final(self).flows() == old(self).flows().insert(k, if old(self).flows().contains_key(k) {
                    folded(old(self).flows()[k], *info)
                } else {
                    *info
                })
            }),
    {
        let key = (info.user_id, info.get_key());
        match flows_get(&self.traffic_info, &key) {
            Some(mut old) => {
                old.upload = old.upload.wrapping_add(info.upload);
                old.download = old.download.wrapping_add(info.download);
                flows_insert(&mut self.traffic_info, key, old);
            },
            None => {
                flows_insert(&mut self.traffic_info, key, info.duplicate_exact());
            },
        }
    }

    /// Every accumulated record, in no particular order.
    pub fn records(&self) -> (r: Vec<TrafficInfo>)
        ensures
            r@.len() == self.flows().dom().len(),
            forall|i: int| 0 <= i < r@.len() ==> #[trigger] holds_record(self.flows(), r@[i]),
            forall|k: (u64, Seq<char>)| #[trigger] self.flows().contains_key(k)
                ==> exists|i: int| 0 <= i < r@.len() && r@[i] == self.flows()[k],
    {
        flows_values(&self.traffic_info)
    }

    /// Forgets every record (after they were published).
    pub fn clear(&mut self)
        ensures
            final(self).flows() == no_flows(),
    {
        flows_clear(&mut self.traffic_info);
    }
}

/// An event for the statistics core.
#[derive(Debug)]
pub enum StatEvent {
    Traffic(TrafficInfo),
    Request(RequestType),
    Connection(i64),
}

/// The counters fed by statistics events.
pub struct StatsCore {
    pub total_traffic: TrafficTotalStat,
    pub user_traffic: TrafficUserStat,
    pub connection_stat: ConnectionStat,
    pub request_stat: RequestStat,
}

impl StatsCore {
    pub fn new() -> (r: StatsCore)
        ensures
            r.total_traffic.total == 0 && r.total_traffic.upload == 0 && r.total_traffic.download == 0,
            r.user_traffic.flows() == no_flows(),
            r.connection_stat.alive_in_connection == 0,
            r.request_stat.total_request == 0 && r.request_stat.http_request == 0,
            r.request_stat.https_request == 0 && r.request_stat.socks5_request == 0,
    {
        StatsCore {
            total_traffic: TrafficTotalStat::new(),
            user_traffic: TrafficUserStat::new(),
            connection_stat: ConnectionStat::new(),
            request_stat: RequestStat::new(),
        }
    }

    /// Applies one event: traffic goes to the total and to its user's flow,
    /// a request to its counter, a connection delta to the delta.
    pub fn apply(&mut self, event: StatEvent)
        ensures
            match event {
                StatEvent::Traffic(info) => {
                    let k = (info.user_id, flow_key(info));
                    &&& final(self).total_traffic.total == old(self).total_traffic.total.wrapping_add(
                        info.upload.wrapping_add(info.download))
                    &&& final(self).total_traffic.upload == old(self).total_traffic.upload.wrapping_add(info.upload)
                    &&& final(self).total_traffic.download == old(self).total_traffic.download.wrapping_add(info.download)
                    &&& final(self).user_traffic.flows() == old(self).user_traffic.flows().insert(k,
                        if old(self).user_traffic.flows().contains_key(k) {
                            folded(old(self).user_traffic.flows()[k], info)
                        } else {
                            info
                        })
                    &&& final(self).request_stat == old(self).request_stat
                    &&& final(self).connection_stat == old(self).connection_stat
                },
                StatEvent::Request(t) => {
                    &&& final(self).request_stat.total_request == (if t == RequestType::Total {
                        old(self).request_stat.total_request.wrapping_add(1)
                    } else {
                        old(self).request_stat.total_request
                    })
                    &&& final(self).request_stat.http_request == (if t == RequestType::Http {
                        old(self).request_stat.http_request.wrapping_add(1)
                    } else {
                        old(self).request_stat.http_request
                    })
                    &&& final(self).request_stat.https_request == (if t == RequestType::Https {
                        old(self).request_stat.https_request.wrapping_add(1)
                    } else {
                        old(self).request_stat.https_request
                    })
                    &&& final(self).request_stat.socks5_request == (if t == RequestType::Socks5 {
                        old(self).request_stat.socks5_request.wrapping_add(1)
                    } else {
                        old(self).request_stat.socks5_request
                    })
                    &&& final(self).total_traffic == old(self).total_traffic
                    &&& final(self).user_traffic == old(self).user_traffic
                    &&& final(self).connection_stat == old(self).connection_stat
                },
                StatEvent::Connection(d) => {
                    &&& final(self).connection_stat.alive_in_connection
                        == old(self).connection_stat.alive_in_connection.wrapping_add(d)
                    &&& final(self).total_traffic == old(self).total_traffic
                    &&& final(self).user_traffic == old(self).user_traffic
                    &&& final(self).request_stat == old(self).request_stat
                },
            },
    {
        match event {
            StatEvent::Traffic(info) => {
                self.total_traffic.add(info.upload, info.download);
                self.user_traffic.add(&info);
            },
            StatEvent::Request(t) => {
                self.request_stat.add(t);
            },
            StatEvent::Connection(d) => {
                self.connection_stat.add(d);
            },
        }
    }
}

/// What one collection of a kind yields.
#[derive(Debug)]
pub enum Snapshot {
    /// Every per-user flow record; the table is cleared once they are published.
    UserTraffic(Vec<TrafficInfo>),
    TrafficTotal(TrafficTotalStatSnapshot),
    Request(RequestStatSnapshot),
    Connection(ConnectionStatSnapshot),
    /// Sampled from the operating system by the caller.
    System,
}

impl StatsCore {
    /// Collects one kind: counters are read and cleared; the per-user flow
    /// records are read (and cleared separately once published).
    pub fn collect(&mut self, kind: StatType) -> (r: Snapshot)
        ensures
            match kind {
                StatType::UserTraffic => match r {
                    Snapshot::UserTraffic(v) => {
                        &&& v@.len() == old(self).user_traffic.flows().dom().len()
                        &&& forall|i: int| 0 <= i < v@.len() ==> #[trigger] holds_record(old(self).user_traffic.flows(), v@[i])
                        &&& forall|k: (u64, Seq<char>)| #[trigger] old(self).user_traffic.flows().contains_key(k)
                            ==> exists|i: int| 0 <= i < v@.len() && v@[i] == old(self).user_traffic.flows()[k]
                        &&& final(self).user_traffic == old(self).user_traffic
                    },
                    _ => false,
                },
                StatType::TrafficTotal => {
                    &&& r == Snapshot::TrafficTotal(TrafficTotalStatSnapshot {
                        total: old(self).total_traffic.total,
                        upload: old(self).total_traffic.upload,
                        download: old(self).total_traffic.download,
                    })
                    &&& final(self).total_traffic.total == 0
                    &&& final(self).total_traffic.upload == 0
                    &&& final(self).total_traffic.download == 0
                },
                StatType::Request => {
                    &&& r == Snapshot::Request(RequestStatSnapshot {
                        total_request: old(self).request_stat.total_request,
                        http_request: old(self).request_stat.http_request,
                        https_request: old(self).request_stat.https_request,
                        socks5_request: old(self).request_stat.socks5_request,
                    })
                    &&& final(self).request_stat.total_request == 0
                    &&& final(self).request_stat.http_request == 0
                    &&& final(self).request_stat.https_request == 0
                    &&& final(self).request_stat.socks5_request == 0
                },
                StatType::Connection => {
                    &&& r == Snapshot::Connection(ConnectionStatSnapshot {
                        alive_in_connection: old(self).connection_stat.alive_in_connection,
                    })
                    &&& final(self).connection_stat.alive_in_connection == 0
                },
                StatType::System => r == Snapshot::System,
            },
    {
        match kind {
            StatType::UserTraffic => Snapshot::UserTraffic(self.user_traffic.records()),
            StatType::TrafficTotal => Snapshot::TrafficTotal(self.total_traffic.collect()),
            StatType::Request => Snapshot::Request(self.request_stat.collect()),
            StatType::Connection => Snapshot::Connection(self.connection_stat.collect()),
            StatType::System => Snapshot::System,
        }
    }
}

impl StatData {
    /// A snapshot ready to publish, or `None` when its payload is empty
    /// (nothing is sent then).
    pub fn publishable(stat_type: StatType, data: String, timestamp: u64) -> (r: Option<StatData>)
        ensures
            data@.len() == 0 ==> r is None,
            data@.len() != 0 ==> r is Some && r->0.stat_type == stat_type && r->0.data@ == data@
                && r->0.timestamp == timestamp,
    {
        if data.as_str().is_empty() {
            None
        } else {
            Some(StatData { stat_type, data, timestamp })
        }
    }
}

/// Index of the first reply among the first `n` probe results, if any.
pub open spec fn first_reply_index(results: Seq<Option<u64>>, n: int) -> Option<int>
    decreases n,
{
    if n <= 0 {
        None
    } else {
        match first_reply_index(results, n - 1) {
            Some(i) => Some(i),
            None => if n - 1 < results.len() && results[n - 1] is Some {
                Some(n - 1)
            } else {
                None
            },
        }
    }
}

/// The round trip (in milliseconds) of the first reply among the first
/// four probes; `None` when none of them was answered.
pub fn first_reply(results: &Vec<Option<u64>>) -> (r: Option<u64>)
    ensures
        r == (match first_reply_index(results@, 4) {
            Some(i) => results@[i],
            None => None,
        }),
{
    let mut i: usize = 0;
    while i < 4 && i < results.len()
        invariant
            i <= 4,
            i <= results@.len(),
            first_reply_index(results@, i as int) is None,
        decreases 4 - i,
    {
        if let Some(ms) = results[i] {
            assert(first_reply_index(results@, i as int + 1) == Some(i as int));
            proof { lemma_first_reply_stays(results@, i as int + 1, 4); }
            return Some(ms);
        }
        i = i + 1;
    }
    proof { lemma_no_reply_beyond(results@, i as int, 4); }
    None
}

proof fn lemma_first_reply_stays(results: Seq<Option<u64>>, m: int, n: int)
    requires
        m <= n,
        first_reply_index(results, m) is Some,
    ensures
        first_reply_index(results, n) == first_reply_index(results, m),
    decreases n - m,
{
    if m < n {
        lemma_first_reply_stays(results, m, n - 1);
    }
}

proof fn lemma_no_reply_beyond(results: Seq<Option<u64>>, m: int, n: int)
    requires
        0 <= m <= n,
        first_reply_index(results, m) is None,
        m == n || m >= results.len(),
    ensures
        first_reply_index(results, n) is None,
    decreases n - m,
{
    if m < n {
        lemma_no_reply_beyond(results, m, n - 1);
    }
}

} // verus!

//! Identity, allowlist and traffic records shared by every component.
use vstd::prelude::*;
use crate::text::{dash3, join_dash3, owned};

verus! {

/// Identifier of a user; 0 stands for the anonymous default user.
pub type UserId = u64;

/// Opaque plan tag carried with every traffic record.
pub type UserPlanId = u64;

/// Identity record of one user.
#[derive(Debug, Clone, PartialEq, Eq)]
pub struct UserInfo {
    pub user_id: UserId,
    pub user_plan_id: UserPlanId,
    pub username: String,
    pub password: String,
    pub white_ip: String,
    /// `IP` (source-IP allowlist) or `PASSWORD` (basic credentials).
    pub auth_type: String,
    /// Local source IPs this user may egress from.
    pub ips: Vec<String>,
    pub available: bool,
}

/// `u` carries the given identifiers and nothing else: empty texts, no IPs,
/// not available (the shape of an identity handed out by authentication).
pub open spec fn id_only(u: UserInfo, user_id: UserId, user_plan_id: UserPlanId) -> bool {
    &&& u.user_id == user_id
    &&& u.user_plan_id == user_plan_id
    &&& u.username@.len() == 0
    &&& u.password@.len() == 0
    &&& u.white_ip@.len() == 0
    &&& u.auth_type@.len() == 0
    &&& u.ips@.len() == 0
    &&& !u.available
}

/// The texts of a list of strings.
pub open spec fn texts(v: Seq<String>) -> Seq<Seq<char>> {
    v.map_values(|s: String| s@)
}

/// A copy of a list of strings.
pub fn copy_strings(v: &Vec<String>) -> (r: Vec<String>)
    ensures
        r@ == v@,
{
    let mut out: Vec<String> = Vec::new();
    let mut i: usize = 0;
    while i < v.len()
        invariant
            i <= v@.len(),
            out@ == v@.subrange(0, i as int),
        decreases v@.len() - i,
    {
        out.push(v[i].clone());
        i = i + 1;
        assert(out@ =~= v@.subrange(0, i as int));
    }
    assert(v@.subrange(0, v@.len() as int) =~= v@);
    out
}

impl Default for UserInfo {
    fn default() -> (r: UserInfo)
        ensures
            id_only(r, 0, 0),
    {
        UserInfo::id_record(0, 0)
    }
}

impl UserInfo {
    /// The record with only the two identifiers set.
    pub fn id_record(user_id: UserId, user_plan_id: UserPlanId) -> (r: UserInfo)
        ensures
            id_only(r, user_id, user_plan_id),
    {
        UserInfo {
            user_id,
            user_plan_id,
            username: String::new(),
            password: String::new(),
            white_ip: String::new(),
            auth_type: String::new(),
            ips: Vec::new(),
            available: false,
        }
    }

    /// A new, available user.
    pub fn new(
        user_id: UserId,
        user_plan_id: UserPlanId,
        username: &str,
        password: &str,
        white_ip: &str,
        auth_type: &str,
        ips: Vec<String>,
    ) -> (r: UserInfo)
        ensures
            r.user_id == user_id,
            r.user_plan_id == user_plan_id,
            r.username@ == username@,
            r.password@ == password@,
            r.white_ip@ == white_ip@,
            r.auth_type@ == auth_type@,
            r.ips@ == ips@,
            r.available,
    {
        UserInfo {
            user_id,
            user_plan_id,
            username: owned(username),
            password: owned(password),
            white_ip: owned(white_ip),
            auth_type: owned(auth_type),
            ips,
            available: true,
        }
    }

    /// The identity of `user_info` alone: its two identifiers, every other
    /// field at its default.
    pub fn clone_id(user_info: &UserInfo) -> (r: UserInfo)
        ensures
            id_only(r, user_info.user_id, user_info.user_plan_id),
    {
        UserInfo::id_record(user_info.user_id, user_info.user_plan_id)
    }
}

/// One allowlist entry.
#[derive(Debug, Clone, PartialEq, Eq)]
pub struct WhiteListData {
    pub ip: String,
    pub username: String,
    pub password: String,
    pub user_id: UserId,
}

impl Default for WhiteListData {
    fn default() -> (r: WhiteListData)
        ensures
            r.ip@.len() == 0,
            r.username@.len() == 0,
            r.password@.len() == 0,
            r.user_id == 0,
    {
        WhiteListData { ip: String::new(), username: String::new(), password: String::new(), user_id: 0 }
    }
}

impl WhiteListData {
    /// An entry for a concrete user.
    pub fn new_with_id(ip: &str, username: &str, password: &str, user_id: UserId) -> (r: WhiteListData)
        ensures
            r.ip@ == ip@,
            r.username@ == username@,
            r.password@ == password@,
            r.user_id == user_id,
    {
        WhiteListData { ip: owned(ip), username: owned(username), password: owned(password), user_id }
    }

    /// An entry for the anonymous default user (id 0).
    pub fn new_default_id(ip: &str, username: &str, password: &str) -> (r: WhiteListData)
        ensures
            r.ip@ == ip@,
            r.username@ == username@,
            r.password@ == password@,
            r.user_id == 0,
    {
        WhiteListData { ip: owned(ip), username: owned(username), password: owned(password), user_id: 0 }
    }
}

/// Bytes moved for one user over one flow.
#[derive(Debug, Clone, PartialEq, Eq)]
pub struct TrafficInfo {
    pub user_id: UserId,
    pub user_plan_id: UserPlanId,
    pub host: String,
    pub local_ip: String,
    pub remote_ip: String,
    pub upload: u64,
    pub download: u64,
}

/// The flow key `host-local_ip-remote_ip` of a record.
pub open spec fn flow_key(t: TrafficInfo) -> Seq<char> {
    dash3(t.host@, t.local_ip@, t.remote_ip@)
}

impl TrafficInfo {
    /// A record of `traffic` bytes in one direction: upload when
    /// `is_upload`, download otherwise.
    pub fn new(
        user_id: UserId,
        user_plan_id: UserPlanId,
        host: &str,
        traffic: u64,
        is_upload: bool,
        remote_ip: &str,
        local_ip: &str,
    ) -> (r: TrafficInfo)
        ensures
            r.user_id == user_id,
            r.user_plan_id == user_plan_id,
            r.host@ == host@,
            r.remote_ip@ == remote_ip@,
            r.local_ip@ == local_ip@,
            r.upload == (if is_upload { traffic } else { 0 }),
            r.download == (if is_upload { 0 } else { traffic }),
    {
        let (upload, download) = if is_upload {
            (traffic, 0)
        } else {
            (0, traffic)
        };
        TrafficInfo {
            user_id,
            user_plan_id,
            upload,
            download,
            host: owned(host),
            remote_ip: owned(remote_ip),
            local_ip: owned(local_ip),
        }
    }

    /// The aggregation key `host-local_ip-remote_ip`.
    pub fn get_key(&self) -> (r: String)
        ensures
            r@ == flow_key(*self),
    {
        join_dash3(self.host.as_str(), self.local_ip.as_str(), self.remote_ip.as_str())
    }

    /// A field-by-field copy.
    pub fn duplicate_exact(&self) -> (r: TrafficInfo)
        ensures
            r == *self,
    {
        TrafficInfo {
            user_id: self.user_id,
            user_plan_id: self.user_plan_id,
            host: self.host.clone(),
            local_ip: self.local_ip.clone(),
            remote_ip: self.remote_ip.clone(),
            upload: self.upload,
            download: self.download,
        }
    }
}

} // verus!

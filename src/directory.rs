//! The user directory: users, the local-IP and white-IP indices, and the
//! allowlist, with the authentication decision made over them.
use vstd::prelude::*;
use dashmap::DashMap;
use crate::model::{id_only, UserId, UserInfo, WhiteListData, texts};
use crate::text::{dash2, dash3, join_dash2, join_dash3, owned, str_eq};

verus! {

/// dashmap's concurrent hash map, held opaque; what it holds is named below.
#[verifier::external_type_specification]
#[verifier::external_body]
#[verifier::reject_recursive_types(K)]
#[verifier::reject_recursive_types(V)]
#[verifier::reject_recursive_types(S)]
pub struct ExDashMap<K, V, S>(DashMap<K, V, S>);

/// What a text-keyed index holds.
pub uninterp spec fn key_index(m: DashMap<String, u64>) -> Map<Seq<char>, u64>;

/// What the user table holds.
pub uninterp spec fn user_records(m: DashMap<u64, UserInfo>) -> Map<u64, UserInfo>;

pub open spec fn no_keys() -> Map<Seq<char>, u64> {
    Map::empty()
}

pub open spec fn no_records() -> Map<u64, UserInfo> {
    Map::empty()
}

/// Relies on `DashMap::new`: a new map is empty.
#[verifier::external_body]
fn index_new() -> (r: DashMap<String, u64>)
    ensures
        key_index(r) == no_keys(),
{
    DashMap::new()
}

/// Relies on `DashMap::get`: the value stored under `key`, if any.
#[verifier::external_body]
fn index_get(m: &DashMap<String, u64>, key: &str) -> (r: Option<u64>)
    ensures
        r == (if key_index(*m).contains_key(key@) { Some(key_index(*m)[key@]) } else { None }),
{
    m.get(key).map(|v| *v)
}

/// Relies on `DashMap::insert`: `key` maps to `value` afterwards, every other key is unchanged.
#[verifier::external_body]
fn index_insert(m: &mut DashMap<String, u64>, key: String, value: u64)
    ensures
        key_index(*final(m)) == key_index(*old(m)).insert(key@, value),
{
    m.insert(key, value);
}

/// Relies on `DashMap::new`: a new map is empty.
#[verifier::external_body]
fn records_new() -> (r: DashMap<u64, UserInfo>)
    ensures
        user_records(r) == no_records(),
{
    DashMap::new()
}

/// Relies on `DashMap::get`: a copy of the record stored under `id`, if any.
#[verifier::external_body]
fn records_get(m: &DashMap<u64, UserInfo>, id: u64) -> (r: Option<UserInfo>)
    ensures
        r == (if user_records(*m).contains_key(id) { Some(user_records(*m)[id]) } else { None }),
{
    m.get(&id).map(|v| v.value().clone())
}

/// Relies on `DashMap::insert`: `id` maps to `user` afterwards, every other id is unchanged.
#[verifier::external_body]
fn records_insert(m: &mut DashMap<u64, UserInfo>, id: u64, user: UserInfo)
    ensures
        user_records(*final(m)) == user_records(*old(m)).insert(id, user),
{
    m.insert(id, user);
}

/// The directory as values: allowlist keys, users by id, the IP index and
/// the set of allowlisted source IPs.
pub struct DirView {
    pub white: Map<Seq<char>, u64>,
    pub users: Map<u64, UserInfo>,
    pub ips: Map<Seq<char>, u64>,
    pub stock: Set<Seq<char>>,
}

pub open spec fn is_ip_auth(u: UserInfo) -> bool {
    u.auth_type@ == "IP"@
}

pub open spec fn is_password_auth(u: UserInfo) -> bool {
    u.auth_type@ == "PASSWORD"@
}

/// The user that the IP index names under `key`, if both lookups succeed.
pub open spec fn indexed_user(d: DirView, key: Seq<char>) -> Option<UserInfo> {
    if d.ips.contains_key(key) && d.users.contains_key(d.ips[key]) {
        Some(d.users[d.ips[key]])
    } else {
        None
    }
}

/// `u` is the identity record of the accepted `decision`.
pub open spec fn accepted_as(u: UserInfo, decision: Option<(UserId, u64)>) -> bool {
    match decision {
        Some(p) => id_only(u, p.0, p.1),
        None => false,
    }
}

pub open spec fn identity(u: UserInfo) -> Option<(UserId, u64)> {
    Some((u.user_id, u.user_plan_id))
}

/// The white-IP path: the user indexed under the client's address, if it is
/// available, authenticates by IP, and names that address.
pub open spec fn white_pass(d: DirView, remote_ip: Seq<char>) -> Option<(UserId, u64)> {
    match indexed_user(d, remote_ip) {
        Some(u) => if u.available && is_ip_auth(u) && remote_ip == u.white_ip@ {
            identity(u)
        } else {
            None
        },
        None => None,
    }
}

/// The allowlist key a client matches: its address alone when it gives no
/// credentials, `remote_ip-username-password` otherwise.
pub open spec fn client_key(remote_ip: Seq<char>, username: Seq<char>, password: Seq<char>) -> Seq<char> {
    if username.len() == 0 && password.len() == 0 {
        remote_ip
    } else {
        dash3(remote_ip, username, password)
    }
}

/// The allowlist path, keyed by the client's composite key.
pub open spec fn allowlist_pass(
    d: DirView,
    username: Seq<char>,
    password: Seq<char>,
    remote_ip: Seq<char>,
) -> Option<(UserId, u64)> {
    let key = client_key(remote_ip, username, password);
    if d.white.contains_key(key) {
        let id = d.white[key];
        if id == 0 {
            Some((0u64, 0u64))
        } else if d.users.contains_key(id) && d.users[id].available && is_password_auth(d.users[id]) {
            identity(d.users[id])
        } else {
            None
        }
    } else {
        None
    }
}

/// The key of the password path: the client's address for an empty
/// username, `local_ip-username` otherwise.
pub open spec fn password_key(username: Seq<char>, local_ip: Seq<char>, remote_ip: Seq<char>) -> Seq<char> {
    if username.len() == 0 {
        remote_ip
    } else {
        dash2(local_ip, username)
    }
}

/// The password path: the indexed user, if available and its password matches.
pub open spec fn password_pass(
    d: DirView,
    username: Seq<char>,
    password: Seq<char>,
    local_ip: Seq<char>,
    remote_ip: Seq<char>,
) -> Option<(UserId, u64)> {
    match indexed_user(d, password_key(username, local_ip, remote_ip)) {
        Some(u) => if u.password@ == password && u.available {
            identity(u)
        } else {
            None
        },
        None => None,
    }
}

/// The authentication decision: the identity accepted, or `None` when rejected.
pub open spec fn auth_decision(
    d: DirView,
    username: Seq<char>,
    password: Seq<char>,
    local_ip: Seq<char>,
    remote_ip: Seq<char>,
    is_white: bool,
) -> Option<(UserId, u64)> {
    let first = if is_white { white_pass(d, remote_ip) } else { None };
    let second = allowlist_pass(d, username, password, remote_ip);
    if first is Some {
        first
    } else if second is Some {
        second
    } else {
        password_pass(d, username, password, local_ip, remote_ip)
    }
}

/// The index key of `u` for the local IP `ip`, as a bulk refresh writes it.
pub open spec fn user_key(u: UserInfo, ip: Seq<char>) -> Seq<char> {
    if is_ip_auth(u) {
        u.white_ip@
    } else {
        dash2(ip, u.username@)
    }
}

/// `m` with the keys of `u` for its first `k` local IPs pointing at `u`.
pub open spec fn add_user_keys(m: Map<Seq<char>, u64>, u: UserInfo, k: nat) -> Map<Seq<char>, u64>
    decreases k,
{
    if k == 0 || k > u.ips@.len() {
        m
    } else {
        add_user_keys(m, u, (k - 1) as nat).insert(user_key(u, u.ips@[k - 1]@), u.user_id)
    }
}

/// The IP index that a bulk refresh with `us` builds.
pub open spec fn ip_index_of(us: Seq<UserInfo>) -> Map<Seq<char>, u64>
    decreases us.len(),
{
    if us.len() == 0 {
        Map::empty()
    } else {
        add_user_keys(ip_index_of(us.drop_last()), us.last(), us.last().ips@.len())
    }
}

/// The user table that a bulk refresh with `us` builds: by id, later records win.
pub open spec fn records_of(us: Seq<UserInfo>) -> Map<u64, UserInfo>
    decreases us.len(),
{
    if us.len() == 0 {
        Map::empty()
    } else {
        records_of(us.drop_last()).insert(us.last().user_id, us.last())
    }
}

/// `d` after a bulk refresh with `us`: users and IP index rebuilt from
/// `us`, the allowlist kept.
pub open spec fn refreshed(d: DirView, us: Seq<UserInfo>) -> DirView {
    DirView { users: records_of(us), ips: ip_index_of(us), ..d }
}

/// The allowlist key of an entry: its IP alone when it carries no
/// credentials, `ip-username-password` otherwise.
pub open spec fn white_key(w: WhiteListData) -> Seq<char> {
    if w.username@.len() == 0 && w.password@.len() == 0 {
        w.ip@
    } else {
        dash3(w.ip@, w.username@, w.password@)
    }
}

/// The allowlist that a refresh with `ws` builds: later entries win.
pub open spec fn white_index_of(ws: Seq<WhiteListData>) -> Map<Seq<char>, u64>
    decreases ws.len(),
{
    if ws.len() == 0 {
        Map::empty()
    } else {
        white_index_of(ws.drop_last()).insert(white_key(ws.last()), ws.last().user_id)
    }
}

/// The source IPs named by `ws`.
pub open spec fn stock_of(ws: Seq<WhiteListData>) -> Set<Seq<char>> {
    Set::new(|ip: Seq<char>| exists|i: int| 0 <= i < ws.len() && (#[trigger] ws[i]).ip@ == ip)
}

/// The in-memory user directory.
pub struct DcAuthenticator {
    /// allowlist: `ip` or `ip-username-password` to user id (0: default user)
    user_white_list: DashMap<String, UserId>,
    /// user id to record
    user_map: DashMap<UserId, UserInfo>,
    /// `local_ip-username` or white IP to user id
    ip_map: DashMap<String, UserId>,
    /// every source IP named by the allowlist
    in_stock: Vec<String>,
}

impl View for DcAuthenticator {
    type V = DirView;

    closed spec fn view(&self) -> DirView {
        DirView {
            white: key_index(self.user_white_list),
            users: user_records(self.user_map),
            ips: key_index(self.ip_map),
            stock: texts(self.in_stock@).to_set(),
        }
    }
}

/// The allowlist key a client matches.
fn client_lookup_key(remote_ip: &str, username: &str, password: &str) -> (r: String)
    ensures
        r@ == client_key(remote_ip@, username@, password@),
{
    if username.is_empty() && password.is_empty() {
        owned(remote_ip)
    } else {
        join_dash3(remote_ip, username, password)
    }
}

/// The key of the password path.
fn password_lookup_key(username: &str, local_ip: &str, remote_ip: &str) -> (r: String)
    ensures
        r@ == password_key(username@, local_ip@, remote_ip@),
{
    if username.is_empty() {
        owned(remote_ip)
    } else {
        join_dash2(local_ip, username)
    }
}

impl DcAuthenticator {
    /// An empty directory.
    pub fn new() -> (r: DcAuthenticator)
        ensures
            r@.white == Map::<Seq<char>, u64>::empty(),
            r@.users == Map::<u64, UserInfo>::empty(),
            r@.ips == Map::<Seq<char>, u64>::empty(),
            r@.stock == Set::<Seq<char>>::empty(),
    {
        let r = DcAuthenticator {
            user_white_list: index_new(),
            user_map: records_new(),
            ip_map: index_new(),
            in_stock: Vec::new(),
        };
        assert(texts(r.in_stock@).to_set() =~= Set::<Seq<char>>::empty());
        r
    }

    /// The user id that the allowlist holds under `key`.
    pub fn check_white_list(&self, key: &str) -> (r: Option<UserId>)
        ensures
            r == (if self@.white.contains_key(key@) { Some(self@.white[key@]) } else { None }),
    {
        index_get(&self.user_white_list, key)
    }

    /// The record of the user indexed under `key` (an address or
    /// `local_ip-username`), if both lookups succeed.
    pub fn user_map_get(&self, key: &str) -> (r: Option<UserInfo>)
        ensures
            r == indexed_user(self@, key@),
    {
        match index_get(&self.ip_map, key) {
            Some(id) => records_get(&self.user_map, id),
            None => None,
        }
    }

    /// The record stored for `user_id`.
    pub fn user(&self, user_id: UserId) -> (r: Option<UserInfo>)
        ensures
            r == (if self@.users.contains_key(user_id) { Some(self@.users[user_id]) } else { None }),
    {
        records_get(&self.user_map, user_id)
    }

    /// Whether `ip` is the source IP of any allowlist entry.
    pub fn in_stock(&self, ip: &str) -> (r: bool)
        ensures
            r == self@.stock.contains(ip@),
    {
        let mut i: usize = 0;
        while i < self.in_stock.len()
            invariant
                i <= self.in_stock@.len(),
                forall|j: int| 0 <= j < i ==> (#[trigger] self.in_stock@[j])@ != ip@,
            decreases self.in_stock@.len() - i,
        {
            if str_eq(self.in_stock[i].as_str(), ip) {
                assert(texts(self.in_stock@)[i as int] == ip@);
                return true;
            }
            i = i + 1;
        }
        proof {
            if texts(self.in_stock@).to_set().contains(ip@) {
                let j = choose|j: int| 0 <= j < texts(self.in_stock@).len() && texts(self.in_stock@)[j] == ip@;
                assert(self.in_stock@[j]@ == ip@);
            }
        }
        false
    }

    /// Authenticates a client. The decision order: the white-IP path when
    /// `is_white`; failing that, the allowlist under the client's composite
    /// key (its address alone without credentials, else
    /// `remote_ip-username-password`); failing that, the password path keyed by the client's address (empty
    /// username) or `ip-username`. An accepted client gets its identity
    /// (user and plan id only); a rejected one gets the default record.
    pub fn check_auth(
        &self,
        username: &str,
        password: &str,
        ip: &str,
        remote_ip: &str,
        is_white: bool,
    ) -> (r: (bool, UserInfo))
        ensures
            r.0 == auth_decision(self@, username@, password@, ip@, remote_ip@, is_white) is Some,
            r.0 ==> accepted_as(r.1, auth_decision(self@, username@, password@, ip@, remote_ip@, is_white)),
            !r.0 ==> id_only(r.1, 0, 0),
    {
        if is_white {
            if let Some(user_info) = self.user_map_get(remote_ip) {
                if user_info.available && str_eq(user_info.auth_type.as_str(), "IP")
                    && str_eq(remote_ip, user_info.white_ip.as_str()) {
                    return (true, UserInfo::clone_id(&user_info));
                }
            }
        }
        let key = client_lookup_key(remote_ip, username, password);
        if let Some(user_id) = self.check_white_list(key.as_str()) {
            if user_id == 0 {
                return (true, UserInfo::default());
            }
            if let Some(user_info) = records_get(&self.user_map, user_id) {
                if user_info.available && str_eq(user_info.auth_type.as_str(), "PASSWORD") {
                    return (true, UserInfo::clone_id(&user_info));
                }
            }
        }
        let key = password_lookup_key(username, ip, remote_ip);
        if let Some(user_info) = self.user_map_get(key.as_str()) {
            if str_eq(user_info.password.as_str(), password) && user_info.available {
                return (true, UserInfo::clone_id(&user_info));
            }
        }
        (false, UserInfo::default())
    }
}


/// The key under which a bulk refresh indexes `user` for the local IP `ip`.
fn user_index_key(user: &UserInfo, ip: &str) -> (r: String)
    ensures
        r@ == user_key(*user, ip@),
{
    if str_eq(user.auth_type.as_str(), "IP") {
        owned(user.white_ip.as_str())
    } else {
        join_dash2(ip, user.username.as_str())
    }
}

/// The allowlist key of an entry.
fn white_entry_key(w: &WhiteListData) -> (r: String)
    ensures
        r@ == white_key(*w),
{
    if w.username.as_str().is_empty() && w.password.as_str().is_empty() {
        owned(w.ip.as_str())
    } else {
        join_dash3(w.ip.as_str(), w.username.as_str(), w.password.as_str())
    }
}

impl DcAuthenticator {
    /// Replaces the user table and the IP index with those built from
    /// `user_infos`; the allowlist is kept.
    pub fn update_all(&mut self, user_infos: Vec<UserInfo>)
        ensures
            final(self)@ == refreshed(old(self)@, user_infos@),
            final(self)@.users == records_of(user_infos@),
            final(self)@.ips == ip_index_of(user_infos@),
            final(self)@.white == old(self)@.white,
            final(self)@.stock == old(self)@.stock,
    {
        let mut user_map = records_new();
        let mut ip_map = index_new();
        let mut rest = user_infos;
        let ghost all = rest@;
        let ghost mut done: Seq<UserInfo> = Seq::empty();
        while rest.len() > 0
            invariant
                all == done + rest@,
                user_records(user_map) == records_of(done),
                key_index(ip_map) == ip_index_of(done),
            decreases rest@.len(),
        {
            let user = rest.remove(0);
            let mut k: usize = 0;
            while k < user.ips.len()
                invariant
                    k <= user.ips@.len(),
                    key_index(ip_map) == add_user_keys(ip_index_of(done), user, k as nat),
                decreases user.ips@.len() - k,
            {
                let key = user_index_key(&user, user.ips[k].as_str());
                index_insert(&mut ip_map, key, user.user_id);
                k = k + 1;
            }
            proof {
                let nd = done.push(user);
                assert(nd.drop_last() =~= done);
                assert(nd.last() == user);
                assert(all =~= nd + rest@);
                done = nd;
            }
            let id = user.user_id;
            records_insert(&mut user_map, id, user);
        }
        assert(done =~= all);
        self.user_map = user_map;
        self.ip_map = ip_map;
    }

    /// Replaces the allowlist and the set of allowlisted source IPs with
    /// those built from `white_list`.
    pub fn update_white_list(&mut self, white_list: Vec<WhiteListData>)
        ensures
            final(self)@.white == white_index_of(white_list@),
            final(self)@.stock == stock_of(white_list@),
            final(self)@.users == old(self)@.users,
            final(self)@.ips == old(self)@.ips,
    {
        let mut white = index_new();
        let mut stock: Vec<String> = Vec::new();
        let mut i: usize = 0;
        while i < white_list.len()
            invariant
                i <= white_list@.len(),
                key_index(white) == white_index_of(white_list@.subrange(0, i as int)),
                stock@.len() == i,
                forall|j: int| 0 <= j < i ==> (#[trigger] stock@[j])@ == white_list@[j].ip@,
            decreases white_list@.len() - i,
        {
            let entry = &white_list[i];
            let key = white_entry_key(entry);
            index_insert(&mut white, key, entry.user_id);
            stock.push(entry.ip.clone());
            proof {
                let pre = white_list@.subrange(0, i as int);
                let post = white_list@.subrange(0, i as int + 1);
                assert(post.drop_last() =~= pre);
            }
            i = i + 1;
        }
        assert(white_list@.subrange(0, white_list@.len() as int) =~= white_list@);
        assert forall|ip: Seq<char>| texts(stock@).to_set().contains(ip) == stock_of(white_list@).contains(ip) by {
            if texts(stock@).to_set().contains(ip) {
                let j = choose|j: int| 0 <= j < texts(stock@).len() && texts(stock@)[j] == ip;
                assert(white_list@[j].ip@ == ip);
            }
            if stock_of(white_list@).contains(ip) {
                let m = choose|m: int| 0 <= m < white_list@.len() && (#[trigger] white_list@[m]).ip@ == ip;
                assert(texts(stock@)[m] == ip);
            }
        }
        assert(texts(stock@).to_set() =~= stock_of(white_list@));
        self.user_white_list = white;
        self.in_stock = stock;
    }

    /// Inserts or replaces one user, and points its index keys (as a bulk
    /// refresh builds them) at it.
    pub fn update_user_info(&mut self, user_info: UserInfo)
        ensures
            final(self)@.users == old(self)@.users.insert(user_info.user_id, user_info),
            final(self)@.ips == add_user_keys(old(self)@.ips, user_info, user_info.ips@.len()),
            final(self)@.white == old(self)@.white,
            final(self)@.stock == old(self)@.stock,
    {
        let mut k: usize = 0;
        while k < user_info.ips.len()
            invariant
                k <= user_info.ips@.len(),
                key_index(self.ip_map) == add_user_keys(key_index(old(self).ip_map), user_info, k as nat),
                self.user_map == old(self).user_map,
                self.user_white_list == old(self).user_white_list,
                self.in_stock == old(self).in_stock,
            decreases user_info.ips@.len() - k,
        {
            let key = user_index_key(&user_info, user_info.ips[k].as_str());
            index_insert(&mut self.ip_map, key, user_info.user_id);
            k = k + 1;
        }
        let id = user_info.user_id;
        records_insert(&mut self.user_map, id, user_info);
    }

    /// Sets whether a stored user may authenticate; nothing happens for an
    /// unknown id.
    pub fn set_available(&mut self, user_id: UserId, available: bool)
        ensures
            final(self)@.users == (if old(self)@.users.contains_key(user_id) {
                old(self)@.users.insert(user_id, UserInfo { available: available, ..old(self)@.users[user_id] })
            } else {
                old(self)@.users
            }),
            final(self)@.ips == old(self)@.ips,
            final(self)@.white == old(self)@.white,
            final(self)@.stock == old(self)@.stock,
    {
        if let Some(mut info) = records_get(&self.user_map, user_id) {
            info.available = available;
            records_insert(&mut self.user_map, user_id, info);
        }
    }

    /// Marks a stored user unavailable.
    pub fn disable_user(&mut self, user_id: UserId)
        ensures
            final(self)@.users == (if old(self)@.users.contains_key(user_id) {
                old(self)@.users.insert(user_id, UserInfo { available: false, ..old(self)@.users[user_id] })
            } else {
                old(self)@.users
            }),
            final(self)@.ips == old(self)@.ips,
            final(self)@.white == old(self)@.white,
            final(self)@.stock == old(self)@.stock,
    {
        self.set_available(user_id, false);
    }

    /// Marks a stored user available.
    pub fn enable_user(&mut self, user_id: UserId)
        ensures
            final(self)@.users == (if old(self)@.users.contains_key(user_id) {
                old(self)@.users.insert(user_id, UserInfo { available: true, ..old(self)@.users[user_id] })
            } else {
                old(self)@.users
            }),
            final(self)@.ips == old(self)@.ips,
            final(self)@.white == old(self)@.white,
            final(self)@.stock == old(self)@.stock,
    {
        self.set_available(user_id, true);
    }
}

/// Keys that `u` does not produce for its first `n` IPs keep their entries.
proof fn lemma_add_keys_other(m: Map<Seq<char>, u64>, u: UserInfo, n: nat, key: Seq<char>)
    requires
        n <= u.ips@.len(),
        forall|k: int| 0 <= k < n ==> user_key(u, (#[trigger] u.ips@[k])@) != key,
    ensures
        add_user_keys(m, u, n).contains_key(key) == m.contains_key(key),
        m.contains_key(key) ==> add_user_keys(m, u, n)[key] == m[key],
    decreases n,
{
    if n > 0 {
        lemma_add_keys_other(m, u, (n - 1) as nat, key);
    }
}

/// Every key that `u` produces for its first `n` IPs points at `u`.
proof fn lemma_add_keys_own(m: Map<Seq<char>, u64>, u: UserInfo, n: nat, k: int)
    requires
        n <= u.ips@.len(),
        0 <= k < n,
    ensures
        add_user_keys(m, u, n).contains_key(user_key(u, u.ips@[k]@)),
        add_user_keys(m, u, n)[user_key(u, u.ips@[k]@)] == u.user_id,
    decreases n,
{
    if k < n - 1 {
        lemma_add_keys_own(m, u, (n - 1) as nat, k);
    }
}

/// After a bulk refresh with `us`, every local IP of every user is indexed
/// (under `ip-username`, or under the white IP for IP authentication) and
/// the index gives that user's id, unless a later user of `us` produces the
/// same key.
pub proof fn lemma_index_complete(us: Seq<UserInfo>, i: int, k: int)
    requires
        0 <= i < us.len(),
        0 <= k < us[i].ips@.len(),
        forall|j: int, m: int|
            i < j < us.len() && 0 <= m < us[j].ips@.len()
                ==> user_key(us[j], (#[trigger] us[j].ips@[m])@) != user_key(us[i], us[i].ips@[k]@),
    ensures
        ip_index_of(us).contains_key(user_key(us[i], us[i].ips@[k]@)),
        ip_index_of(us)[user_key(us[i], us[i].ips@[k]@)] == us[i].user_id,
    decreases us.len(),
{
    let key = user_key(us[i], us[i].ips@[k]@);
    let last = us.last();
    if i == us.len() - 1 {
        lemma_add_keys_own(ip_index_of(us.drop_last()), last, last.ips@.len(), k);
    } else {
        let pre = us.drop_last();
        assert(pre[i] == us[i]);
        assert forall|j: int, m: int|
            i < j < pre.len() && 0 <= m < pre[j].ips@.len()
                implies user_key(pre[j], (#[trigger] pre[j].ips@[m])@) != key by {
            assert(pre[j] == us[j]);
        }
        lemma_index_complete(pre, i, k);
        assert forall|m: int| 0 <= m < last.ips@.len() implies user_key(last, (#[trigger] last.ips@[m])@) != key by {
            assert(us[us.len() - 1] == last);
        }
        lemma_add_keys_other(ip_index_of(pre), last, last.ips@.len(), key);
    }
}

/// A bulk refresh replaces users and index as a whole: once two
/// directories with the same allowlist are refreshed with the same users,
/// every authentication decides alike, whatever users either held before.
pub proof fn lemma_refresh_is_whole(
    d1: DirView,
    d2: DirView,
    us: Seq<UserInfo>,
    username: Seq<char>,
    password: Seq<char>,
    local_ip: Seq<char>,
    remote_ip: Seq<char>,
    is_white: bool,
)
    requires
        d1.white == d2.white,
        d1.stock == d2.stock,
    ensures
        auth_decision(refreshed(d1, us), username, password, local_ip, remote_ip, is_white)
            == auth_decision(refreshed(d2, us), username, password, local_ip, remote_ip, is_white),
{
    assert(refreshed(d1, us) == refreshed(d2, us));
}

/// A client whose composite key the allowlist maps to the default user
/// (id 0) is accepted as the default user whenever the white-IP step does
/// not accept it, whatever users and index the directory holds.
pub proof fn lemma_allowlist_default(
    d: DirView,
    username: Seq<char>,
    password: Seq<char>,
    local_ip: Seq<char>,
    remote_ip: Seq<char>,
    is_white: bool,
)
    requires
        d.white.contains_key(client_key(remote_ip, username, password)),
        d.white[client_key(remote_ip, username, password)] == 0,
        !is_white || white_pass(d, remote_ip) is None,
    ensures
        auth_decision(d, username, password, local_ip, remote_ip, is_white) == Some((0u64, 0u64)),
{
}

/// A directory that accepts everyone as the default user.
pub struct DefaultAuthenticator;

impl DefaultAuthenticator {
    /// Always accepted, as the default user.
    pub fn check_auth(
        &self,
        username: &str,
        password: &str,
        ip: &str,
        remote_ip: &str,
        is_white: bool,
    ) -> (r: (bool, UserInfo))
        ensures
            r.0,
            id_only(r.1, 0, 0),
    {
        (true, UserInfo::default())
    }

    /// No address is allowlisted.
    pub fn in_stock(&self, ip: &str) -> (r: bool)
        ensures
            !r,
    {
        false
    }

    /// No user is indexed.
    pub fn user_map_get(&self, key: &str) -> (r: Option<UserInfo>)
        ensures
            r is None,
    {
        None
    }
}

} // verus!

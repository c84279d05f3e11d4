//! Access control: which (user, host, local IP) requests are refused.
use vstd::prelude::*;
use crate::model::{texts, UserInfo};
use crate::text::{dash2, dec, join_dash2, owned, str_eq, to_dec};

verus! {

/// A rule set consulted after authentication.
pub trait AclRule {
    /// Whether a request of `user_id` to `host` through the local IP `ip` may go on.
    spec fn allows(&self, user_id: u64, host: Seq<char>, ip: Seq<char>) -> bool;

    fn check(&self, user_info: &UserInfo, host: &str, ip: &str) -> (r: bool)
        ensures
            r == self.allows(user_info.user_id, host@, ip@);

    /// Replaces the rules from a serialized blob whose format the rule set owns.
    fn update(&mut self, data: &str);
}

/// Allows everything.
pub struct DefaultAclRule;

impl AclRule for DefaultAclRule {
    open spec fn allows(&self, user_id: u64, host: Seq<char>, ip: Seq<char>) -> bool {
        true
    }

    fn check(&self, user_info: &UserInfo, host: &str, ip: &str) -> (r: bool) {
        true
    }

    fn update(&mut self, data: &str) {
    }
}

/// Whether the list holds the text `s`.
pub fn list_contains(v: &Vec<String>, s: &str) -> (r: bool)
    ensures
        r == texts(v@).contains(s@),
{
    let mut i: usize = 0;
    while i < v.len()
        invariant
            i <= v@.len(),
            forall|j: int| 0 <= j < i ==> (#[trigger] v@[j])@ != s@,
        decreases v@.len() - i,
    {
        if str_eq(v[i].as_str(), s) {
            assert(texts(v@)[i as int] == s@);
            return true;
        }
        i = i + 1;
    }
    proof {
        if texts(v@).contains(s@) {
            let j = choose|j: int| 0 <= j < texts(v@).len() && texts(v@)[j] == s@;
            assert(v@[j]@ == s@);
        }
    }
    false
}

/// Refuses listed hosts, listed `user_id-host` pairs and listed `local_ip-host` pairs.
pub struct BlackListAclRule {
    host: Vec<String>,
    user_host: Vec<String>,
    ip_host: Vec<String>,
}

impl BlackListAclRule {
    pub closed spec fn hosts(&self) -> Seq<Seq<char>> {
        texts(self.host@)
    }

    pub closed spec fn user_hosts(&self) -> Seq<Seq<char>> {
        texts(self.user_host@)
    }

    pub closed spec fn ip_hosts(&self) -> Seq<Seq<char>> {
        texts(self.ip_host@)
    }

    /// A rule set that refuses nothing.
    pub fn new() -> (r: BlackListAclRule)
        ensures
            r.hosts().len() == 0,
            r.user_hosts().len() == 0,
            r.ip_hosts().len() == 0,
    {
        let r = BlackListAclRule { host: Vec::new(), user_host: Vec::new(), ip_host: Vec::new() };
        assert(texts(r.host@) =~= Seq::<Seq<char>>::empty());
        assert(texts(r.user_host@) =~= Seq::<Seq<char>>::empty());
        assert(texts(r.ip_host@) =~= Seq::<Seq<char>>::empty());
        r
    }

    /// Refuses `host` for everyone.
    pub fn block_host(&mut self, host: &str)
        ensures
            final(self).hosts() == old(self).hosts().push(host@),
            final(self).user_hosts() == old(self).user_hosts(),
            final(self).ip_hosts() == old(self).ip_hosts(),
    {
        self.host.push(owned(host));
        assert(texts(self.host@) =~= texts(old(self).host@).push(host@));
    }

    /// Refuses `host` for the user `user_id`.
    pub fn block_user_host(&mut self, user_id: u64, host: &str)
        ensures
            final(self).user_hosts() == old(self).user_hosts().push(dash2(dec(user_id as nat), host@)),
            final(self).hosts() == old(self).hosts(),
            final(self).ip_hosts() == old(self).ip_hosts(),
    {
        let id = to_dec(user_id);
        self.user_host.push(join_dash2(id.as_str(), host));
        assert(texts(self.user_host@) =~= texts(old(self).user_host@).push(dash2(dec(user_id as nat), host@)));
    }

    /// Refuses `host` through the local IP `ip`.
    pub fn block_ip_host(&mut self, ip: &str, host: &str)
        ensures
            final(self).ip_hosts() == old(self).ip_hosts().push(dash2(ip@, host@)),
            final(self).hosts() == old(self).hosts(),
            final(self).user_hosts() == old(self).user_hosts(),
    {
        self.ip_host.push(join_dash2(ip, host));
        assert(texts(self.ip_host@) =~= texts(old(self).ip_host@).push(dash2(ip@, host@)));
    }
}

impl AclRule for BlackListAclRule {
    open spec fn allows(&self, user_id: u64, host: Seq<char>, ip: Seq<char>) -> bool {
        !self.hosts().contains(host)
            && !self.user_hosts().contains(dash2(dec(user_id as nat), host))
            && !self.ip_hosts().contains(dash2(ip, host))
    }

    fn check(&self, user_info: &UserInfo, host: &str, ip: &str) -> (r: bool) {
        if list_contains(&self.host, host) {
            return false;
        }
        let id = to_dec(user_info.user_id);
        let user_key = join_dash2(id.as_str(), host);
        if list_contains(&self.user_host, user_key.as_str()) {
            return false;
        }
        let ip_key = join_dash2(ip, host);
        if list_contains(&self.ip_host, ip_key.as_str()) {
            return false;
        }
        true
    }

    fn update(&mut self, data: &str) {
    }
}

} // verus!

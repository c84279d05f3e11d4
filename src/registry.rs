//! The connection registry: live tunnels by user, each with the canceller
//! that stops it.
use vstd::prelude::*;
use std::collections::HashMap;
use crate::model::UserId;

verus! {

broadcast use vstd::std_specs::hash::group_hash_axioms;

/// Live tunnels: for each user the handles of its tunnels, for each handle
/// its owner and canceller.
pub struct ConnStat<T> {
    connections: HashMap<UserId, Vec<u64>>,
    connection_map: HashMap<u64, (UserId, T)>,
    users: Vec<UserId>,
}

impl<T> ConnStat<T> {
    /// Handle to (owner, canceller) of every registered tunnel.
    pub closed spec fn entries(&self) -> Map<u64, (UserId, T)> {
        self.connection_map@
    }

    /// The handles registered for `user`, in registration order.
    pub closed spec fn handles_of(&self, user: UserId) -> Seq<u64> {
        if self.connections@.contains_key(user) {
            self.connections@[user]@
        } else {
            Seq::empty()
        }
    }

    /// A handle is listed under a user exactly when it is registered with
    /// that user as owner, and no list repeats a handle.
    pub closed spec fn wf(&self) -> bool {
        &&& forall|u: UserId| #[trigger] self.connections@.contains_key(u) ==> self.connections@[u]@.no_duplicates()
        &&& forall|u: UserId, h: u64| #[trigger] self.handles_of(u).contains(h)
            <==> (self.connection_map@.contains_key(h) && self.connection_map@[h].0 == u)
        &&& self.users@.no_duplicates()
        &&& forall|u: UserId| #[trigger] self.connections@.contains_key(u) <==> self.users@.contains(u)
    }

    /// An empty registry.
    pub fn new() -> (r: ConnStat<T>)
        ensures
            r.wf(),
            r.entries() == Map::<u64, (UserId, T)>::empty(),
            forall|u: UserId| #[trigger] r.handles_of(u).len() == 0,
    {
        ConnStat { connections: HashMap::new(), connection_map: HashMap::new(), users: Vec::new() }
    }

    /// In a well-formed registry the handles listed for a user are exactly
    /// the tunnels registered to that user, each listed once.
    pub proof fn lemma_handles_are_entries(&self, user: UserId)
        requires
            self.wf(),
        ensures
            self.handles_of(user).no_duplicates(),
            forall|h: u64| #[trigger] self.handles_of(user).contains(h)
                <==> (self.entries().contains_key(h) && self.entries()[h].0 == user),
    {
        assert(self.connections@.contains_key(user) ==> self.connections@[user]@.no_duplicates());
    }

    /// Whether the tunnel `id` is registered.
    pub fn contains(&self, id: u64) -> (r: bool)
        ensures
            r == self.entries().contains_key(id),
    {
        self.connection_map.contains_key(&id)
    }

    /// Registers the tunnel `id` of `user_id` with its canceller.
    pub fn add(&mut self, user_id: UserId, id: u64, sender: T)
        requires
            old(self).wf(),
            !old(self).entries().contains_key(id),
        ensures
            final(self).wf(),
            final(self).entries() == old(self).entries().insert(id, (user_id, sender)),
            final(self).handles_of(user_id) == old(self).handles_of(user_id).push(id),
            forall|u: UserId| u != user_id ==> final(self).handles_of(u) == old(self).handles_of(u),
    {
        let ghost old_handles = self.handles_of(user_id);
        let ghost old_users = self.users@;
        let mut list = match self.connections.remove(&user_id) {
            Some(l) => l,
            None => {
                self.users.push(user_id);
                proof {
                    assert(!old_users.contains(user_id));
                    assert forall|i: int, j: int| 0 <= i < j < self.users@.len() implies self.users@[i] != self.users@[j] by {
                        if j == old_users.len() {
                            assert(old_users.contains(old_users[i]));
                        }
                    }
                    assert forall|u: UserId| #[trigger] self.users@.contains(u) <==> (old_users.contains(u) || u == user_id) by {
                        if self.users@.contains(u) && u != user_id {
                            let i = choose|i: int| 0 <= i < self.users@.len() && self.users@[i] == u;
                            assert(old_users[i] == u);
                        }
                        if old_users.contains(u) {
                            let i = choose|i: int| 0 <= i < old_users.len() && old_users[i] == u;
                            assert(self.users@[i] == u);
                        }
                        if u == user_id {
                            assert(self.users@[old_users.len() as int] == u);
                        }
                    }
                }
                Vec::new()
            },
        };
        assert(list@ == old_handles);
        assert(!old_handles.contains(id));
        list.push(id);
        self.connections.insert(user_id, list);
        self.connection_map.insert(id, (user_id, sender));
        proof {
            assert forall|u: UserId| u != user_id implies self.handles_of(u) == old(self).handles_of(u) by {}
            assert forall|u: UserId| #[trigger] self.connections@.contains_key(u) implies self.connections@[u]@.no_duplicates() by {
                if u == user_id {
                    assert(self.connections@[u]@ == old_handles.push(id));
                    assert forall|i: int, j: int| 0 <= i < j < old_handles.push(id).len()
                        implies old_handles.push(id)[i] != old_handles.push(id)[j] by {
                        if j == old_handles.len() {
                            assert(old_handles.contains(old_handles[i]));
                        }
                    }
                }
            }
            assert forall|u: UserId, h: u64| #[trigger] self.handles_of(u).contains(h)
                <==> (self.connection_map@.contains_key(h) && self.connection_map@[h].0 == u) by {
                if u == user_id {
                    assert(self.handles_of(u) == old_handles.push(id));
                    if old_handles.push(id).contains(h) && h != id {
                        let i = choose|i: int| 0 <= i < old_handles.push(id).len() && old_handles.push(id)[i] == h;
                        assert(old_handles[i] == h);
                    }
                    if old_handles.contains(h) {
                        let i = choose|i: int| 0 <= i < old_handles.len() && old_handles[i] == h;
                        assert(old_handles.push(id)[i] == h);
                    }
                    if h == id {
                        assert(old_handles.push(id)[old_handles.len() as int] == h);
                    }
                } else {
                    if h == id {
                        assert(!old(self).handles_of(u).contains(h));
                    }
                }
            }
        }
    }
}

/// Position of `x` in `v`, if present.
fn position_of(v: &Vec<u64>, x: u64) -> (r: Option<usize>)
    ensures
        match r {
            Some(i) => i < v@.len() && v@[i as int] == x,
            None => !v@.contains(x),
        },
{
    let mut i: usize = 0;
    while i < v.len()
        invariant
            i <= v@.len(),
            forall|j: int| 0 <= j < i ==> v@[j] != x,
        decreases v@.len() - i,
    {
        if v[i] == x {
            return Some(i);
        }
        i = i + 1;
    }
    None
}

/// Removing the element at `i` of a list without repeats removes exactly that value.
proof fn lemma_remove_distinct(s: Seq<u64>, i: int)
    requires
        s.no_duplicates(),
        0 <= i < s.len(),
    ensures
        s.remove(i).no_duplicates(),
        forall|h: u64| s.remove(i).contains(h) <==> (s.contains(h) && h != s[i]),
{
    let r = s.remove(i);
    assert forall|a: int, b: int| 0 <= a < b < r.len() implies r[a] != r[b] by {
        let a2 = if a < i { a } else { a + 1 };
        let b2 = if b < i { b } else { b + 1 };
        assert(r[a] == s[a2] && r[b] == s[b2]);
    }
    assert forall|h: u64| r.contains(h) <==> (s.contains(h) && h != s[i]) by {
        if r.contains(h) {
            let a = choose|a: int| 0 <= a < r.len() && r[a] == h;
            let a2 = if a < i { a } else { a + 1 };
            assert(s[a2] == h);
        }
        if s.contains(h) && h != s[i] {
            let a = choose|a: int| 0 <= a < s.len() && s[a] == h;
            if a < i {
                assert(r[a] == h);
            } else {
                assert(r[a - 1] == h);
            }
        }
    }
}

impl<T> ConnStat<T> {
    /// Drops the tunnel `id` of `user_id`. Nothing happens when that tunnel
    /// is not registered for that user, so a second call is harmless.
    pub fn remove(&mut self, user_id: UserId, id: u64)
        requires
            old(self).wf(),
        ensures
            final(self).wf(),
            final(self).entries() == (if old(self).entries().contains_key(id) && old(self).entries()[id].0 == user_id {
                old(self).entries().remove(id)
            } else {
                old(self).entries()
            }),
            old(self).entries().contains_key(id) && old(self).entries()[id].0 == user_id ==> exists|i: int|
                0 <= i < old(self).handles_of(user_id).len() && old(self).handles_of(user_id)[i] == id
                    && final(self).handles_of(user_id) == old(self).handles_of(user_id).remove(i),
            !(old(self).entries().contains_key(id) && old(self).entries()[id].0 == user_id)
                ==> final(self).handles_of(user_id) == old(self).handles_of(user_id),
            forall|u: UserId| u != user_id ==> #[trigger] final(self).handles_of(u) == old(self).handles_of(u),
    {
        let registered = match self.connection_map.get(&id) {
            Some(entry) => entry.0 == user_id,
            None => false,
        };
        if !registered {
            return;
        }
        assert(self.handles_of(user_id).contains(id));
        let ghost old_handles = self.handles_of(user_id);
        let mut list = match self.connections.remove(&user_id) {
            Some(l) => l,
            None => {
                return;
            },
        };
        assert(list@ == old_handles);
        let pos = position_of(&list, id);
        let i = match pos {
            Some(i) => i,
            None => {
                assert(false);
                return;
            },
        };
        proof { lemma_remove_distinct(list@, i as int); }
        list.remove(i);
        self.connections.insert(user_id, list);
        self.connection_map.remove(&id);
        proof {
            assert(self.handles_of(user_id) == old_handles.remove(i as int));
            assert(self.connection_map@ == old(self).connection_map@.remove(id));
            assert forall|u: UserId, h: u64| #[trigger] self.handles_of(u).contains(h)
                <==> (self.connection_map@.contains_key(h) && self.connection_map@[h].0 == u) by {
                if u == user_id {
                    assert(old(self).handles_of(u).contains(h) <==> (old(self).connection_map@.contains_key(h) && old(self).connection_map@[h].0 == u));
                } else {
                    assert(self.handles_of(u) == old(self).handles_of(u));
                    if h == id {
                        assert(!old(self).handles_of(u).contains(h));
                    }
                }
            }
        }
    }

    /// Takes out every tunnel of `user_id` and hands back their cancellers,
    /// one for each tunnel, in registration order. Other users' tunnels are
    /// untouched.
    pub fn remove_all(&mut self, user_id: UserId) -> (r: Vec<T>)
        requires
            old(self).wf(),
        ensures
            final(self).wf(),
            old(self).handles_of(user_id).no_duplicates(),
            forall|h: u64| #[trigger] old(self).handles_of(user_id).contains(h)
                <==> (old(self).entries().contains_key(h) && old(self).entries()[h].0 == user_id),
            r@.len() == old(self).handles_of(user_id).len(),
            forall|i: int| 0 <= i < r@.len()
                ==> r@[i] == old(self).entries()[#[trigger] old(self).handles_of(user_id)[i]].1,
            final(self).handles_of(user_id).len() == 0,
            forall|h: u64| #[trigger] final(self).entries().contains_key(h)
                <==> (old(self).entries().contains_key(h) && old(self).entries()[h].0 != user_id),
            forall|h: u64| #[trigger] final(self).entries().contains_key(h)
                ==> final(self).entries()[h] == old(self).entries()[h],
            forall|u: UserId| u != user_id ==> #[trigger] final(self).handles_of(u) == old(self).handles_of(u),
    {
        let ghost old_handles = self.handles_of(user_id);
        assert(self.connections@.contains_key(user_id) ==> self.connections@[user_id]@.no_duplicates());
        let list = match self.connections.remove(&user_id) {
            Some(l) => l,
            None => {
                proof {
                    assert(self.connections@ =~= old(self).connections@);
                    assert forall|u: UserId| #[trigger] self.handles_of(u) == old(self).handles_of(u) by {}
                    assert forall|h: u64| #[trigger] old(self).entries().contains_key(h)
                        implies old(self).entries()[h].0 != user_id by {
                        if old(self).entries()[h].0 == user_id {
                            assert(old(self).handles_of(user_id).contains(h));
                        }
                    }
                }
                return Vec::new();
            },
        };
        assert(list@ == old_handles);
        match position_of(&self.users, user_id) {
            Some(i) => {
                proof {
                    let s = self.users@;
                    let r2 = s.remove(i as int);
                    assert forall|a: int, b: int| 0 <= a < b < r2.len() implies r2[a] != r2[b] by {
                        let a2 = if a < i { a } else { a + 1 };
                        let b2 = if b < i { b } else { b + 1 };
                        assert(r2[a] == s[a2] && r2[b] == s[b2]);
                    }
                    assert forall|u: UserId| #[trigger] r2.contains(u) <==> (s.contains(u) && u != user_id) by {
                        if r2.contains(u) {
                            let a = choose|a: int| 0 <= a < r2.len() && r2[a] == u;
                            let a2 = if a < i { a } else { a + 1 };
                            assert(s[a2] == u);
                        }
                        if s.contains(u) && u != user_id {
                            let a = choose|a: int| 0 <= a < s.len() && s[a] == u;
                            if a < i {
                                assert(r2[a] == u);
                            } else {
                                assert(r2[a - 1] == u);
                            }
                        }
                    }
                }
                self.users.remove(i);
            },
            None => {},
        }
        let ghost map0 = self.connection_map@;
        let ghost conns = self.connections@;
        let ghost users_after = self.users@;
        assert(conns == old(self).connections@.remove(user_id));
        let mut out: Vec<T> = Vec::new();
        let mut i: usize = 0;
        while i < list.len()
            invariant
                list@ == old_handles,
                old_handles.no_duplicates(),
                0 <= i <= list@.len(),
                map0 == old(self).connection_map@,
                self.connections@ == conns,
                self.users@ == users_after,
                forall|h: u64| #[trigger] old_handles.contains(h) <==> (map0.contains_key(h) && map0[h].0 == user_id),
                out@.len() == i,
                forall|j: int| 0 <= j < i ==> out@[j] == map0[#[trigger] old_handles[j]].1,
                forall|h: u64| #[trigger] self.connection_map@.contains_key(h)
                    <==> (map0.contains_key(h) && !old_handles.subrange(0, i as int).contains(h)),
                forall|h: u64| #[trigger] self.connection_map@.contains_key(h) ==> self.connection_map@[h] == map0[h],
            decreases list@.len() - i,
        {
            let h = list[i];
            assert(old_handles.contains(h));
            let removed = self.connection_map.remove(&h);
            proof {
                assert(!old_handles.subrange(0, i as int).contains(h)) by {
                    if old_handles.subrange(0, i as int).contains(h) {
                        let a = choose|a: int| 0 <= a < i && old_handles.subrange(0, i as int)[a] == h;
                        assert(old_handles[a] == old_handles[i as int]);
                    }
                }
                let pre = old_handles.subrange(0, i as int);
                let post = old_handles.subrange(0, i as int + 1);
                assert(post =~= pre.push(h));
                assert forall|x: u64| post.contains(x) <==> (pre.contains(x) || x == h) by {
                    if post.contains(x) {
                        let a = choose|a: int| 0 <= a < post.len() && post[a] == x;
                        if a < pre.len() {
                            assert(pre[a] == x);
                        }
                    }
                    if pre.contains(x) {
                        let a = choose|a: int| 0 <= a < pre.len() && pre[a] == x;
                        assert(post[a] == x);
                    }
                    if x == h {
                        assert(post[pre.len() as int] == x);
                    }
                }
            }
            match removed {
                Some(entry) => {
                    out.push(entry.1);
                },
                None => {
                    assert(false);
                },
            }
            i = i + 1;
        }
        proof {
            assert(old_handles.subrange(0, old_handles.len() as int) =~= old_handles);
            assert forall|u: UserId, h: u64| #[trigger] self.handles_of(u).contains(h)
                <==> (self.connection_map@.contains_key(h) && self.connection_map@[h].0 == u) by {
                if u != user_id {
                    assert(self.handles_of(u) == old(self).handles_of(u));
                    if old(self).handles_of(u).contains(h) {
                        assert(!old_handles.contains(h));
                    }
                }
            }
        }
        out
    }

    /// Takes out every tunnel of `user_id` and hands back the cancellers to fire.
    pub fn kill_user(&mut self, user_id: UserId) -> (r: Vec<T>)
        requires
            old(self).wf(),
        ensures
            final(self).wf(),
            old(self).handles_of(user_id).no_duplicates(),
            forall|h: u64| #[trigger] old(self).handles_of(user_id).contains(h)
                <==> (old(self).entries().contains_key(h) && old(self).entries()[h].0 == user_id),
            r@.len() == old(self).handles_of(user_id).len(),
            forall|i: int| 0 <= i < r@.len()
                ==> r@[i] == old(self).entries()[#[trigger] old(self).handles_of(user_id)[i]].1,
            final(self).handles_of(user_id).len() == 0,
            forall|h: u64| #[trigger] final(self).entries().contains_key(h)
                <==> (old(self).entries().contains_key(h) && old(self).entries()[h].0 != user_id),
            forall|h: u64| #[trigger] final(self).entries().contains_key(h)
                ==> final(self).entries()[h] == old(self).entries()[h],
            forall|u: UserId| u != user_id ==> #[trigger] final(self).handles_of(u) == old(self).handles_of(u),
    {
        self.remove_all(user_id)
    }

    /// Takes out every tunnel and hands back all cancellers.
    pub fn shutdown(&mut self) -> (r: Vec<T>)
        requires
            old(self).wf(),
        ensures
            final(self).wf(),
            final(self).entries().dom().len() == 0,
            forall|h: u64| #[trigger] old(self).entries().contains_key(h)
                ==> exists|i: int| 0 <= i < r@.len() && r@[i] == old(self).entries()[h].1,
    {
        let mut users: Vec<UserId> = Vec::new();
        let mut k: usize = 0;
        while k < self.users.len()
            invariant
                k <= self.users@.len(),
                users@ == self.users@.subrange(0, k as int),
            decreases self.users@.len() - k,
        {
            users.push(self.users[k]);
            k = k + 1;
            assert(users@ =~= self.users@.subrange(0, k as int));
        }
        assert(users@ =~= self.users@);
        let ghost start = self.entries();
        proof {
            assert forall|h: u64| #[trigger] start.contains_key(h) implies users@.contains(start[h].0) by {
                assert(self.handles_of(start[h].0).contains(h));
            }
        }
        let mut out: Vec<T> = Vec::new();
        let mut i: usize = 0;
        while i < users.len()
            invariant
                self.wf(),
                0 <= i <= users@.len(),
                start == old(self).entries(),
                forall|h: u64| #[trigger] self.entries().contains_key(h) ==> {
                    &&& start.contains_key(h)
                    &&& self.entries()[h] == start[h]
                    &&& !users@.subrange(0, i as int).contains(start[h].0)
                },
                forall|h: u64| #[trigger] start.contains_key(h) ==> users@.contains(start[h].0),
                forall|h: u64| #[trigger] start.contains_key(h) ==> (self.entries().contains_key(h)
                    || exists|j: int| 0 <= j < out@.len() && out@[j] == start[h].1),
            decreases users@.len() - i,
        {
            let u = users[i];
            let ghost before = self.entries();
            let ghost before_out = out@;
            let ghost hs = self.handles_of(u);
            let mut got = self.kill_user(u);
            proof {
                assert forall|h: u64| #[trigger] start.contains_key(h) implies (self.entries().contains_key(h)
                    || exists|j: int| 0 <= j < before_out.len() + got@.len() && (before_out + got@)[j] == start[h].1) by {
                    if !self.entries().contains_key(h) {
                        if before.contains_key(h) {
                            assert(before[h].0 == u);
                            assert(hs.contains(h));
                            let a = choose|a: int| 0 <= a < hs.len() && hs[a] == h;
                            assert(got@[a] == before[hs[a]].1);
                            assert((before_out + got@)[before_out.len() + a] == start[h].1);
                        } else {
                            let j = choose|j: int| 0 <= j < before_out.len() && before_out[j] == start[h].1;
                            assert((before_out + got@)[j] == start[h].1);
                        }
                    }
                }
                let pre = users@.subrange(0, i as int);
                let post = users@.subrange(0, i as int + 1);
                assert(post =~= pre.push(u));
                assert forall|x: UserId| post.contains(x) implies (pre.contains(x) || x == u) by {
                    let a = choose|a: int| 0 <= a < post.len() && post[a] == x;
                    if a < pre.len() {
                        assert(pre[a] == x);
                    }
                }
                assert forall|h: u64| #[trigger] self.entries().contains_key(h) implies {
                    &&& start.contains_key(h)
                    &&& self.entries()[h] == start[h]
                    &&& !post.contains(start[h].0)
                } by {
                    assert(before.contains_key(h) && before[h].0 != u);
                }
            }
            out.append(&mut got);
            i = i + 1;
        }
        proof {
            assert(users@.subrange(0, users@.len() as int) =~= users@);
            assert forall|h: u64| !self.entries().contains_key(h) by {
                if self.entries().contains_key(h) {
                    assert(users@.contains(start[h].0));
                }
            }
            assert(self.entries().dom() =~= Set::<u64>::empty());
        }
        out
    }
}

} // verus!

//! The presence registry: a bidirectional in-memory index from subscription
//! handles (one per connected client session) to user identity, kept in two
//! concurrent maps. The two indexes always agree: every id a user's list
//! holds resolves back to that user, and every resolvable id is listed under
//! its user.

use vstd::prelude::*;

verus! {

use vstd::string::StringExecFns;
use crate::util::{str_eq, fresh_ulid_string};

/// Holds the forward index's concurrent map. Opaque to the verifier: all
/// that is known of it is `entries`, through the contracts below.
#[verifier::external_body]
pub struct SubIndex {
    map: dashmap::DashMap<String, u64>,
}

/// What the forward index holds: each subscription id, mapped to its user.
pub uninterp spec fn sub_index_entries(m: SubIndex) -> Map<Seq<char>, u64>;

impl SubIndex {
    pub closed spec fn entries(self) -> Map<Seq<char>, u64> {
        sub_index_entries(self)
    }

    /// Relies on `dashmap::DashMap::new`: a fresh map holds nothing.
    #[verifier::external_body]
    fn new() -> (r: Self)
        ensures
            forall|sid: Seq<char>| !sub_index_entries(r).dom().contains(sid),
    {
        SubIndex { map: dashmap::DashMap::new() }
    }

    /// Relies on `dashmap::DashMap::insert`: maps the key to the value,
    /// returning what the key mapped to before, if anything.
    #[verifier::external_body]
    fn insert(&mut self, key: String, value: u64) -> (prev: Option<u64>)
        ensures
            final(self).entries() == old(self).entries().insert(key@, value),
            prev == if old(self).entries().dom().contains(key@) {
                Some(old(self).entries()[key@])
            } else {
                None::<u64>
            },
    {
        self.map.insert(key, value)
    }

    /// Relies on `dashmap::DashMap::get`: the value under the key, if any.
    #[verifier::external_body]
    fn get(&self, key: &str) -> (r: Option<u64>)
        ensures
            r == if self.entries().dom().contains(key@) {
                Some(self.entries()[key@])
            } else {
                None::<u64>
            },
    {
        match self.map.get(key) {
            Some(entry) => Some(*entry.value()),
            None => None,
        }
    }

    /// Relies on `dashmap::DashMap::remove`: drops the key, returning the
    /// value it mapped to, if anything.
    #[verifier::external_body]
    fn remove(&mut self, key: &str) -> (r: Option<u64>)
        ensures
            final(self).entries() == old(self).entries().remove(key@),
            r == if old(self).entries().dom().contains(key@) {
                Some(old(self).entries()[key@])
            } else {
                None::<u64>
            },
    {
        match self.map.remove(key) {
            Some((_key, value)) => Some(value),
            None => None,
        }
    }
}

/// Holds the reverse index's concurrent map. Opaque to the verifier: all
/// that is known of it is `entries`, through the contracts below.
#[verifier::external_body]
pub struct UserIndex {
    map: dashmap::DashMap<u64, Vec<String>>,
}

/// What the reverse index holds: each user, mapped to the ids of their
/// sessions in insertion order.
pub uninterp spec fn user_index_entries(m: UserIndex) -> Map<u64, Seq<Seq<char>>>;

impl UserIndex {
    pub closed spec fn entries(self) -> Map<u64, Seq<Seq<char>>> {
        user_index_entries(self)
    }

    /// Relies on `dashmap::DashMap::new`: a fresh map holds nothing.
    #[verifier::external_body]
    fn new() -> (r: Self)
        ensures
            forall|u: u64| !user_index_entries(r).dom().contains(u),
    {
        UserIndex { map: dashmap::DashMap::new() }
    }

    /// Relies on `dashmap::DashMap::insert`: maps the key to the list.
    #[verifier::external_body]
    fn insert(&mut self, key: u64, value: Vec<String>)
        ensures
            final(self).entries() == old(self).entries().insert(key, value.deep_view()),
    {
        let _ = self.map.insert(key, value);
    }

    /// Relies on `dashmap::DashMap::get`: a copy of the list under the key,
    /// if any.
    #[verifier::external_body]
    fn get(&self, key: u64) -> (r: Option<Vec<String>>)
        ensures
            r is Some <==> self.entries().dom().contains(key),
            r is Some ==> r->0.deep_view() == self.entries()[key],
    {
        match self.map.get(&key) {
            Some(entry) => Some(entry.value().clone()),
            None => None,
        }
    }

    /// Relies on `dashmap::DashMap::remove`: drops the key, returning the
    /// list it mapped to, if anything.
    #[verifier::external_body]
    fn remove(&mut self, key: u64) -> (r: Option<Vec<String>>)
        ensures
            final(self).entries() == old(self).entries().remove(key),
            r is Some <==> old(self).entries().dom().contains(key),
            r is Some ==> r->0.deep_view() == old(self).entries()[key],
    {
        match self.map.remove(&key) {
            Some((_key, value)) => Some(value),
            None => None,
        }
    }
}

/// `list` with every occurrence of `sid` removed, order otherwise kept.
pub open spec fn remove_id(list: Seq<Seq<char>>, sid: Seq<char>) -> Seq<Seq<char>>
    decreases list.len(),
{
    if list.len() == 0 {
        Seq::empty()
    } else if list[0] == sid {
        remove_id(list.skip(1), sid)
    } else {
        seq![list[0]] + remove_id(list.skip(1), sid)
    }
}

/// What `remove_id` holds: the old members except `sid`.
proof fn lemma_remove_id_elems(list: Seq<Seq<char>>, sid: Seq<char>)
    ensures
        forall|y: Seq<char>| #[trigger]
            remove_id(list, sid).contains(y) <==> (list.contains(y) && y != sid),
    decreases list.len(),
{
    if list.len() == 0 {
    } else {
        lemma_remove_id_elems(list.skip(1), sid);
        let rest = remove_id(list.skip(1), sid);
        let whole = remove_id(list, sid);
        assert forall|y: Seq<char>| #[trigger]
            whole.contains(y) implies (list.contains(y) && y != sid) by {
            let j = choose|j: int| 0 <= j < whole.len() && whole[j] == y;
            if list[0] == sid {
                assert(rest[j] == y);
                assert(rest.contains(y));
                let i = choose|i: int| 0 <= i < list.skip(1).len() && list.skip(1)[i] == y;
                assert(list[i + 1] == y);
            } else {
                if j == 0 {
                    assert(y == list[0]);
                } else {
                    assert(rest[j - 1] == y);
                    assert(rest.contains(y));
                    let i = choose|i: int| 0 <= i < list.skip(1).len() && list.skip(1)[i] == y;
                    assert(list[i + 1] == y);
                }
            }
        }
        assert forall|y: Seq<char>| (list.contains(y) && y != sid) implies #[trigger]
            whole.contains(y) by {
            let i = choose|i: int| 0 <= i < list.len() && list[i] == y;
            if i == 0 {
                assert(whole[0] == y);
            } else {
                assert(list.skip(1)[i - 1] == y);
                assert(list.skip(1).contains(y));
                assert(rest.contains(y));
                let j = choose|j: int| 0 <= j < rest.len() && rest[j] == y;
                if list[0] == sid {
                    assert(whole[j] == y);
                } else {
                    assert(whole[j + 1] == y);
                }
            }
        }
    }
}

/// Removing an id keeps a duplicate-free list duplicate-free.
proof fn lemma_remove_id_distinct(list: Seq<Seq<char>>, sid: Seq<char>)
    requires
        forall|i: int, j: int| 0 <= i < j < list.len() ==> list[i] != list[j],
    ensures
        forall|i: int, j: int|
            0 <= i < j < remove_id(list, sid).len() ==> remove_id(list, sid)[i] != remove_id(
                list,
                sid,
            )[j],
    decreases list.len(),
{
    if list.len() > 0 {
        let tail = list.skip(1);
        assert forall|i: int, j: int| 0 <= i < j < tail.len() implies tail[i] != tail[j] by {
            assert(tail[i] == list[i + 1]);
            assert(tail[j] == list[j + 1]);
        }
        lemma_remove_id_distinct(tail, sid);
        lemma_remove_id_elems(tail, sid);
        let whole = remove_id(list, sid);
        let rest = remove_id(tail, sid);
        if list[0] != sid {
            assert forall|i: int, j: int|
                0 <= i < j < whole.len() implies whole[i] != whole[j] by {
                if i == 0 {
                    assert(whole[0] == list[0]);
                    assert(whole[j] == rest[j - 1]);
                    assert(rest.contains(rest[j - 1]));
                    assert(tail.contains(rest[j - 1]));
                    let k = choose|k: int| 0 <= k < tail.len() && tail[k] == rest[j - 1];
                    assert(list[k + 1] == rest[j - 1]);
                    assert(list[0] != list[k + 1]);
                } else {
                    assert(whole[i] == rest[i - 1]);
                    assert(whole[j] == rest[j - 1]);
                }
            }
        }
    }
}

/// Membership in a pushed sequence: the pushed element and the old members.
proof fn lemma_push_contains<A>(s: Seq<A>, x: A)
    ensures
        forall|y: A| #[trigger] s.push(x).contains(y) <==> (s.contains(y) || y == x),
{
    assert forall|y: A| #[trigger] s.push(x).contains(y) implies (s.contains(y) || y == x) by {
        let i = choose|i: int| 0 <= i < s.push(x).len() && s.push(x)[i] == y;
        if i < s.len() {
            assert(s[i] == y);
        }
    }
    assert forall|y: A| (s.contains(y) || y == x) implies #[trigger] s.push(x).contains(y) by {
        if s.contains(y) {
            let i = choose|i: int| 0 <= i < s.len() && s[i] == y;
            assert(s.push(x)[i] == y);
        } else {
            assert(s.push(x)[s.len() as int] == y);
        }
    }
}

/// Membership in one step of a prefix: the shorter prefix's members and the
/// element the step adds.
proof fn lemma_prefix_step_contains<A>(s: Seq<A>, i: int)
    requires
        0 <= i < s.len(),
    ensures
        forall|y: A| #[trigger]
            s.subrange(0, i + 1).contains(y) <==> (s.subrange(0, i).contains(y) || y == s[i]),
{
    assert(s.subrange(0, i + 1) =~= s.subrange(0, i).push(s[i]));
    lemma_push_contains(s.subrange(0, i), s[i]);
}

/// The registry of live client sessions. Purely in-memory: it has no
/// authority beyond process lifetime, and a caller that finds a user absent
/// here is expected to hydrate recent durable-store records via
/// `add_subscription_id` before concluding the user is offline.
pub struct SubscriptionService {
    subscriptions: SubIndex,
    user_subscriptions: UserIndex,
}

impl SubscriptionService {
    /// The forward index: subscription id to user.
    pub closed spec fn forward(self) -> Map<Seq<char>, u64> {
        self.subscriptions.entries()
    }

    /// The reverse index: user to the ids of their sessions, oldest first.
    pub closed spec fn lists(self) -> Map<u64, Seq<Seq<char>>> {
        self.user_subscriptions.entries()
    }

    /// A user's subscription ids, oldest first; empty when the user has no
    /// live session.
    pub open spec fn subs_of(self, user_id: u64) -> Seq<Seq<char>> {
        if self.lists().dom().contains(user_id) {
            self.lists()[user_id]
        } else {
            Seq::empty()
        }
    }

    /// The two indexes agree: every id a user's list holds resolves to that
    /// user, every resolvable id is listed under its user, and no user's
    /// list names an id twice.
    pub open spec fn wf(self) -> bool {
        &&& forall|u: u64, sid: Seq<char>|
            self.lists().dom().contains(u) && #[trigger] self.lists()[u].contains(sid)
                ==> self.forward().dom().contains(sid) && self.forward()[sid] == u
        &&& forall|sid: Seq<char>| #[trigger]
            self.forward().dom().contains(sid) ==> self.lists().dom().contains(
                self.forward()[sid],
            ) && self.lists()[self.forward()[sid]].contains(sid)
        &&& forall|u: u64, i: int, j: int|
            #![trigger self.lists()[u][i], self.lists()[u][j]]
            self.lists().dom().contains(u) && 0 <= i < j < self.lists()[u].len()
                ==> self.lists()[u][i] != self.lists()[u][j]
    }

    pub fn new() -> (r: Self)
        ensures
            r.wf(),
            r.forward() == Map::<Seq<char>, u64>::empty(),
            r.lists() == Map::<u64, Seq<Seq<char>>>::empty(),
    {
        let r = SubscriptionService {
            subscriptions: SubIndex::new(),
            user_subscriptions: UserIndex::new(),
        };
        proof {
            assert(r.forward() =~= Map::<Seq<char>, u64>::empty());
            assert(r.lists() =~= Map::<u64, Seq<Seq<char>>>::empty());
        }
        r
    }

    /// What attaching `sid` for `user_id` does to the registry: the forward
    /// index maps `sid` to `user_id`; the id is appended to `user_id`'s list
    /// unless it was already theirs; a previous owner's list loses it; every
    /// other user is untouched.
    pub open spec fn attach_post(pre: Self, post: Self, sid: Seq<char>, user_id: u64) -> bool {
        &&& post.forward() == pre.forward().insert(sid, user_id)
        &&& post.subs_of(user_id) == (if pre.forward().dom().contains(sid) && pre.forward()[sid]
            == user_id {
            pre.subs_of(user_id)
        } else {
            pre.subs_of(user_id).push(sid)
        })
        &&& forall|w: u64|
            w != user_id && !(pre.forward().dom().contains(sid) && pre.forward()[sid] == w)
                ==> post.subs_of(w) == pre.subs_of(w)
        &&& (pre.forward().dom().contains(sid) && pre.forward()[sid] != user_id
            ==> post.subs_of(pre.forward()[sid]) == remove_id(
            pre.subs_of(pre.forward()[sid]),
            sid,
        ))
    }

    /// Appends `subscription_id` to `user_id`'s list, creating the list if
    /// the user has none. Touches the reverse index only.
    fn list_push(&mut self, user_id: u64, subscription_id: String)
        ensures
            final(self).forward() == old(self).forward(),
            final(self).lists() == old(self).lists().insert(
                user_id,
                old(self).subs_of(user_id).push(subscription_id@),
            ),
    {
        let ghost pre = *self;
        let existing = self.user_subscriptions.get(user_id);
        match existing {
            Some(mut list) => {
                let ghost before = list.deep_view();
                list.push(subscription_id);
                proof {
                    assert(list.deep_view() =~= before.push(subscription_id@));
                }
                self.user_subscriptions.insert(user_id, list);
            },
            None => {
                let mut list: Vec<String> = Vec::new();
                list.push(subscription_id);
                proof {
                    assert(list.deep_view() =~= pre.subs_of(user_id).push(subscription_id@));
                }
                self.user_subscriptions.insert(user_id, list);
            },
        }
    }

    /// Removes `subscription_id` from `user_id`'s list, dropping the list
    /// entirely when nothing is left. Touches the reverse index only.
    fn list_remove(&mut self, user_id: u64, subscription_id: &str)
        ensures
            final(self).forward() == old(self).forward(),
            final(self).lists() == (if old(self).lists().dom().contains(user_id) {
                if remove_id(old(self).lists()[user_id], subscription_id@).len() == 0 {
                    old(self).lists().remove(user_id)
                } else {
                    old(self).lists().insert(
                        user_id,
                        remove_id(old(self).lists()[user_id], subscription_id@),
                    )
                }
            } else {
                old(self).lists()
            }),
    {
        let ghost sid = subscription_id@;
        let existing = self.user_subscriptions.get(user_id);
        match existing {
            Some(list) => {
                let ghost all = list.deep_view();
                let mut kept: Vec<String> = Vec::new();
                let mut i: usize = 0;
                proof {
                    assert(all.skip(0) =~= all);
                }
                while i < list.len()
                    invariant
                        i <= list.len(),
                        all == list.deep_view(),
                        all.len() == list@.len(),
                        sid == subscription_id@,
                        remove_id(all, sid) =~= kept.deep_view() + remove_id(
                            all.skip(i as int),
                            sid,
                        ),
                    decreases list.len() - i,
                {
                    proof {
                        assert(all[i as int] == list@[i as int]@);
                        assert(all.skip(i as int)[0] == all[i as int]);
                        assert(all.skip(i as int).skip(1) =~= all.skip(i as int + 1));
                    }
                    let ghost kept_before = kept.deep_view();
                    if !str_eq(list[i].as_str(), subscription_id) {
                        kept.push(list[i].clone());
                        proof {
                            assert(kept.deep_view() =~= kept_before.push(all[i as int]));
                            assert(kept_before.push(all[i as int]) + remove_id(
                                all.skip(i as int + 1),
                                sid,
                            ) =~= kept_before + (seq![all[i as int]] + remove_id(
                                all.skip(i as int + 1),
                                sid,
                            )));
                        }
                    }
                    i = i + 1;
                }
                proof {
                    assert(all.skip(list@.len() as int) =~= Seq::<Seq<char>>::empty());
                    assert(kept.deep_view() + Seq::<Seq<char>>::empty() =~= kept.deep_view());
                    assert(kept.deep_view() =~= remove_id(all, sid));
                }
                if kept.len() == 0 {
                    let _ = self.user_subscriptions.remove(user_id);
                    proof {
                        assert(kept.deep_view() =~= Seq::<Seq<char>>::empty());
                    }
                } else {
                    self.user_subscriptions.insert(user_id, kept);
                }
            },
            None => {},
        }
    }

    /// Idempotent insert of a known `(subscription id, user)` pair, used to
    /// merge durable-store records into memory before an offline decision.
    /// An id recorded under another user is moved, never duplicated.
    pub fn add_subscription_id(&mut self, subscription_id: String, user_id: u64)
        requires
            old(self).wf(),
        ensures
            final(self).wf(),
            Self::attach_post(*old(self), *final(self), subscription_id@, user_id),
    {
        let ghost pre = *self;
        let ghost sid = subscription_id@;
        let existing = self.subscriptions.get(subscription_id.as_str());
        match existing {
            Some(owner) => {
                if owner == user_id {
                    proof {
                        assert(pre.forward().insert(sid, user_id) =~= pre.forward());
                    }
                    return ;
                }
                proof {
                    assert(pre.forward().dom().contains(sid));
                    assert(pre.forward()[sid] == owner);
                    assert(pre.lists().dom().contains(owner) && pre.lists()[owner].contains(sid));
                }
                self.list_remove(owner, subscription_id.as_str());
                let _ = self.subscriptions.insert(subscription_id.clone(), user_id);
                self.list_push(user_id, subscription_id);
                proof {
                    self.lemma_attach_rebind(pre, sid, user_id, owner);
                }
            },
            None => {
                let _ = self.subscriptions.insert(subscription_id.clone(), user_id);
                self.list_push(user_id, subscription_id);
                proof {
                    self.lemma_attach_fresh(pre, sid, user_id);
                }
            },
        }
    }

    /// After attaching a fresh id (one the forward index did not hold), the
    /// registry is well-formed again and `attach_post` describes the change.
    proof fn lemma_attach_fresh(self, pre: Self, sid: Seq<char>, user_id: u64)
        requires
            pre.wf(),
            !pre.forward().dom().contains(sid),
            self.forward() == pre.forward().insert(sid, user_id),
            self.lists() == pre.lists().insert(user_id, pre.subs_of(user_id).push(sid)),
        ensures
            self.wf(),
            Self::attach_post(pre, self, sid, user_id),
    {
        lemma_push_contains(pre.subs_of(user_id), sid);
        assert forall|u: u64, s: Seq<char>|
            self.lists().dom().contains(u) && #[trigger] self.lists()[u].contains(
                s,
            ) implies self.forward().dom().contains(s) && self.forward()[s] == u by {
            if u == user_id {
                if s != sid {
                    assert(pre.subs_of(user_id).contains(s));
                    assert(pre.lists().dom().contains(user_id));
                }
            }
        }
        assert forall|s: Seq<char>| #[trigger]
            self.forward().dom().contains(s) implies self.lists().dom().contains(
            self.forward()[s],
        ) && self.lists()[self.forward()[s]].contains(s) by {
            if s == sid {
                assert(self.lists()[user_id].contains(sid));
            } else {
                let w = pre.forward()[s];
                assert(pre.lists()[w].contains(s));
                if w == user_id {
                    assert(self.lists()[user_id].contains(s));
                }
            }
        }
        assert forall|u: u64, i: int, j: int|
            self.lists().dom().contains(u) && 0 <= i < j
                < self.lists()[u].len() implies self.lists()[u][i] != self.lists()[u][j] by {
            if u == user_id {
                let grown = pre.subs_of(user_id).push(sid);
                assert(self.lists()[user_id] == grown);
                if j < grown.len() - 1 {
                    assert(pre.subs_of(user_id).len() > 0);
                    assert(pre.lists().dom().contains(user_id));
                    assert(pre.lists()[user_id][i] != pre.lists()[user_id][j]);
                } else {
                    assert(grown[i] == pre.subs_of(user_id)[i]);
                    assert(pre.lists().dom().contains(user_id));
                    assert(pre.lists()[user_id].contains(grown[i]));
                    assert(pre.forward().dom().contains(grown[i]));
                }
            } else {
                assert(self.lists()[u] == pre.lists()[u]);
                assert(pre.lists()[u][i] != pre.lists()[u][j]);
            }
        }
    }

    /// After moving an id from its previous owner to `user_id`, the registry
    /// is well-formed again and `attach_post` describes the change.
    proof fn lemma_attach_rebind(self, pre: Self, sid: Seq<char>, user_id: u64, owner: u64)
        requires
            pre.wf(),
            pre.forward().dom().contains(sid),
            pre.forward()[sid] == owner,
            owner != user_id,
            pre.lists().dom().contains(owner),
            self.forward() == pre.forward().insert(sid, user_id),
            ({
                let trimmed = remove_id(pre.lists()[owner], sid);
                let mid = if trimmed.len() == 0 {
                    pre.lists().remove(owner)
                } else {
                    pre.lists().insert(owner, trimmed)
                };
                let mid_subs = if mid.dom().contains(user_id) {
                    mid[user_id]
                } else {
                    Seq::empty()
                };
                self.lists() == mid.insert(user_id, mid_subs.push(sid))
            }),
        ensures
            self.wf(),
            Self::attach_post(pre, self, sid, user_id),
    {
        let trimmed = remove_id(pre.lists()[owner], sid);
        let mid = if trimmed.len() == 0 {
            pre.lists().remove(owner)
        } else {
            pre.lists().insert(owner, trimmed)
        };
        assert(if mid.dom().contains(user_id) {
            mid[user_id]
        } else {
            Seq::empty()
        } == pre.subs_of(user_id));
        lemma_remove_id_elems(pre.lists()[owner], sid);
        assert forall|i: int, j: int|
            0 <= i < j < pre.lists()[owner].len() implies pre.lists()[owner][i]
            != pre.lists()[owner][j] by {
        }
        lemma_remove_id_distinct(pre.lists()[owner], sid);
        lemma_push_contains(pre.subs_of(user_id), sid);
        assert forall|u: u64, s: Seq<char>|
            self.lists().dom().contains(u) && #[trigger] self.lists()[u].contains(
                s,
            ) implies self.forward().dom().contains(s) && self.forward()[s] == u by {
            if u == user_id {
                if s != sid {
                    assert(pre.subs_of(user_id).contains(s));
                    assert(pre.lists().dom().contains(user_id));
                }
            } else if u == owner {
                assert(self.lists()[owner] == trimmed);
                assert(trimmed.contains(s));
                assert(pre.lists()[owner].contains(s) && s != sid);
            }
        }
        assert forall|s: Seq<char>| #[trigger]
            self.forward().dom().contains(s) implies self.lists().dom().contains(
            self.forward()[s],
        ) && self.lists()[self.forward()[s]].contains(s) by {
            if s == sid {
                assert(self.lists()[user_id].contains(sid));
            } else {
                let w = pre.forward()[s];
                assert(pre.lists()[w].contains(s));
                if w == user_id {
                    assert(self.lists()[user_id].contains(s));
                } else if w == owner {
                    assert(trimmed.contains(s));
                    assert(trimmed.len() > 0);
                    assert(self.lists()[owner] == trimmed);
                }
            }
        }
        assert forall|u: u64, i: int, j: int|
            self.lists().dom().contains(u) && 0 <= i < j
                < self.lists()[u].len() implies self.lists()[u][i] != self.lists()[u][j] by {
            if u == user_id {
                let grown = pre.subs_of(user_id).push(sid);
                assert(self.lists()[user_id] == grown);
                if j < grown.len() - 1 {
                    assert(pre.subs_of(user_id).len() > 0);
                    assert(pre.lists().dom().contains(user_id));
                    assert(pre.lists()[user_id][i] != pre.lists()[user_id][j]);
                } else {
                    assert(grown[i] == pre.subs_of(user_id)[i]);
                    assert(pre.lists().dom().contains(user_id));
                    assert(pre.lists()[user_id].contains(grown[i]));
                    assert(pre.forward()[grown[i]] == user_id);
                }
            } else if u == owner {
                assert(self.lists()[owner] == trimmed);
                assert(trimmed[i] != trimmed[j]);
            } else {
                assert(self.lists()[u] == pre.lists()[u]);
                assert(pre.lists()[u][i] != pre.lists()[u][j]);
            }
        }
        assert(self.subs_of(user_id) == pre.subs_of(user_id).push(sid));
        assert(self.subs_of(owner) == remove_id(pre.subs_of(owner), sid));
    }

    /// Allocates a brand-new handle for `user_id` (multi-device: existing
    /// handles are kept), records it in both indexes, and returns it.
    pub fn create_subscription_id(&mut self, user_id: u64) -> (sid: String)
        requires
            old(self).wf(),
        ensures
            final(self).wf(),
            sid@.len() == 30,
            sid@.subrange(0, 4) == "sub_"@,
            Self::attach_post(*old(self), *final(self), sid@, user_id),
            final(self).forward().dom().contains(sid@),
            final(self).forward()[sid@] == user_id,
            final(self).subs_of(user_id).contains(sid@),
    {
        let mut handle = String::from_str("sub_");
        let suffix = fresh_ulid_string();
        handle.append(suffix.as_str());
        proof {
            reveal_strlit("sub_");
            assert(handle@.subrange(0, 4) =~= "sub_"@);
        }
        let ghost sid = handle@;
        let ghost pre = *self;
        self.add_subscription_id(handle.clone(), user_id);
        proof {
            if pre.forward().dom().contains(sid) && pre.forward()[sid] == user_id {
                assert(pre.lists()[user_id].contains(sid));
            } else {
                lemma_push_contains(pre.subs_of(user_id), sid);
            }
        }
        handle
    }

    /// What get-or-create guarantees: the returned handle resolves to the
    /// user and heads the user's list; when the user already had a session,
    /// the registry is untouched and that session's handle is the result.
    pub open spec fn get_or_create_post(pre: Self, post: Self, user_id: u64, sid: Seq<
        char,
    >) -> bool {
        &&& post.forward().dom().contains(sid)
        &&& post.forward()[sid] == user_id
        &&& post.subs_of(user_id).len() > 0
        &&& post.subs_of(user_id)[0] == sid
        &&& (pre.subs_of(user_id).len() > 0 ==> post == pre && sid == pre.subs_of(user_id)[0])
    }

    /// Reuses the user's oldest live handle, allocating one only when the
    /// user has none.
    pub fn get_or_create_subscription_id(&mut self, user_id: u64) -> (sid: String)
        requires
            old(self).wf(),
        ensures
            final(self).wf(),
            Self::get_or_create_post(*old(self), *final(self), user_id, sid@),
    {
        let ghost pre = *self;
        let existing = self.user_subscriptions.get(user_id);
        let head = match existing {
            Some(list) => {
                if list.len() > 0 {
                    proof {
                        assert(list.deep_view()[0] == list@[0]@);
                        assert(pre.lists()[user_id].contains(pre.subs_of(user_id)[0]));
                    }
                    Some(list[0].clone())
                } else {
                    None
                }
            },
            None => None,
        };
        match head {
            Some(first) => first,
            None => {
                let created = self.create_subscription_id(user_id);
                proof {
                    if pre.forward().dom().contains(created@) && pre.forward()[created@]
                        == user_id {
                        assert(pre.lists()[user_id].contains(created@));
                        assert(false);
                    }
                    assert(final(self).subs_of(user_id) =~= Seq::<Seq<char>>::empty().push(
                        created@,
                    ));
                }
                created
            },
        }
    }

    /// The user a subscription id currently resolves to, if any.
    pub fn get_user_id(&self, subscription_id: &str) -> (r: Option<u64>)
        ensures
            r == (if self.forward().dom().contains(subscription_id@) {
                Some(self.forward()[subscription_id@])
            } else {
                None::<u64>
            }),
    {
        self.subscriptions.get(subscription_id)
    }

    /// All of the user's live subscription ids, oldest first.
    pub fn get_subscription_ids(&self, user_id: u64) -> (r: Vec<String>)
        ensures
            r.deep_view() == self.subs_of(user_id),
    {
        let existing = self.user_subscriptions.get(user_id);
        match existing {
            Some(list) => list,
            None => {
                let empty: Vec<String> = Vec::new();
                proof {
                    assert(empty.deep_view() =~= Seq::<Seq<char>>::empty());
                }
                empty
            },
        }
    }

    /// Forgets one subscription id: its user's list loses it first, then the
    /// forward index drops it, so no lookup can see a dangling association.
    pub fn remove_subscription(&mut self, subscription_id: &str)
        requires
            old(self).wf(),
        ensures
            final(self).wf(),
            final(self).forward() == old(self).forward().remove(subscription_id@),
            !old(self).forward().dom().contains(subscription_id@) ==> final(self).lists() == old(
                self,
            ).lists(),
            old(self).forward().dom().contains(subscription_id@) ==> final(self).subs_of(
                old(self).forward()[subscription_id@],
            ) == remove_id(old(self).subs_of(old(self).forward()[subscription_id@]), subscription_id@),
            forall|w: u64|
                old(self).forward().dom().contains(subscription_id@) && w != old(
                    self,
                ).forward()[subscription_id@] ==> final(self).subs_of(w) == old(self).subs_of(w),
            forall|w: u64| !final(self).subs_of(w).contains(subscription_id@),
    {
        let ghost pre = *self;
        let ghost sid = subscription_id@;
        let existing = self.subscriptions.get(subscription_id);
        match existing {
            Some(owner) => {
                proof {
                    assert(pre.forward().dom().contains(sid));
                    assert(pre.forward()[sid] == owner);
                    assert(pre.lists().dom().contains(owner) && pre.lists()[owner].contains(sid));
                }
                self.list_remove(owner, subscription_id);
                let _ = self.subscriptions.remove(subscription_id);
                proof {
                    let trimmed = remove_id(pre.lists()[owner], sid);
                    lemma_remove_id_elems(pre.lists()[owner], sid);
                    assert forall|i: int, j: int|
                        0 <= i < j < pre.lists()[owner].len() implies pre.lists()[owner][i]
                        != pre.lists()[owner][j] by {
                    }
                    lemma_remove_id_distinct(pre.lists()[owner], sid);
                    assert forall|u: u64, s: Seq<char>|
                        self.lists().dom().contains(u) && #[trigger] self.lists()[u].contains(
                            s,
                        ) implies self.forward().dom().contains(s) && self.forward()[s] == u by {
                        if u == owner {
                            assert(self.lists()[owner] == trimmed);
                            assert(pre.lists()[owner].contains(s) && s != sid);
                        } else {
                            assert(pre.lists()[u].contains(s));
                            if s == sid {
                                assert(pre.forward()[sid] == u);
                                assert(false);
                            }
                        }
                    }
                    assert forall|s: Seq<char>| #[trigger]
                        self.forward().dom().contains(s) implies self.lists().dom().contains(
                        self.forward()[s],
                    ) && self.lists()[self.forward()[s]].contains(s) by {
                        let w = pre.forward()[s];
                        assert(pre.lists()[w].contains(s));
                        if w == owner {
                            assert(trimmed.contains(s));
                            assert(trimmed.len() > 0);
                            assert(self.lists()[owner] == trimmed);
                        }
                    }
                    assert forall|w: u64| !self.subs_of(w).contains(sid) by {
                        if self.subs_of(w).contains(sid) {
                            if w == owner {
                                assert(trimmed.contains(sid));
                            } else {
                                assert(self.lists().dom().contains(w));
                                assert(pre.lists()[w].contains(sid));
                                assert(pre.forward()[sid] == w);
                            }
                        }
                    }
                    assert forall|u: u64, i: int, j: int|
                        self.lists().dom().contains(u) && 0 <= i < j
                            < self.lists()[u].len() implies self.lists()[u][i]
                        != self.lists()[u][j] by {
                        if u == owner {
                            assert(self.lists()[owner] == trimmed);
                            assert(trimmed[i] != trimmed[j]);
                        } else {
                            assert(self.lists()[u] == pre.lists()[u]);
                            assert(pre.lists()[u][i] != pre.lists()[u][j]);
                        }
                    }
                }
            },
            None => {
                proof {
                    assert(pre.forward().remove(sid) =~= pre.forward());
                    assert forall|w: u64| !self.subs_of(w).contains(sid) by {
                        if self.subs_of(w).contains(sid) {
                            assert(self.lists().dom().contains(w));
                            assert(self.lists()[w].contains(sid));
                        }
                    }
                }
            },
        }
    }

    /// Forgets every session of one user: the reverse entry goes first, then
    /// each of its ids leaves the forward index.
    pub fn remove_user_subscriptions(&mut self, user_id: u64)
        requires
            old(self).wf(),
        ensures
            final(self).wf(),
            final(self).lists() == old(self).lists().remove(user_id),
            forall|s: Seq<char>| #[trigger]
                final(self).forward().dom().contains(s) <==> (old(self).forward().dom().contains(s)
                    && !old(self).subs_of(user_id).contains(s)),
            forall|s: Seq<char>| #[trigger]
                final(self).forward().dom().contains(s) ==> final(self).forward()[s] == old(
                    self,
                ).forward()[s],
    {
        let ghost pre = *self;
        let removed = self.user_subscriptions.remove(user_id);
        match removed {
            Some(list) => {
                let ghost all = list.deep_view();
                let mut i: usize = 0;
                proof {
                    assert(all.subrange(0, 0) =~= Seq::<Seq<char>>::empty());
                }
                while i < list.len()
                    invariant
                        i <= list.len(),
                        all == list.deep_view(),
                        all.len() == list@.len(),
                        pre.lists().dom().contains(user_id),
                        all == pre.lists()[user_id],
                        self.lists() == pre.lists().remove(user_id),
                        forall|s: Seq<char>| #[trigger]
                            self.forward().dom().contains(s) <==> (pre.forward().dom().contains(s)
                                && !all.subrange(0, i as int).contains(s)),
                        forall|s: Seq<char>| #[trigger]
                            self.forward().dom().contains(s) ==> self.forward()[s]
                                == pre.forward()[s],
                    decreases list.len() - i,
                {
                    proof {
                        assert(all[i as int] == list@[i as int]@);
                        lemma_prefix_step_contains(all, i as int);
                    }
                    let ghost mid = *self;
                    let _ = self.subscriptions.remove(list[i].as_str());
                    proof {
                        assert(self.forward() == mid.forward().remove(all[i as int]));
                        assert forall|s: Seq<char>| #[trigger]
                            self.forward().dom().contains(s) <==> (pre.forward().dom().contains(s)
                                && !all.subrange(0, i as int + 1).contains(s)) by {
                            if mid.forward().dom().contains(s) {
                            }
                        }
                        assert forall|s: Seq<char>| #[trigger]
                            self.forward().dom().contains(s) implies self.forward()[s]
                            == pre.forward()[s] by {
                            if mid.forward().dom().contains(s) {
                            }
                        }
                    }
                    i = i + 1;
                }
                proof {
                    assert(all.subrange(0, list@.len() as int) =~= all);
                    assert forall|u: u64, s: Seq<char>|
                        self.lists().dom().contains(u) && #[trigger] self.lists()[u].contains(
                            s,
                        ) implies self.forward().dom().contains(s) && self.forward()[s] == u by {
                        assert(pre.lists()[u].contains(s));
                        if all.contains(s) {
                            assert(pre.lists()[user_id].contains(s));
                            assert(pre.forward()[s] == user_id);
                            assert(pre.forward()[s] == u);
                            assert(false);
                        }
                    }
                    assert forall|s: Seq<char>| #[trigger]
                        self.forward().dom().contains(s) implies self.lists().dom().contains(
                        self.forward()[s],
                    ) && self.lists()[self.forward()[s]].contains(s) by {
                        let w = pre.forward()[s];
                        assert(pre.lists()[w].contains(s));
                        if w == user_id {
                            assert(all.contains(s));
                        }
                    }
                }
            },
            None => {
                proof {
                    assert(pre.lists().remove(user_id) =~= pre.lists());
                    assert(self.lists() == pre.lists());
                    assert forall|u: u64, s: Seq<char>|
                        self.lists().dom().contains(u) && #[trigger] self.lists()[u].contains(
                            s,
                        ) implies self.forward().dom().contains(s) && self.forward()[s] == u by {
                        assert(pre.lists()[u].contains(s));
                    }
                    assert forall|s: Seq<char>| #[trigger]
                        self.forward().dom().contains(s) implies self.lists().dom().contains(
                        self.forward()[s],
                    ) && self.lists()[self.forward()[s]].contains(s) by {
                        assert(pre.forward().dom().contains(s));
                        assert(pre.lists()[pre.forward()[s]].contains(s));
                    }
                }
            },
        }
    }
}

impl Default for SubscriptionService {
    fn default() -> (r: Self)
        ensures
            r.wf(),
            r.forward() == Map::<Seq<char>, u64>::empty(),
            r.lists() == Map::<u64, Seq<Seq<char>>>::empty(),
    {
        Self::new()
    }
}

/// Get-or-create idempotence: a second call for the same user returns the
/// same handle and leaves the registry untouched.
pub proof fn lemma_get_or_create_idempotent(
    s0: SubscriptionService,
    s1: SubscriptionService,
    s2: SubscriptionService,
    user_id: u64,
    sid1: Seq<char>,
    sid2: Seq<char>,
)
    requires
        SubscriptionService::get_or_create_post(s0, s1, user_id, sid1),
        SubscriptionService::get_or_create_post(s1, s2, user_id, sid2),
    ensures
        sid2 == sid1,
        s2 == s1,
{
}

/// Presence round-trip: an attached subscription resolves to its user and
/// stands in that user's list; once removed, it resolves to nothing and no
/// user's list holds it.
pub proof fn lemma_presence_round_trip(
    s0: SubscriptionService,
    s1: SubscriptionService,
    s2: SubscriptionService,
    user_id: u64,
    sid: Seq<char>,
)
    requires
        s1.wf(),
        SubscriptionService::attach_post(s0, s1, sid, user_id),
        s2.forward() == s1.forward().remove(sid),
        forall|w: u64| !s2.subs_of(w).contains(sid),
    ensures
        s1.forward().dom().contains(sid),
        s1.forward()[sid] == user_id,
        s1.subs_of(user_id).contains(sid),
        !s2.forward().dom().contains(sid),
        !s2.subs_of(user_id).contains(sid),
{
    assert(s1.forward() == s0.forward().insert(sid, user_id));
    assert(s1.forward().dom().contains(sid));
    assert(s1.forward()[sid] == user_id);
    assert(s1.lists().dom().contains(user_id));
    assert(s1.lists()[user_id].contains(sid));
}

} // verus!

//! The offline retry queue: a per-recipient durable fallback list holding
//! serialized messages a push attempt could not confirm as delivered.
//! Append-to-tail, read-from-head: a drain hands back each recipient's
//! messages oldest first. In production the same operations run against a
//! key-value store list with a seven-day expiry; this structure is the
//! verified model of those lists that the drivers and tests run on.

use vstd::prelude::*;

verus! {

use crate::util::str_eq;

/// Seconds before an untouched recipient list expires in the key-value
/// store.
pub const OFFLINE_TTL_SECONDS: u64 = 604800;

/// One queued message: who it is for, and the serialized envelope.
#[derive(Debug)]
pub struct OfflineEntry {
    pub recipient: String,
    pub payload: String,
}

/// The messages queued for `who`, oldest first.
pub open spec fn pending_of(entries: Seq<OfflineEntry>, who: Seq<char>) -> Seq<Seq<char>>
    decreases entries.len(),
{
    if entries.len() == 0 {
        Seq::empty()
    } else {
        let rest = pending_of(entries.drop_last(), who);
        if entries.last().recipient@ == who {
            rest.push(entries.last().payload@)
        } else {
            rest
        }
    }
}

/// The queue itself: one append-only log, read per recipient.
pub struct OfflineQueue {
    entries: Vec<OfflineEntry>,
}

impl OfflineQueue {
    /// The messages currently queued for `who`, oldest first.
    pub closed spec fn pending(self, who: Seq<char>) -> Seq<Seq<char>> {
        pending_of(self.entries@, who)
    }

    pub fn new() -> (r: Self)
        ensures
            forall|who: Seq<char>| r.pending(who) == Seq::<Seq<char>>::empty(),
    {
        let r = OfflineQueue { entries: Vec::new() };
        proof {
            assert(forall|who: Seq<char>| r.pending(who) =~= Seq::<Seq<char>>::empty());
        }
        r
    }

    /// Appends one message to the tail of `recipient`'s list; every other
    /// recipient's list is untouched.
    pub fn add_offline_message(&mut self, recipient: &str, payload: String)
        ensures
            final(self).pending(recipient@) == old(self).pending(recipient@).push(payload@),
            forall|who: Seq<char>|
                who != recipient@ ==> final(self).pending(who) == old(self).pending(who),
    {
        let entry = OfflineEntry { recipient: String::from_str(recipient), payload };
        let ghost before = self.entries@;
        self.entries.push(entry);
        proof {
            assert(self.entries@.drop_last() =~= before);
        }
    }

    /// Hands back everything queued for `recipient`, oldest first, and
    /// clears that recipient's list; every other list is untouched.
    pub fn get_and_clear_offline_messages(&mut self, recipient: &str) -> (r: Vec<String>)
        ensures
            r.deep_view() == old(self).pending(recipient@),
            final(self).pending(recipient@) == Seq::<Seq<char>>::empty(),
            forall|who: Seq<char>|
                who != recipient@ ==> final(self).pending(who) == old(self).pending(who),
    {
        let ghost all = self.entries@;
        let mut drained: Vec<String> = Vec::new();
        let mut kept: Vec<OfflineEntry> = Vec::new();
        let mut i: usize = 0;
        proof {
            assert(all.subrange(0, 0) =~= Seq::<OfflineEntry>::empty());
        }
        while i < self.entries.len()
            invariant
                i <= self.entries@.len(),
                self.entries@ == all,
                forall|who: Seq<char>|
                    #![trigger pending_of(kept@, who)]
                    (if who == recipient@ {
                        pending_of(kept@, who) == Seq::<Seq<char>>::empty()
                    } else {
                        pending_of(kept@, who) == pending_of(all.subrange(0, i as int), who)
                    }),
                drained.deep_view() == pending_of(all.subrange(0, i as int), recipient@),
            decreases self.entries@.len() - i,
        {
            let ghost kept_pre = kept@;
            let ghost drained_pre = drained.deep_view();
            let entry = &self.entries[i];
            let matches_recipient = str_eq(entry.recipient.as_str(), recipient);
            if matches_recipient {
                drained.push(entry.payload.clone());
            } else {
                kept.push(
                    OfflineEntry {
                        recipient: entry.recipient.clone(),
                        payload: entry.payload.clone(),
                    },
                );
            }
            proof {
                assert(all.subrange(0, i as int + 1).drop_last() =~= all.subrange(0, i as int));
                assert(all.subrange(0, i as int + 1).last() == all[i as int]);
                if matches_recipient {
                    assert(drained.deep_view() =~= drained_pre.push(all[i as int].payload@));
                } else {
                    assert(kept@.drop_last() =~= kept_pre);
                    assert(kept@.last().recipient@ == all[i as int].recipient@);
                    assert(kept@.last().payload@ == all[i as int].payload@);
                    assert forall|who: Seq<char>| who != recipient@ implies #[trigger] pending_of(
                        kept@,
                        who,
                    ) == pending_of(all.subrange(0, i as int + 1), who) by {
                        assert(pending_of(kept@, who) == (if kept@.last().recipient@ == who {
                            pending_of(kept_pre, who).push(kept@.last().payload@)
                        } else {
                            pending_of(kept_pre, who)
                        }));
                    }
                    assert(pending_of(kept@, recipient@) == pending_of(kept_pre, recipient@));
                }
            }
            i = i + 1;
        }
        proof {
            assert(all.subrange(0, all.len() as int) =~= all);
        }
        self.entries = kept;
        drained
    }

    /// How many messages are queued for `recipient`.
    pub fn get_offline_message_count(&self, recipient: &str) -> (r: usize)
        ensures
            r == self.pending(recipient@).len(),
    {
        let ghost all = self.entries@;
        let mut count: usize = 0;
        let mut i: usize = 0;
        proof {
            assert(all.subrange(0, 0) =~= Seq::<OfflineEntry>::empty());
        }
        while i < self.entries.len()
            invariant
                i <= self.entries@.len(),
                self.entries@ == all,
                count == pending_of(all.subrange(0, i as int), recipient@).len(),
                count <= i,
            decreases self.entries@.len() - i,
        {
            proof {
                assert(all.subrange(0, i as int + 1).drop_last() =~= all.subrange(0, i as int));
                assert(all.subrange(0, i as int + 1).last() == all[i as int]);
            }
            let entry = &self.entries[i];
            if str_eq(entry.recipient.as_str(), recipient) {
                count = count + 1;
            }
            i = i + 1;
        }
        proof {
            assert(all.subrange(0, all.len() as int) =~= all);
        }
        count
    }
}

/// Offline replay order: queueing message `a` and then message `b` for a
/// recipient whose list was empty means a later drain hands back exactly
/// `[a, b]`: the queue preserves insertion order, oldest first.
pub proof fn lemma_offline_replay_order(
    q0: OfflineQueue,
    q1: OfflineQueue,
    q2: OfflineQueue,
    who: Seq<char>,
    a: Seq<char>,
    b: Seq<char>,
)
    requires
        q0.pending(who).len() == 0,
        q1.pending(who) == q0.pending(who).push(a),
        q2.pending(who) == q1.pending(who).push(b),
    ensures
        q2.pending(who) =~= seq![a, b],
{
}

} // verus!

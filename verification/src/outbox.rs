//! The outbox: a passive at-least-once dispatch ledger. Entries are
//! created pending, never deleted, and mutated only by the drain worker
//! calling back with attempt counts, status changes and backoff times.
//! Pending work is handed out oldest-created-first; failures are inspected
//! most-recently-updated-first.

use vstd::prelude::*;

verus! {

use vstd::multiset::Multiset;
use vstd::string::StringExecFns;

/// Where one ledger entry stands.
#[derive(Clone, Copy, Debug, PartialEq, Eq, Structural)]
pub enum OutboxStatus {
    Pending,
    Sent,
    Failed,
}

/// Why a ledger call failed: the entry does not exist.
#[derive(Clone, Copy, Debug, PartialEq, Eq, Structural)]
pub enum OutboxError {
    NotFound,
}

/// One dispatch ledger row. Timestamps are milliseconds since the Unix
/// epoch; `message_id` is the upstream idempotency key, not enforced unique
/// here (callers are responsible for not double-enqueuing).
#[derive(Debug)]
pub struct ImOutbox {
    pub id: i64,
    pub message_id: String,
    pub payload: String,
    pub exchange: String,
    pub routing_key: String,
    pub attempts: i32,
    pub status: OutboxStatus,
    pub last_error: Option<String>,
    pub created_at: i64,
    pub updated_at: i64,
    pub next_try_at: Option<i64>,
}

impl ImOutbox {
    /// A field-for-field copy of the entry.
    pub fn duplicate(&self) -> (r: ImOutbox)
        ensures
            r == *self,
    {
        ImOutbox {
            id: self.id,
            message_id: self.message_id.clone(),
            payload: self.payload.clone(),
            exchange: self.exchange.clone(),
            routing_key: self.routing_key.clone(),
            attempts: self.attempts,
            status: self.status,
            last_error: match &self.last_error {
                Some(error) => Some(error.clone()),
                None => None,
            },
            created_at: self.created_at,
            updated_at: self.updated_at,
            next_try_at: self.next_try_at,
        }
    }
}

/// The attempt counter; it saturates instead of wrapping.
pub open spec fn spec_bump_attempts(attempts: i32) -> i32 {
    if attempts < i32::MAX {
        (attempts + 1) as i32
    } else {
        attempts
    }
}

/// The index of the entry with this id, if any.
pub open spec fn spec_find_entry(rows: Seq<ImOutbox>, id: i64) -> Option<int>
    decreases rows.len(),
{
    if rows.len() == 0 {
        None
    } else if rows[0].id == id {
        Some(0)
    } else {
        match spec_find_entry(rows.skip(1), id) {
            Some(i) => Some(i + 1),
            None => None,
        }
    }
}

/// Pending and due: ready for the drain worker.
pub open spec fn spec_is_due(entry: ImOutbox, now: i64) -> bool {
    entry.status == OutboxStatus::Pending && (entry.next_try_at is None || entry.next_try_at->0
        <= now)
}

/// The pending-and-due entries in ledger order, which is creation order.
pub open spec fn spec_pending_entries(rows: Seq<ImOutbox>, now: i64) -> Seq<ImOutbox>
    decreases rows.len(),
{
    if rows.len() == 0 {
        Seq::empty()
    } else {
        let rest = spec_pending_entries(rows.skip(1), now);
        if spec_is_due(rows[0], now) {
            seq![rows[0]] + rest
        } else {
            rest
        }
    }
}

/// The failed entries in ledger order.
pub open spec fn spec_failed_entries(rows: Seq<ImOutbox>) -> Seq<ImOutbox>
    decreases rows.len(),
{
    if rows.len() == 0 {
        Seq::empty()
    } else {
        let rest = spec_failed_entries(rows.skip(1));
        if rows[0].status == OutboxStatus::Failed {
            seq![rows[0]] + rest
        } else {
            rest
        }
    }
}

/// The dispatch ledger.
pub struct OutboxLedger {
    entries: Vec<ImOutbox>,
    next_id: i64,
}

impl OutboxLedger {
    pub closed spec fn entries_view(self) -> Seq<ImOutbox> {
        self.entries@
    }

    pub closed spec fn next_id_view(self) -> i64 {
        self.next_id
    }

    /// Ids are assigned from a strictly increasing counter, so ledger order
    /// is creation order and every id below the counter names at most one
    /// entry.
    pub open spec fn wf(self) -> bool {
        &&& forall|i: int, j: int|
            0 <= i < j < self.entries_view().len() ==> self.entries_view()[i].id
                < self.entries_view()[j].id
        &&& forall|i: int|
            0 <= i < self.entries_view().len() ==> self.entries_view()[i].id
                < self.next_id_view()
    }

    pub fn new() -> (r: Self)
        ensures
            r.wf(),
            r.entries_view() == Seq::<ImOutbox>::empty(),
            r.next_id_view() == 1,
    {
        OutboxLedger { entries: Vec::new(), next_id: 1 }
    }

    /// Records one unit of dispatch work, pending and never yet attempted.
    pub fn create(
        &mut self,
        message_id: &str,
        payload: &str,
        exchange: &str,
        routing_key: &str,
        now: i64,
    ) -> (r: ImOutbox)
        requires
            old(self).wf(),
            old(self).next_id_view() < i64::MAX,
        ensures
            final(self).wf(),
            r.id == old(self).next_id_view(),
            r.message_id@ == message_id@,
            r.payload@ == payload@,
            r.exchange@ == exchange@,
            r.routing_key@ == routing_key@,
            r.attempts == 0,
            r.status == OutboxStatus::Pending,
            r.last_error is None,
            r.created_at == now,
            r.updated_at == now,
            r.next_try_at is None,
            final(self).entries_view() == old(self).entries_view().push(r),
            final(self).next_id_view() == old(self).next_id_view() + 1,
    {
        let entry = ImOutbox {
            id: self.next_id,
            message_id: String::from_str(message_id),
            payload: String::from_str(payload),
            exchange: String::from_str(exchange),
            routing_key: String::from_str(routing_key),
            attempts: 0,
            status: OutboxStatus::Pending,
            last_error: None,
            created_at: now,
            updated_at: now,
            next_try_at: None,
        };
        let returned = entry.duplicate();
        self.entries.push(entry);
        self.next_id = self.next_id + 1;
        returned
    }

    /// The index of the entry with this id, if any.
    fn find_index(&self, id: i64) -> (r: Option<usize>)
        ensures
            r is Some <==> spec_find_entry(self.entries_view(), id) is Some,
            r is Some ==> Some(r->0 as int) == spec_find_entry(self.entries_view(), id) && r->0
                < self.entries_view().len() && self.entries_view()[r->0 as int].id == id,
    {
        let ghost all = self.entries@;
        let mut i: usize = 0;
        proof {
            assert(all.skip(0) =~= all);
        }
        while i < self.entries.len()
            invariant
                i <= all.len(),
                all == self.entries@,
                ({
                    let whole = spec_find_entry(all, id);
                    let rest = spec_find_entry(all.skip(i as int), id);
                    match rest {
                        Some(k) => whole == Some(k + i),
                        None => whole is None,
                    }
                }),
            decreases all.len() - i,
        {
            proof {
                assert(all.skip(i as int)[0] == all[i as int]);
                assert(all.skip(i as int).skip(1) =~= all.skip(i as int + 1));
            }
            if self.entries[i].id == id {
                return Some(i);
            }
            i = i + 1;
        }
        proof {
            assert(all.skip(all.len() as int) =~= Seq::<ImOutbox>::empty());
        }
        None
    }

    /// The entry with this id; absent entries are the one not-found error.
    pub fn get_by_id(&self, id: i64) -> (r: Result<ImOutbox, OutboxError>)
        ensures
            spec_find_entry(self.entries_view(), id) is Some ==> r == Ok::<ImOutbox, OutboxError>(
                self.entries_view()[spec_find_entry(self.entries_view(), id)->0],
            ),
            spec_find_entry(self.entries_view(), id) is None ==> r == Err::<ImOutbox, OutboxError>(
                OutboxError::NotFound,
            ),
    {
        match self.find_index(id) {
            Some(index) => Ok(self.entries[index].duplicate()),
            None => Err(OutboxError::NotFound),
        }
    }

    /// Sets the entry's status, stamping the update time.
    pub fn update_status(&mut self, id: i64, status: OutboxStatus, now: i64) -> (r: Result<
        (),
        OutboxError,
    >)
        requires
            old(self).wf(),
        ensures
            final(self).wf(),
            final(self).next_id_view() == old(self).next_id_view(),
            spec_find_entry(old(self).entries_view(), id) is None ==> r == Err::<(), OutboxError>(
                OutboxError::NotFound,
            ) && final(self).entries_view() == old(self).entries_view(),
            spec_find_entry(old(self).entries_view(), id) is Some ==> {
                let i = spec_find_entry(old(self).entries_view(), id)->0;
                &&& r == Ok::<(), OutboxError>(())
                &&& final(self).entries_view() == old(self).entries_view().update(
                    i,
                    (ImOutbox { status, updated_at: now, ..old(self).entries_view()[i] }),
                )
            },
    {
        let ghost pre = self.entries@;
        match self.find_index(id) {
            Some(index) => {
                let mut updated = self.entries[index].duplicate();
                updated.status = status;
                updated.updated_at = now;
                self.entries[index] = updated;
                proof {
                    assert(forall|a: int|
                        0 <= a < pre.len() ==> self.entries@[a].id == pre[a].id);
                }
                Ok(())
            },
            None => Err(OutboxError::NotFound),
        }
    }

    /// Marks the entry delivered downstream.
    pub fn mark_sent(&mut self, id: i64, now: i64) -> (r: Result<(), OutboxError>)
        requires
            old(self).wf(),
        ensures
            final(self).wf(),
            final(self).next_id_view() == old(self).next_id_view(),
            spec_find_entry(old(self).entries_view(), id) is None ==> r == Err::<(), OutboxError>(
                OutboxError::NotFound,
            ) && final(self).entries_view() == old(self).entries_view(),
            spec_find_entry(old(self).entries_view(), id) is Some ==> {
                let i = spec_find_entry(old(self).entries_view(), id)->0;
                &&& r == Ok::<(), OutboxError>(())
                &&& final(self).entries_view() == old(self).entries_view().update(
                    i,
                    (ImOutbox {
                        status: OutboxStatus::Sent,
                        updated_at: now,
                        ..old(self).entries_view()[i]
                    }),
                )
            },
    {
        self.update_status(id, OutboxStatus::Sent, now)
    }

    /// Counts one more delivery attempt and records what went wrong.
    pub fn increment_attempts(&mut self, id: i64, error: Option<String>, now: i64) -> (r: Result<
        (),
        OutboxError,
    >)
        requires
            old(self).wf(),
        ensures
            final(self).wf(),
            final(self).next_id_view() == old(self).next_id_view(),
            spec_find_entry(old(self).entries_view(), id) is None ==> r == Err::<(), OutboxError>(
                OutboxError::NotFound,
            ) && final(self).entries_view() == old(self).entries_view(),
            spec_find_entry(old(self).entries_view(), id) is Some ==> {
                let i = spec_find_entry(old(self).entries_view(), id)->0;
                &&& r == Ok::<(), OutboxError>(())
                &&& final(self).entries_view() == old(self).entries_view().update(
                    i,
                    (ImOutbox {
                        attempts: spec_bump_attempts(old(self).entries_view()[i].attempts),
                        last_error: error,
                        updated_at: now,
                        ..old(self).entries_view()[i]
                    }),
                )
            },
    {
        let ghost pre = self.entries@;
        match self.find_index(id) {
            Some(index) => {
                let mut updated = self.entries[index].duplicate();
                if updated.attempts < i32::MAX {
                    updated.attempts = updated.attempts + 1;
                }
                updated.last_error = error;
                updated.updated_at = now;
                self.entries[index] = updated;
                proof {
                    assert(forall|a: int|
                        0 <= a < pre.len() ==> self.entries@[a].id == pre[a].id);
                }
                Ok(())
            },
            None => Err(OutboxError::NotFound),
        }
    }

    /// Schedules the next delivery attempt.
    pub fn set_next_try_at(&mut self, id: i64, next_try_at: Option<i64>, now: i64) -> (r: Result<
        (),
        OutboxError,
    >)
        requires
            old(self).wf(),
        ensures
            final(self).wf(),
            final(self).next_id_view() == old(self).next_id_view(),
            spec_find_entry(old(self).entries_view(), id) is None ==> r == Err::<(), OutboxError>(
                OutboxError::NotFound,
            ) && final(self).entries_view() == old(self).entries_view(),
            spec_find_entry(old(self).entries_view(), id) is Some ==> {
                let i = spec_find_entry(old(self).entries_view(), id)->0;
                &&& r == Ok::<(), OutboxError>(())
                &&& final(self).entries_view() == old(self).entries_view().update(
                    i,
                    (ImOutbox { next_try_at, updated_at: now, ..old(self).entries_view()[i] }),
                )
            },
    {
        let ghost pre = self.entries@;
        match self.find_index(id) {
            Some(index) => {
                let mut updated = self.entries[index].duplicate();
                updated.next_try_at = next_try_at;
                updated.updated_at = now;
                self.entries[index] = updated;
                proof {
                    assert(forall|a: int|
                        0 <= a < pre.len() ==> self.entries@[a].id == pre[a].id);
                }
                Ok(())
            },
            None => Err(OutboxError::NotFound),
        }
    }

    /// Up to `limit` entries that are pending and due at `now`,
    /// oldest-created-first (ledger order is creation order).
    pub fn get_pending_messages(&self, limit: usize, now: i64) -> (r: Vec<ImOutbox>)
        ensures
            r@ == (if limit < spec_pending_entries(self.entries_view(), now).len() {
                spec_pending_entries(self.entries_view(), now).subrange(0, limit as int)
            } else {
                spec_pending_entries(self.entries_view(), now)
            }),
    {
        let ghost all = self.entries@;
        let ghost full = spec_pending_entries(all, now);
        let mut picked: Vec<ImOutbox> = Vec::new();
        let mut i: usize = 0;
        proof {
            assert(all.skip(0) =~= all);
            assert(picked@ + full =~= full);
        }
        while i < self.entries.len()
            invariant
                i <= all.len(),
                all == self.entries@,
                picked@.len() <= i,
                full == spec_pending_entries(all, now),
                picked@ + spec_pending_entries(all.skip(i as int), now) =~= full,
                picked@ =~= full.subrange(0, picked@.len() as int),
            decreases all.len() - i,
        {
            proof {
                assert(all.skip(i as int)[0] == all[i as int]);
                assert(all.skip(i as int).skip(1) =~= all.skip(i as int + 1));
            }
            let entry = &self.entries[i];
            let due = match entry.status {
                OutboxStatus::Pending => match entry.next_try_at {
                    Some(at) => at <= now,
                    None => true,
                },
                _ => false,
            };
            if due {
                let ghost picked_pre = picked@;
                picked.push(entry.duplicate());
                proof {
                    assert(picked@ =~= picked_pre.push(all[i as int]));
                    assert(picked_pre.push(all[i as int]) + spec_pending_entries(
                        all.skip(i as int + 1),
                        now,
                    ) =~= picked_pre + (seq![all[i as int]] + spec_pending_entries(
                        all.skip(i as int + 1),
                        now,
                    )));
                }
            }
            i = i + 1;
        }
        proof {
            assert(all.skip(all.len() as int) =~= Seq::<ImOutbox>::empty());
            assert(picked@ + Seq::<ImOutbox>::empty() =~= picked@);
            assert(picked@ =~= full);
        }
        if picked.len() <= limit {
            return picked;
        }
        let mut limited: Vec<ImOutbox> = Vec::new();
        let mut k: usize = 0;
        while k < limit
            invariant
                k <= limit,
                limit < picked@.len(),
                picked@ == full,
                limited@ =~= full.subrange(0, k as int),
            decreases limit - k,
        {
            let ghost limited_pre = limited@;
            limited.push(picked[k].duplicate());
            proof {
                assert(limited@ =~= limited_pre.push(full[k as int]));
                assert(full.subrange(0, k as int + 1) =~= full.subrange(0, k as int).push(
                    full[k as int],
                ));
            }
            k = k + 1;
        }
        limited
    }

    /// Up to `limit` failed entries, most-recently-updated-first. Entries
    /// sharing an update time come back in an unspecified relative order,
    /// as they would from the underlying store.
    pub fn get_failed_messages(&self, limit: usize) -> (r: Vec<ImOutbox>)
        ensures
            forall|a: int, b: int| 0 <= a < b < r@.len() ==> r@[a].updated_at >= r@[b].updated_at,
            forall|x: ImOutbox| #[trigger]
                r@.to_multiset().count(x) <= spec_failed_entries(
                    self.entries_view(),
                ).to_multiset().count(x),
            limit >= spec_failed_entries(self.entries_view()).len() ==> r@.to_multiset()
                == spec_failed_entries(self.entries_view()).to_multiset(),
            r@.len() == (if limit < spec_failed_entries(self.entries_view()).len() {
                limit as int
            } else {
                spec_failed_entries(self.entries_view()).len() as int
            }),
    {
        let ghost all = self.entries@;
        let ghost full = spec_failed_entries(all);
        let mut rest: Vec<ImOutbox> = Vec::new();
        let mut i: usize = 0;
        proof {
            assert(all.skip(0) =~= all);
            assert(rest@ + full =~= full);
        }
        while i < self.entries.len()
            invariant
                i <= all.len(),
                all == self.entries@,
                full == spec_failed_entries(all),
                rest@ + spec_failed_entries(all.skip(i as int)) =~= full,
            decreases all.len() - i,
        {
            proof {
                assert(all.skip(i as int)[0] == all[i as int]);
                assert(all.skip(i as int).skip(1) =~= all.skip(i as int + 1));
            }
            let entry = &self.entries[i];
            let failed = match entry.status {
                OutboxStatus::Failed => true,
                _ => false,
            };
            if failed {
                let ghost rest_pre = rest@;
                rest.push(entry.duplicate());
                proof {
                    assert(rest@ =~= rest_pre.push(all[i as int]));
                    assert(rest_pre.push(all[i as int]) + spec_failed_entries(
                        all.skip(i as int + 1),
                    ) =~= rest_pre + (seq![all[i as int]] + spec_failed_entries(
                        all.skip(i as int + 1),
                    )));
                }
            }
            i = i + 1;
        }
        proof {
            assert(all.skip(all.len() as int) =~= Seq::<ImOutbox>::empty());
            assert(rest@ + Seq::<ImOutbox>::empty() =~= rest@);
            assert(rest@ =~= full);
            broadcast use vstd::seq_lib::group_to_multiset_ensures;
        }
        let mut sorted: Vec<ImOutbox> = Vec::new();
        while rest.len() > 0 && sorted.len() < limit
            invariant
                sorted@.to_multiset().add(rest@.to_multiset()) == full.to_multiset(),
                sorted@.len() + rest@.len() >= full.len() || sorted@.len() == limit,
                sorted@.len() <= limit,
                sorted@.len() + rest@.len() <= full.len(),
                forall|a: int, b: int|
                    0 <= a < b < sorted@.len() ==> sorted@[a].updated_at >= sorted@[b].updated_at,
                forall|a: int, j: int|
                    0 <= a < sorted@.len() && 0 <= j < rest@.len() ==> sorted@[a].updated_at
                        >= rest@[j].updated_at,
            decreases rest@.len(),
        {
            let mut best: usize = 0;
            let mut k: usize = 1;
            while k < rest.len()
                invariant
                    best < k <= rest@.len(),
                    rest@.len() > 0,
                    forall|j: int| 0 <= j < k ==> rest@[best as int].updated_at >= rest@[j].updated_at,
                decreases rest@.len() - k,
            {
                if rest[k].updated_at > rest[best].updated_at {
                    best = k;
                }
                k = k + 1;
            }
            let ghost rest_pre = rest@;
            let ghost sorted_pre = sorted@;
            let row = rest.remove(best);
            sorted.push(row);
            proof {
                broadcast use vstd::seq_lib::group_to_multiset_ensures;
                assert(sorted@ =~= sorted_pre.push(rest_pre[best as int]));
                assert(rest@ =~= rest_pre.remove(best as int));
                assert(sorted@.to_multiset() =~= sorted_pre.to_multiset().insert(
                    rest_pre[best as int],
                ));
                assert(rest@.to_multiset() =~= rest_pre.to_multiset().remove(
                    rest_pre[best as int],
                ));
                assert(rest_pre.to_multiset().count(rest_pre[best as int]) > 0) by {
                    assert(rest_pre.contains(rest_pre[best as int]));
                }
                assert(sorted@.to_multiset().add(rest@.to_multiset()) =~= full.to_multiset());
                assert(forall|j: int|
                    0 <= j < rest@.len() ==> rest_pre.contains(#[trigger] rest@[j]));
            }
        }
        proof {
            broadcast use vstd::seq_lib::group_to_multiset_ensures;
            assert forall|x: ImOutbox| #[trigger] sorted@.to_multiset().count(x)
                <= full.to_multiset().count(x) by {
                assert(sorted@.to_multiset().count(x) + rest@.to_multiset().count(x)
                    == full.to_multiset().count(x));
            }
            if rest@.len() == 0 {
                assert(rest@.to_multiset() =~= Multiset::<ImOutbox>::empty());
                assert(sorted@.to_multiset() =~= full.to_multiset());
                assert(sorted@.len() == sorted@.to_multiset().len());
                assert(full.len() == full.to_multiset().len());
            }
        }
        sorted
    }
}

} // verus!

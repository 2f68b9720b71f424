//! The conversation reconciler: idempotent get-or-create and type-drift
//! repair for conversation rows, which are a per-owner read optimization
//! and must never block a send. A row whose stored type disagrees with the
//! type its chat id encodes is historic drift; the reconciler answers with
//! the caller's requested type whether or not the underlying row update
//! sticks, and only a row owned by a different identity is a real
//! data-integrity error.

use vstd::prelude::*;

verus! {

use crate::model::{ChatType, spec_encoded_chat_type, encoded_chat_type};
use crate::util::{str_eq, clone_option_string};
use vstd::multiset::Multiset;

/// A conversation row: one owner's view of one chat. Timestamps are
/// milliseconds since the Unix epoch; `del_flag` is 1 while the row is
/// live and 0 once soft-deleted.
#[derive(Debug)]
pub struct ImChat {
    pub chat_id: String,
    pub chat_type: ChatType,
    pub owner_id: String,
    pub to_id: String,
    pub is_mute: i16,
    pub is_top: i16,
    pub sequence: i64,
    pub read_sequence: i64,
    pub remark: Option<String>,
    pub create_time: i64,
    pub update_time: i64,
    pub del_flag: i16,
    pub version: i64,
}

/// The one reconciliation failure that is surfaced: a row for this chat id
/// belongs to a different identity, and auto-repair would serve someone
/// else's conversation.
#[derive(Clone, Copy, Debug, PartialEq, Eq, Structural)]
pub enum ReconcileError {
    DataIntegrity,
}

/// The optimistic-concurrency counter, bumped defensively on every repair;
/// it saturates at the top of its range instead of wrapping.
pub open spec fn spec_bump_version(version: i64) -> i64 {
    if version < i64::MAX {
        (version + 1) as i64
    } else {
        version
    }
}

impl ImChat {
    /// A field-for-field copy of the row.
    pub fn duplicate(&self) -> (r: ImChat)
        ensures
            r == *self,
    {
        ImChat {
            chat_id: self.chat_id.clone(),
            chat_type: self.chat_type,
            owner_id: self.owner_id.clone(),
            to_id: self.to_id.clone(),
            is_mute: self.is_mute,
            is_top: self.is_top,
            sequence: self.sequence,
            read_sequence: self.read_sequence,
            remark: match &self.remark {
                Some(remark) => Some(remark.clone()),
                None => None,
            },
            create_time: self.create_time,
            update_time: self.update_time,
            del_flag: self.del_flag,
            version: self.version,
        }
    }
}

/// The reconciled value for a row whose stored type conflicts with the
/// caller's request: the caller's type and peer, never the stale ones, with
/// the version bumped defensively. This is the value the caller gets
/// whether or not the row update reaches storage.
pub fn repair_conflicting(conflicting: &ImChat, chat_type: ChatType, to_id: &str, now: i64) -> (r:
    ImChat)
    ensures
        r.chat_type == chat_type,
        r.to_id@ == to_id@,
        r.chat_id@ == conflicting.chat_id@,
        r.owner_id@ == conflicting.owner_id@,
        r.is_mute == conflicting.is_mute,
        r.is_top == conflicting.is_top,
        r.sequence == conflicting.sequence,
        r.read_sequence == conflicting.read_sequence,
        r.remark == conflicting.remark,
        r.create_time == conflicting.create_time,
        r.update_time == now,
        r.del_flag == conflicting.del_flag,
        r.version == spec_bump_version(conflicting.version),
{
    let mut repaired = conflicting.duplicate();
    repaired.chat_type = chat_type;
    repaired.to_id = String::from_str(to_id);
    repaired.update_time = now;
    if repaired.version < i64::MAX {
        repaired.version = repaired.version + 1;
    }
    repaired
}

/// A brand-new conversation row, as first persisted.
pub fn fresh_chat(chat_id: &str, chat_type: ChatType, owner_id: &str, to_id: &str, now: i64) -> (r:
    ImChat)
    ensures
        r.chat_id@ == chat_id@,
        r.chat_type == chat_type,
        r.owner_id@ == owner_id@,
        r.to_id@ == to_id@,
        r.is_mute == 0,
        r.is_top == 0,
        r.sequence == 0,
        r.read_sequence == 0,
        r.remark is None,
        r.create_time == now,
        r.update_time == now,
        r.del_flag == 1,
        r.version == 1,
{
    ImChat {
        chat_id: String::from_str(chat_id),
        chat_type,
        owner_id: String::from_str(owner_id),
        to_id: String::from_str(to_id),
        is_mute: 0,
        is_top: 0,
        sequence: 0,
        read_sequence: 0,
        remark: None,
        create_time: now,
        update_time: now,
        del_flag: 1,
        version: 1,
    }
}

/// After a lost insert race, the single row found under the chat id alone
/// may be served only to its own owner. A row owned by a different identity
/// is a data-integrity error, never silently handed out.
pub fn resolve_insert_race(owner_id: &str, existing: &ImChat) -> (r: Result<ImChat, ReconcileError>)
    ensures
        existing.owner_id@ == owner_id@ ==> r == Ok::<ImChat, ReconcileError>(*existing),
        existing.owner_id@ != owner_id@ ==> r == Err::<ImChat, ReconcileError>(
            ReconcileError::DataIntegrity,
        ),
{
    if str_eq(existing.owner_id.as_str(), owner_id) {
        Ok(existing.duplicate())
    } else {
        Err(ReconcileError::DataIntegrity)
    }
}

/// The first live row matching `(chat_id, owner_id, chat_type)` exactly.
pub open spec fn spec_find_exact(
    rows: Seq<ImChat>,
    chat_id: Seq<char>,
    owner_id: Seq<char>,
    chat_type: ChatType,
) -> Option<ImChat>
    decreases rows.len(),
{
    if rows.len() == 0 {
        None
    } else if rows[0].del_flag == 1 && rows[0].chat_id@ == chat_id && rows[0].owner_id@ == owner_id
        && rows[0].chat_type == chat_type {
        Some(rows[0])
    } else {
        spec_find_exact(rows.skip(1), chat_id, owner_id, chat_type)
    }
}

/// The first live row under the same `(chat_id, owner_id)` whose stored
/// type differs from the requested one: historic drift.
pub open spec fn spec_find_conflict(
    rows: Seq<ImChat>,
    chat_id: Seq<char>,
    owner_id: Seq<char>,
    chat_type: ChatType,
) -> Option<int>
    decreases rows.len(),
{
    if rows.len() == 0 {
        None
    } else if rows[0].del_flag == 1 && rows[0].chat_id@ == chat_id && rows[0].owner_id@ == owner_id
        && rows[0].chat_type != chat_type {
        Some(0)
    } else {
        match spec_find_conflict(rows.skip(1), chat_id, owner_id, chat_type) {
            Some(i) => Some(i + 1),
            None => None,
        }
    }
}

/// The in-memory conversation table: the verified model of the durable
/// store's conversation rows that the reconciler and the tests run on.
pub struct ConversationTable {
    rows: Vec<ImChat>,
}

impl ConversationTable {
    pub closed spec fn rows_view(self) -> Seq<ImChat> {
        self.rows@
    }

    pub fn new() -> (r: Self)
        ensures
            r.rows_view() == Seq::<ImChat>::empty(),
    {
        ConversationTable { rows: Vec::new() }
    }

    /// Loads one row as it stands (used to mirror existing storage,
    /// drifted rows included).
    pub fn load_row(&mut self, row: ImChat)
        ensures
            final(self).rows_view() == old(self).rows_view().push(row),
    {
        self.rows.push(row);
    }

    /// The first live row matching the exact key, if any.
    pub fn query_exact(&self, chat_id: &str, owner_id: &str, chat_type: ChatType) -> (r: Option<
        ImChat,
    >)
        ensures
            r == spec_find_exact(self.rows_view(), chat_id@, owner_id@, chat_type),
    {
        let ghost all = self.rows@;
        let mut i: usize = 0;
        proof {
            assert(all.skip(0) =~= all);
        }
        while i < self.rows.len()
            invariant
                i <= all.len(),
                all == self.rows@,
                spec_find_exact(all, chat_id@, owner_id@, chat_type) == spec_find_exact(
                    all.skip(i as int),
                    chat_id@,
                    owner_id@,
                    chat_type,
                ),
            decreases all.len() - i,
        {
            proof {
                assert(all.skip(i as int)[0] == all[i as int]);
                assert(all.skip(i as int).skip(1) =~= all.skip(i as int + 1));
            }
            let row = &self.rows[i];
            if row.del_flag == 1 && str_eq(row.chat_id.as_str(), chat_id) && str_eq(
                row.owner_id.as_str(),
                owner_id,
            ) && row.chat_type.code() == chat_type.code() {
                proof {
                    assert(row.chat_type == chat_type);
                }
                return Some(row.duplicate());
            }
            i = i + 1;
        }
        proof {
            assert(all.skip(all.len() as int) =~= Seq::<ImChat>::empty());
        }
        None
    }

    /// The index of the first conflicting (drifted) row, if any.
    fn find_conflict_index(&self, chat_id: &str, owner_id: &str, chat_type: ChatType) -> (r:
        Option<usize>)
        ensures
            r is Some <==> spec_find_conflict(self.rows_view(), chat_id@, owner_id@, chat_type)
                is Some,
            r is Some ==> Some(r->0 as int) == spec_find_conflict(
                self.rows_view(),
                chat_id@,
                owner_id@,
                chat_type,
            ) && r->0 < self.rows_view().len(),
    {
        let ghost all = self.rows@;
        let mut i: usize = 0;
        proof {
            assert(all.skip(0) =~= all);
        }
        while i < self.rows.len()
            invariant
                i <= all.len(),
                all == self.rows@,
                ({
                    let whole = spec_find_conflict(all, chat_id@, owner_id@, chat_type);
                    let rest = spec_find_conflict(all.skip(i as int), chat_id@, owner_id@, chat_type);
                    match rest {
                        Some(k) => whole == Some(k + i),
                        None => whole is None,
                    }
                }),
            decreases all.len() - i,
        {
            proof {
                assert(all.skip(i as int)[0] == all[i as int]);
                assert(all.skip(i as int).skip(1) =~= all.skip(i as int + 1));
            }
            let row = &self.rows[i];
            if row.del_flag == 1 && str_eq(row.chat_id.as_str(), chat_id) && str_eq(
                row.owner_id.as_str(),
                owner_id,
            ) && row.chat_type.code() != chat_type.code() {
                proof {
                    assert(row.chat_type != chat_type);
                }
                return Some(i);
            }
            i = i + 1;
        }
        proof {
            assert(all.skip(all.len() as int) =~= Seq::<ImChat>::empty());
        }
        None
    }


    /// Auto-corrects historic drift across one owner's rows: any live row
    /// whose stored type disagrees with the type its chat id encodes by
    /// convention takes the encoded type, version bumped. Afterwards no
    /// live row of the owner disagrees with its id.
    pub fn repair_encoded_types(&mut self, owner_id: &str, now: i64)
        ensures
            final(self).rows_view().len() == old(self).rows_view().len(),
            forall|j: int|
                0 <= j < old(self).rows_view().len() ==> final(self).rows_view()[j] == ({
                    let row = old(self).rows_view()[j];
                    let encoded = spec_encoded_chat_type(row.chat_id@);
                    if row.del_flag == 1 && row.owner_id@ == owner_id@ && encoded is Some
                        && encoded->0 != row.chat_type {
                        (ImChat {
                            chat_type: encoded->0,
                            update_time: now,
                            version: spec_bump_version(row.version),
                            ..row
                        })
                    } else {
                        row
                    }
                }),
            forall|j: int|
                0 <= j < final(self).rows_view().len() && final(self).rows_view()[j].del_flag == 1
                    && final(self).rows_view()[j].owner_id@ == owner_id@ && spec_encoded_chat_type(
                    final(self).rows_view()[j].chat_id@,
                ) is Some ==> final(self).rows_view()[j].chat_type == spec_encoded_chat_type(
                    final(self).rows_view()[j].chat_id@,
                )->0,
    {
        let ghost pre = self.rows@;
        let mut i: usize = 0;
        while i < self.rows.len()
            invariant
                i <= pre.len(),
                self.rows@.len() == pre.len(),
                forall|j: int| i <= j < pre.len() ==> self.rows@[j] == pre[j],
                forall|j: int|
                    0 <= j < i ==> self.rows@[j] == ({
                        let row = pre[j];
                        let encoded = spec_encoded_chat_type(row.chat_id@);
                        if row.del_flag == 1 && row.owner_id@ == owner_id@ && encoded is Some
                            && encoded->0 != row.chat_type {
                            (ImChat {
                                chat_type: encoded->0,
                                update_time: now,
                                version: spec_bump_version(row.version),
                                ..row
                            })
                        } else {
                            row
                        }
                    }),
            decreases pre.len() - i,
        {
            let row_live = self.rows[i].del_flag == 1;
            let row_owned = str_eq(self.rows[i].owner_id.as_str(), owner_id);
            if row_live && row_owned {
                let encoded = encoded_chat_type(self.rows[i].chat_id.as_str());
                if let Some(kind) = encoded {
                    if kind.code() != self.rows[i].chat_type.code() {
                        proof {
                            assert(kind != pre[i as int].chat_type);
                        }
                        let mut updated = self.rows[i].duplicate();
                        updated.chat_type = kind;
                        updated.update_time = now;
                        if updated.version < i64::MAX {
                            updated.version = updated.version + 1;
                        }
                        self.rows[i] = updated;
                    }
                }
            }
            i = i + 1;
        }
    }

    /// Never fails the caller's send path: an exact match is returned as it
    /// stands; a drifted row is repaired in place and the repaired value
    /// (the caller's type, never the stale one) is returned; otherwise a
    /// fresh row is created. The returned conversation always carries the
    /// requested chat id and type, and a re-query finds exactly it.
    pub fn get_or_create_chat(
        &mut self,
        chat_id: &str,
        chat_type: ChatType,
        owner_id: &str,
        to_id: &str,
        now: i64,
    ) -> (r: ImChat)
        ensures
            spec_get_or_create_post(
                old(self).rows_view(),
                final(self).rows_view(),
                r,
                chat_id@,
                chat_type,
                owner_id@,
                to_id@,
                now,
            ),
    {
        let ghost pre = self.rows@;
        let found = self.query_exact(chat_id, owner_id, chat_type);
        match found {
            Some(existing) => {
                proof {
                    lemma_find_exact_matches(pre, chat_id@, owner_id@, chat_type);
                }
                existing
            },
            None => {
                let conflict = self.find_conflict_index(chat_id, owner_id, chat_type);
                match conflict {
                    Some(index) => {
                        proof {
                            lemma_find_conflict_in_bounds(pre, chat_id@, owner_id@, chat_type);
                        }
                        let repaired = repair_conflicting(&self.rows[index], chat_type, to_id, now);
                        let stored = repaired.duplicate();
                        self.rows[index] = stored;
                        proof {
                            lemma_find_exact_after_update(
                                pre,
                                index as int,
                                repaired,
                                chat_id@,
                                owner_id@,
                                chat_type,
                            );
                        }
                        repaired
                    },
                    None => {
                        let fresh = fresh_chat(chat_id, chat_type, owner_id, to_id, now);
                        let stored = fresh.duplicate();
                        self.rows.push(stored);
                        proof {
                            lemma_find_exact_after_push(pre, fresh, chat_id@, owner_id@, chat_type);
                        }
                        fresh
                    },
                }
            },
        }
    }

    /// Moves the chat's activity high-water mark (every owner's row).
    pub fn update_chat_sequence(&mut self, chat_id: &str, sequence: i64, now: i64)
        ensures
            final(self).rows_view().len() == old(self).rows_view().len(),
            forall|j: int|
                0 <= j < old(self).rows_view().len() ==> final(self).rows_view()[j] == (if old(
                    self,
                ).rows_view()[j].chat_id@ == chat_id@ {
                    (ImChat {
                        sequence,
                        update_time: now,
                        version: spec_bump_version(old(self).rows_view()[j].version),
                        ..old(self).rows_view()[j]
                    })
                } else {
                    old(self).rows_view()[j]
                }),
    {
        let ghost pre = self.rows@;
        let mut i: usize = 0;
        while i < self.rows.len()
            invariant
                i <= pre.len(),
                self.rows@.len() == pre.len(),
                forall|j: int| i <= j < pre.len() ==> self.rows@[j] == pre[j],
                forall|j: int|
                    0 <= j < i ==> self.rows@[j] == (if pre[j].chat_id@ == chat_id@ {
                        (ImChat {
                            sequence,
                            update_time: now,
                            version: spec_bump_version(pre[j].version),
                            ..pre[j]
                        })
                    } else {
                        pre[j]
                    }),
            decreases pre.len() - i,
        {
            if str_eq(self.rows[i].chat_id.as_str(), chat_id) {
                let mut updated = self.rows[i].duplicate();
                updated.sequence = sequence;
                updated.update_time = now;
                if updated.version < i64::MAX {
                    updated.version = updated.version + 1;
                }
                self.rows[i] = updated;
            }
            i = i + 1;
        }
    }

    /// Moves the owner-side read high-water mark (every owner's row).
    pub fn update_read_sequence(&mut self, chat_id: &str, read_sequence: i64, now: i64)
        ensures
            final(self).rows_view().len() == old(self).rows_view().len(),
            forall|j: int|
                0 <= j < old(self).rows_view().len() ==> final(self).rows_view()[j] == (if old(
                    self,
                ).rows_view()[j].chat_id@ == chat_id@ {
                    (ImChat {
                        read_sequence,
                        update_time: now,
                        version: spec_bump_version(old(self).rows_view()[j].version),
                        ..old(self).rows_view()[j]
                    })
                } else {
                    old(self).rows_view()[j]
                }),
    {
        let ghost pre = self.rows@;
        let mut i: usize = 0;
        while i < self.rows.len()
            invariant
                i <= pre.len(),
                self.rows@.len() == pre.len(),
                forall|j: int| i <= j < pre.len() ==> self.rows@[j] == pre[j],
                forall|j: int|
                    0 <= j < i ==> self.rows@[j] == (if pre[j].chat_id@ == chat_id@ {
                        (ImChat {
                            read_sequence,
                            update_time: now,
                            version: spec_bump_version(pre[j].version),
                            ..pre[j]
                        })
                    } else {
                        pre[j]
                    }),
            decreases pre.len() - i,
        {
            if str_eq(self.rows[i].chat_id.as_str(), chat_id) {
                let mut updated = self.rows[i].duplicate();
                updated.read_sequence = read_sequence;
                updated.update_time = now;
                if updated.version < i64::MAX {
                    updated.version = updated.version + 1;
                }
                self.rows[i] = updated;
            }
            i = i + 1;
        }
    }

    /// Pins or unpins the chat (every owner's row).
    pub fn set_chat_top(&mut self, chat_id: &str, is_top: i16, now: i64)
        ensures
            final(self).rows_view().len() == old(self).rows_view().len(),
            forall|j: int|
                0 <= j < old(self).rows_view().len() ==> final(self).rows_view()[j] == (if old(
                    self,
                ).rows_view()[j].chat_id@ == chat_id@ {
                    (ImChat {
                        is_top,
                        update_time: now,
                        version: spec_bump_version(old(self).rows_view()[j].version),
                        ..old(self).rows_view()[j]
                    })
                } else {
                    old(self).rows_view()[j]
                }),
    {
        let ghost pre = self.rows@;
        let mut i: usize = 0;
        while i < self.rows.len()
            invariant
                i <= pre.len(),
                self.rows@.len() == pre.len(),
                forall|j: int| i <= j < pre.len() ==> self.rows@[j] == pre[j],
                forall|j: int|
                    0 <= j < i ==> self.rows@[j] == (if pre[j].chat_id@ == chat_id@ {
                        (ImChat {
                            is_top,
                            update_time: now,
                            version: spec_bump_version(pre[j].version),
                            ..pre[j]
                        })
                    } else {
                        pre[j]
                    }),
            decreases pre.len() - i,
        {
            if str_eq(self.rows[i].chat_id.as_str(), chat_id) {
                let mut updated = self.rows[i].duplicate();
                updated.is_top = is_top;
                updated.update_time = now;
                if updated.version < i64::MAX {
                    updated.version = updated.version + 1;
                }
                self.rows[i] = updated;
            }
            i = i + 1;
        }
    }

    /// Mutes or unmutes the chat (every owner's row).
    pub fn set_chat_mute(&mut self, chat_id: &str, is_mute: i16, now: i64)
        ensures
            final(self).rows_view().len() == old(self).rows_view().len(),
            forall|j: int|
                0 <= j < old(self).rows_view().len() ==> final(self).rows_view()[j] == (if old(
                    self,
                ).rows_view()[j].chat_id@ == chat_id@ {
                    (ImChat {
                        is_mute,
                        update_time: now,
                        version: spec_bump_version(old(self).rows_view()[j].version),
                        ..old(self).rows_view()[j]
                    })
                } else {
                    old(self).rows_view()[j]
                }),
    {
        let ghost pre = self.rows@;
        let mut i: usize = 0;
        while i < self.rows.len()
            invariant
                i <= pre.len(),
                self.rows@.len() == pre.len(),
                forall|j: int| i <= j < pre.len() ==> self.rows@[j] == pre[j],
                forall|j: int|
                    0 <= j < i ==> self.rows@[j] == (if pre[j].chat_id@ == chat_id@ {
                        (ImChat {
                            is_mute,
                            update_time: now,
                            version: spec_bump_version(pre[j].version),
                            ..pre[j]
                        })
                    } else {
                        pre[j]
                    }),
            decreases pre.len() - i,
        {
            if str_eq(self.rows[i].chat_id.as_str(), chat_id) {
                let mut updated = self.rows[i].duplicate();
                updated.is_mute = is_mute;
                updated.update_time = now;
                if updated.version < i64::MAX {
                    updated.version = updated.version + 1;
                }
                self.rows[i] = updated;
            }
            i = i + 1;
        }
    }

    /// Sets one owner's private remark on the chat.
    pub fn update_chat_remark(&mut self, chat_id: &str, owner_id: &str, remark: Option<String>, now: i64)
        ensures
            final(self).rows_view().len() == old(self).rows_view().len(),
            forall|j: int|
                0 <= j < old(self).rows_view().len() ==> final(self).rows_view()[j] == (if old(
                    self,
                ).rows_view()[j].chat_id@ == chat_id@ && old(self).rows_view()[j].owner_id@
                    == owner_id@ {
                    (ImChat {
                        remark,
                        update_time: now,
                        version: spec_bump_version(old(self).rows_view()[j].version),
                        ..old(self).rows_view()[j]
                    })
                } else {
                    old(self).rows_view()[j]
                }),
    {
        let ghost pre = self.rows@;
        let mut i: usize = 0;
        while i < self.rows.len()
            invariant
                i <= pre.len(),
                self.rows@.len() == pre.len(),
                forall|j: int| i <= j < pre.len() ==> self.rows@[j] == pre[j],
                forall|j: int|
                    0 <= j < i ==> self.rows@[j] == (if pre[j].chat_id@ == chat_id@
                        && pre[j].owner_id@ == owner_id@ {
                        (ImChat {
                            remark,
                            update_time: now,
                            version: spec_bump_version(pre[j].version),
                            ..pre[j]
                        })
                    } else {
                        pre[j]
                    }),
            decreases pre.len() - i,
        {
            if str_eq(self.rows[i].chat_id.as_str(), chat_id) && str_eq(
                self.rows[i].owner_id.as_str(),
                owner_id,
            ) {
                let mut updated = self.rows[i].duplicate();
                updated.remark = clone_option_string(&remark);
                updated.update_time = now;
                if updated.version < i64::MAX {
                    updated.version = updated.version + 1;
                }
                self.rows[i] = updated;
            }
            i = i + 1;
        }
    }

    /// Soft-deletes one owner's view of the chat; the messages themselves
    /// stay in their stores.
    pub fn delete_chat(&mut self, chat_id: &str, owner_id: &str, now: i64)
        ensures
            final(self).rows_view().len() == old(self).rows_view().len(),
            forall|j: int|
                0 <= j < old(self).rows_view().len() ==> final(self).rows_view()[j] == (if old(
                    self,
                ).rows_view()[j].chat_id@ == chat_id@ && old(self).rows_view()[j].owner_id@
                    == owner_id@ {
                    (ImChat {
                        del_flag: 0i16,
                        update_time: now,
                        version: spec_bump_version(old(self).rows_view()[j].version),
                        ..old(self).rows_view()[j]
                    })
                } else {
                    old(self).rows_view()[j]
                }),
    {
        let ghost pre = self.rows@;
        let mut i: usize = 0;
        while i < self.rows.len()
            invariant
                i <= pre.len(),
                self.rows@.len() == pre.len(),
                forall|j: int| i <= j < pre.len() ==> self.rows@[j] == pre[j],
                forall|j: int|
                    0 <= j < i ==> self.rows@[j] == (if pre[j].chat_id@ == chat_id@
                        && pre[j].owner_id@ == owner_id@ {
                        (ImChat {
                            del_flag: 0i16,
                            update_time: now,
                            version: spec_bump_version(pre[j].version),
                            ..pre[j]
                        })
                    } else {
                        pre[j]
                    }),
            decreases pre.len() - i,
        {
            if str_eq(self.rows[i].chat_id.as_str(), chat_id) && str_eq(
                self.rows[i].owner_id.as_str(),
                owner_id,
            ) {
                let mut updated = self.rows[i].duplicate();
                updated.del_flag = 0;
                updated.update_time = now;
                if updated.version < i64::MAX {
                    updated.version = updated.version + 1;
                }
                self.rows[i] = updated;
            }
            i = i + 1;
        }
    }
}


/// How many messages one live row says its owner has not read.
pub open spec fn spec_unread_of(row: ImChat) -> int {
    if row.sequence > row.read_sequence {
        row.sequence - row.read_sequence
    } else {
        0
    }
}

/// Whether a row counts toward the owner's unread statistics, and, when a
/// type is given, toward that type's bucket.
pub open spec fn spec_counts_for(row: ImChat, owner: Seq<char>, bucket: Option<ChatType>) -> bool {
    &&& row.del_flag == 1
    &&& row.owner_id@ == owner
    &&& (bucket is None || bucket->0 == row.chat_type)
}

/// The owner's unread message count over these rows, unclamped.
pub open spec fn spec_unread_total(rows: Seq<ImChat>, owner: Seq<char>, bucket: Option<
    ChatType,
>) -> int
    decreases rows.len(),
{
    if rows.len() == 0 {
        0
    } else {
        (if spec_counts_for(rows[0], owner, bucket) {
            spec_unread_of(rows[0])
        } else {
            0
        }) + spec_unread_total(rows.skip(1), owner, bucket)
    }
}

/// Counts clamp at the top of the i64 range rather than overflowing.
pub open spec fn spec_clamp_count(total: int) -> i64 {
    if total > i64::MAX {
        i64::MAX
    } else {
        total as i64
    }
}

/// The owner's unread counts: everything, and split by chat type.
#[derive(Clone, Copy, Debug, PartialEq, Eq, Structural)]
pub struct UnreadStats {
    pub total_unread: i64,
    pub single_chat_unread: i64,
    pub group_chat_unread: i64,
}

impl ConversationTable {
    /// The owner's unread message statistics: for every live row of theirs,
    /// the distance from the read high-water mark to the activity mark,
    /// summed in all, and split between single and group chats.
    pub fn get_unread_message_stats(&self, owner_id: &str) -> (r: UnreadStats)
        ensures
            r.total_unread == spec_clamp_count(
                spec_unread_total(self.rows_view(), owner_id@, None),
            ),
            r.single_chat_unread == spec_clamp_count(
                spec_unread_total(self.rows_view(), owner_id@, Some(ChatType::Single)),
            ),
            r.group_chat_unread == spec_clamp_count(
                spec_unread_total(self.rows_view(), owner_id@, Some(ChatType::Group)),
            ),
    {
        let ghost all = self.rows@;
        let mut total: i128 = 0;
        let mut single: i128 = 0;
        let mut group: i128 = 0;
        let mut i: usize = 0;
        proof {
            assert(all.skip(0) =~= all);
            lemma_unread_total_nonnegative(all, owner_id@, None);
            lemma_unread_total_nonnegative(all, owner_id@, Some(ChatType::Single));
            lemma_unread_total_nonnegative(all, owner_id@, Some(ChatType::Group));
        }
        while i < self.rows.len()
            invariant
                i <= all.len(),
                all == self.rows@,
                0 <= total <= i64::MAX,
                0 <= single <= i64::MAX,
                0 <= group <= i64::MAX,
                spec_clamp_count(spec_unread_total(all, owner_id@, None)) == spec_clamp_count(
                    total + spec_unread_total(all.skip(i as int), owner_id@, None),
                ),
                spec_clamp_count(spec_unread_total(all, owner_id@, Some(ChatType::Single)))
                    == spec_clamp_count(
                    single + spec_unread_total(all.skip(i as int), owner_id@, Some(ChatType::Single)),
                ),
                spec_clamp_count(spec_unread_total(all, owner_id@, Some(ChatType::Group)))
                    == spec_clamp_count(
                    group + spec_unread_total(all.skip(i as int), owner_id@, Some(ChatType::Group)),
                ),
                spec_unread_total(all.skip(i as int), owner_id@, None) >= 0,
                spec_unread_total(all.skip(i as int), owner_id@, Some(ChatType::Single)) >= 0,
                spec_unread_total(all.skip(i as int), owner_id@, Some(ChatType::Group)) >= 0,
            decreases all.len() - i,
        {
            proof {
                assert(all.skip(i as int)[0] == all[i as int]);
                assert(all.skip(i as int).skip(1) =~= all.skip(i as int + 1));
                lemma_unread_total_nonnegative(all.skip(i as int + 1), owner_id@, None);
                lemma_unread_total_nonnegative(
                    all.skip(i as int + 1),
                    owner_id@,
                    Some(ChatType::Single),
                );
                lemma_unread_total_nonnegative(
                    all.skip(i as int + 1),
                    owner_id@,
                    Some(ChatType::Group),
                );
            }
            let row = &self.rows[i];
            if row.del_flag == 1 && str_eq(row.owner_id.as_str(), owner_id) {
                let unread: i128 = if row.sequence > row.read_sequence {
                    row.sequence as i128 - row.read_sequence as i128
                } else {
                    0
                };
                total = total + unread;
                if total > i64::MAX as i128 {
                    total = i64::MAX as i128;
                }
                match row.chat_type {
                    ChatType::Single => {
                        single = single + unread;
                        if single > i64::MAX as i128 {
                            single = i64::MAX as i128;
                        }
                    },
                    ChatType::Group => {
                        group = group + unread;
                        if group > i64::MAX as i128 {
                            group = i64::MAX as i128;
                        }
                    },
                }
            }
            i = i + 1;
        }
        proof {
            assert(all.skip(all.len() as int) =~= Seq::<ImChat>::empty());
        }
        UnreadStats {
            total_unread: total as i64,
            single_chat_unread: single as i64,
            group_chat_unread: group as i64,
        }
    }
}

/// Unread counts never go negative: every summand is non-negative.
proof fn lemma_unread_total_nonnegative(rows: Seq<ImChat>, owner: Seq<char>, bucket: Option<
    ChatType,
>)
    ensures
        spec_unread_total(rows, owner, bucket) >= 0,
    decreases rows.len(),
{
    if rows.len() > 0 {
        lemma_unread_total_nonnegative(rows.skip(1), owner, bucket);
    }
}


/// The owner's live rows, in store order.
pub open spec fn spec_owner_chats(rows: Seq<ImChat>, owner: Seq<char>) -> Seq<ImChat>
    decreases rows.len(),
{
    if rows.len() == 0 {
        Seq::empty()
    } else {
        let rest = spec_owner_chats(rows.skip(1), owner);
        if rows[0].del_flag == 1 && rows[0].owner_id@ == owner {
            seq![rows[0]] + rest
        } else {
            rest
        }
    }
}

/// The listing order of a conversation screen: pinned chats first, then
/// the most recently active.
pub open spec fn spec_listed_before(a: ImChat, b: ImChat) -> bool {
    a.is_top > b.is_top || (a.is_top == b.is_top && a.update_time >= b.update_time)
}

impl ConversationTable {
    /// One owner's conversation list: their live rows, pinned chats first
    /// and then by most recent activity. Rows that tie come back in an
    /// unspecified relative order, as they would from the underlying store.
    pub fn get_user_chats(&self, owner_id: &str) -> (r: Vec<ImChat>)
        ensures
            forall|x: int, y: int| 0 <= x < y < r@.len() ==> spec_listed_before(r@[x], r@[y]),
            r@.to_multiset() == spec_owner_chats(self.rows_view(), owner_id@).to_multiset(),
    {
        let ghost all = self.rows@;
        let ghost full = spec_owner_chats(all, owner_id@);
        let mut rest: Vec<ImChat> = Vec::new();
        let mut i: usize = 0;
        proof {
            assert(all.skip(0) =~= all);
            assert(rest@ + full =~= full);
        }
        while i < self.rows.len()
            invariant
                i <= all.len(),
                all == self.rows@,
                full == spec_owner_chats(all, owner_id@),
                rest@ + spec_owner_chats(all.skip(i as int), owner_id@) =~= full,
            decreases all.len() - i,
        {
            proof {
                assert(all.skip(i as int)[0] == all[i as int]);
                assert(all.skip(i as int).skip(1) =~= all.skip(i as int + 1));
            }
            let row = &self.rows[i];
            if row.del_flag == 1 && str_eq(row.owner_id.as_str(), owner_id) {
                let ghost rest_pre = rest@;
                rest.push(row.duplicate());
                proof {
                    assert(rest@ =~= rest_pre.push(all[i as int]));
                    assert(rest_pre.push(all[i as int]) + spec_owner_chats(
                        all.skip(i as int + 1),
                        owner_id@,
                    ) =~= rest_pre + (seq![all[i as int]] + spec_owner_chats(
                        all.skip(i as int + 1),
                        owner_id@,
                    )));
                }
            }
            i = i + 1;
        }
        proof {
            assert(all.skip(all.len() as int) =~= Seq::<ImChat>::empty());
            assert(rest@ + Seq::<ImChat>::empty() =~= rest@);
            assert(rest@ =~= full);
            broadcast use vstd::seq_lib::group_to_multiset_ensures;
        }
        let mut sorted: Vec<ImChat> = Vec::new();
        while rest.len() > 0
            invariant
                sorted@.to_multiset().add(rest@.to_multiset()) == full.to_multiset(),
                forall|x: int, y: int|
                    0 <= x < y < sorted@.len() ==> spec_listed_before(sorted@[x], sorted@[y]),
                forall|x: int, j: int|
                    0 <= x < sorted@.len() && 0 <= j < rest@.len() ==> spec_listed_before(
                        sorted@[x],
                        rest@[j],
                    ),
            decreases rest@.len(),
        {
            let mut best: usize = 0;
            let mut k: usize = 1;
            while k < rest.len()
                invariant
                    best < k <= rest@.len(),
                    rest@.len() > 0,
                    forall|j: int|
                        0 <= j < k ==> spec_listed_before(rest@[best as int], rest@[j]),
                decreases rest@.len() - k,
            {
                let earlier = rest[k].is_top > rest[best].is_top || (rest[k].is_top
                    == rest[best].is_top && rest[k].update_time > rest[best].update_time);
                if earlier {
                    best = k;
                }
                k = k + 1;
            }
            let ghost rest_pre = rest@;
            let ghost sorted_pre = sorted@;
            let row = rest.remove(best);
            sorted.push(row);
            proof {
                broadcast use vstd::seq_lib::group_to_multiset_ensures;
                assert(sorted@ =~= sorted_pre.push(rest_pre[best as int]));
                assert(rest@ =~= rest_pre.remove(best as int));
                assert(sorted@.to_multiset() =~= sorted_pre.to_multiset().insert(
                    rest_pre[best as int],
                ));
                assert(rest@.to_multiset() =~= rest_pre.to_multiset().remove(
                    rest_pre[best as int],
                ));
                assert(rest_pre.to_multiset().count(rest_pre[best as int]) > 0) by {
                    assert(rest_pre.contains(rest_pre[best as int]));
                }
                assert(sorted@.to_multiset().add(rest@.to_multiset()) =~= full.to_multiset());
                assert(forall|j: int|
                    0 <= j < rest@.len() ==> rest_pre.contains(#[trigger] rest@[j]));
            }
        }
        proof {
            broadcast use vstd::seq_lib::group_to_multiset_ensures;
            assert(rest@.to_multiset() =~= Multiset::<ImChat>::empty());
            assert(sorted@.to_multiset() =~= full.to_multiset());
        }
        sorted
    }
}

/// Everything `get_or_create_chat` promises of one run: the result carries
/// the requested key and type; an exact match leaves the table alone; a
/// drifted row is replaced in place by the repaired value, which keeps the
/// row's history but takes the caller's type, peer and a bumped version; a
/// missing row is created fresh; and in every case a re-query for the same
/// key finds exactly the returned row.
pub open spec fn spec_get_or_create_post(
    pre: Seq<ImChat>,
    post: Seq<ImChat>,
    r: ImChat,
    chat_id: Seq<char>,
    chat_type: ChatType,
    owner_id: Seq<char>,
    to_id: Seq<char>,
    now: i64,
) -> bool {
    &&& r.chat_id@ == chat_id
    &&& r.owner_id@ == owner_id
    &&& r.chat_type == chat_type
    &&& r.del_flag == 1
    &&& spec_find_exact(post, chat_id, owner_id, chat_type) == Some(r)
    &&& (spec_find_exact(pre, chat_id, owner_id, chat_type) matches Some(row) ==> post == pre && r
        == row)
    &&& (spec_find_exact(pre, chat_id, owner_id, chat_type) is None && spec_find_conflict(
        pre,
        chat_id,
        owner_id,
        chat_type,
    ) is Some ==> {
        let i = spec_find_conflict(pre, chat_id, owner_id, chat_type)->0;
        &&& post == pre.update(i, r)
        &&& r.to_id@ == to_id
        &&& r.is_top == pre[i].is_top
        &&& r.is_mute == pre[i].is_mute
        &&& r.remark == pre[i].remark
        &&& r.sequence == pre[i].sequence
        &&& r.read_sequence == pre[i].read_sequence
        &&& r.version == spec_bump_version(pre[i].version)
        &&& r.create_time == pre[i].create_time
        &&& r.update_time == now
    })
    &&& (spec_find_exact(pre, chat_id, owner_id, chat_type) is None && spec_find_conflict(
        pre,
        chat_id,
        owner_id,
        chat_type,
    ) is None ==> {
        &&& post == pre.push(r)
        &&& r.to_id@ == to_id
        &&& r.is_top == 0
        &&& r.is_mute == 0
        &&& r.remark is None
        &&& r.sequence == 0
        &&& r.read_sequence == 0
        &&& r.version == 1
        &&& r.create_time == now
        &&& r.update_time == now
    })
}

/// A row that `spec_find_exact` returns carries exactly the key it was
/// asked for.
proof fn lemma_find_exact_matches(
    rows: Seq<ImChat>,
    chat_id: Seq<char>,
    owner_id: Seq<char>,
    chat_type: ChatType,
)
    ensures
        spec_find_exact(rows, chat_id, owner_id, chat_type) is Some ==> {
            let row = spec_find_exact(rows, chat_id, owner_id, chat_type)->0;
            &&& row.chat_id@ == chat_id
            &&& row.owner_id@ == owner_id
            &&& row.chat_type == chat_type
            &&& row.del_flag == 1
        },
    decreases rows.len(),
{
    if rows.len() > 0 {
        lemma_find_exact_matches(rows.skip(1), chat_id, owner_id, chat_type);
    }
}

/// A conflict index that `spec_find_conflict` returns is in bounds and
/// names a live row under the requested key with the other type.
proof fn lemma_find_conflict_in_bounds(
    rows: Seq<ImChat>,
    chat_id: Seq<char>,
    owner_id: Seq<char>,
    chat_type: ChatType,
)
    ensures
        spec_find_conflict(rows, chat_id, owner_id, chat_type) is Some ==> {
            let index = spec_find_conflict(rows, chat_id, owner_id, chat_type)->0;
            &&& 0 <= index < rows.len()
            &&& rows[index].del_flag == 1
            &&& rows[index].chat_id@ == chat_id
            &&& rows[index].owner_id@ == owner_id
            &&& rows[index].chat_type != chat_type
        },
    decreases rows.len(),
{
    if rows.len() > 0 {
        lemma_find_conflict_in_bounds(rows.skip(1), chat_id, owner_id, chat_type);
        if spec_find_conflict(rows, chat_id, owner_id, chat_type) is Some {
            let inner = spec_find_conflict(rows.skip(1), chat_id, owner_id, chat_type);
            if !(rows[0].del_flag == 1 && rows[0].chat_id@ == chat_id && rows[0].owner_id@
                == owner_id && rows[0].chat_type != chat_type) {
                assert(inner is Some);
                assert(rows[inner->0 + 1] == rows.skip(1)[inner->0]);
            }
        }
    }
}

/// Appending a matching live row to a table with no exact match makes that
/// row the one an exact query finds.
proof fn lemma_find_exact_after_push(
    rows: Seq<ImChat>,
    row: ImChat,
    chat_id: Seq<char>,
    owner_id: Seq<char>,
    chat_type: ChatType,
)
    requires
        spec_find_exact(rows, chat_id, owner_id, chat_type) is None,
        row.del_flag == 1,
        row.chat_id@ == chat_id,
        row.owner_id@ == owner_id,
        row.chat_type == chat_type,
    ensures
        spec_find_exact(rows.push(row), chat_id, owner_id, chat_type) == Some(row),
    decreases rows.len(),
{
    if rows.len() == 0 {
        assert(rows.push(row)[0] == row);
    } else {
        assert(rows.push(row)[0] == rows[0]);
        assert(rows.push(row).skip(1) =~= rows.skip(1).push(row));
        lemma_find_exact_after_push(rows.skip(1), row, chat_id, owner_id, chat_type);
    }
}

/// Replacing the row at some index of a table with no exact match by a
/// matching live row makes that row the one an exact query finds.
proof fn lemma_find_exact_after_update(
    rows: Seq<ImChat>,
    index: int,
    row: ImChat,
    chat_id: Seq<char>,
    owner_id: Seq<char>,
    chat_type: ChatType,
)
    requires
        spec_find_exact(rows, chat_id, owner_id, chat_type) is None,
        0 <= index < rows.len(),
        row.del_flag == 1,
        row.chat_id@ == chat_id,
        row.owner_id@ == owner_id,
        row.chat_type == chat_type,
    ensures
        spec_find_exact(rows.update(index, row), chat_id, owner_id, chat_type) == Some(row),
    decreases rows.len(),
{
    if index == 0 {
        assert(rows.update(0, row)[0] == row);
    } else {
        assert(rows.update(index, row)[0] == rows[0]);
        assert(rows.update(index, row).skip(1) =~= rows.skip(1).update(index - 1, row));
        lemma_find_exact_after_update(rows.skip(1), index - 1, row, chat_id, owner_id, chat_type);
    }
}

/// Get-or-create idempotence: a second run with the same arguments returns
/// the same conversation row and leaves the table untouched, because the
/// first run left the table answering exact queries for this key with its
/// result.
pub proof fn lemma_get_or_create_chat_idempotent(
    t0: Seq<ImChat>,
    t1: Seq<ImChat>,
    t2: Seq<ImChat>,
    r1: ImChat,
    r2: ImChat,
    chat_id: Seq<char>,
    chat_type: ChatType,
    owner_id: Seq<char>,
    to_id: Seq<char>,
    now1: i64,
    now2: i64,
)
    requires
        spec_get_or_create_post(t0, t1, r1, chat_id, chat_type, owner_id, to_id, now1),
        spec_get_or_create_post(t1, t2, r2, chat_id, chat_type, owner_id, to_id, now2),
    ensures
        r2 == r1,
        t2 == t1,
{
}

} // verus!

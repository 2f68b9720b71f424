//! In-memory models of the durable message tables and of the fast-path
//! group read-state set. The drivers and tests run on these; production
//! binds the same contracts to the relational store and the key-value
//! store.

use vstd::prelude::*;

verus! {

use crate::message::{ImSingleMessage, ImGroupMessage};
use crate::model::CONTENT_TYPE_CALL_INVITE;
use crate::util::{str_eq, clone_option_string};
use vstd::multiset::Multiset;

/// Seconds before an untouched group read-state set expires in the
/// key-value store.
pub const GROUP_READ_TTL_SECONDS: u64 = 2592000;

/// A message with this idempotency key is already recorded.
pub open spec fn spec_has_single_message(rows: Seq<ImSingleMessage>, message_id: Seq<char>) -> bool {
    exists|i: int| 0 <= i < rows.len() && rows[i].message_id@ == message_id
}

/// The system of record for single-chat messages, append-only and keyed by
/// the externally supplied `message_id`: saving the same id twice leaves
/// the first record in place.
pub struct SingleMessageStore {
    rows: Vec<ImSingleMessage>,
}

impl SingleMessageStore {
    pub closed spec fn rows_view(self) -> Seq<ImSingleMessage> {
        self.rows@
    }

    pub fn new() -> (r: Self)
        ensures
            r.rows_view() == Seq::<ImSingleMessage>::empty(),
    {
        SingleMessageStore { rows: Vec::new() }
    }

    /// How many records the store holds.
    pub fn message_count(&self) -> (r: usize)
        ensures
            r == self.rows_view().len(),
    {
        self.rows.len()
    }

    /// Whether a message with this id is recorded.
    pub fn has_message(&self, message_id: &str) -> (r: bool)
        ensures
            r == spec_has_single_message(self.rows_view(), message_id@),
    {
        let mut i: usize = 0;
        while i < self.rows.len()
            invariant
                i <= self.rows@.len(),
                forall|j: int| 0 <= j < i ==> self.rows@[j].message_id@ != message_id@,
            decreases self.rows@.len() - i,
        {
            if str_eq(self.rows[i].message_id.as_str(), message_id) {
                return true;
            }
            i = i + 1;
        }
        false
    }

    /// The primary persist of the delivery pipeline: records the message,
    /// or does nothing when its idempotency key is already present.
    pub fn save_single_message(&mut self, message: ImSingleMessage)
        ensures
            spec_has_single_message(old(self).rows_view(), message.message_id@) ==> final(self).rows_view() == old(self).rows_view(),
            !spec_has_single_message(old(self).rows_view(), message.message_id@) ==> final(self).rows_view() == old(self).rows_view().push(message),
            spec_has_single_message(final(self).rows_view(), message.message_id@),
    {
        let ghost pre = self.rows@;
        let duplicate = self.has_message(message.message_id.as_str());
        if !duplicate {
            let ghost mid = message.message_id@;
            self.rows.push(message);
            proof {
                assert(self.rows@[pre.len() as int].message_id@ == mid);
            }
        }
    }


    /// Up to `limit` messages of the conversation between `from_id` and
    /// `to_id`, in increasing sequence order, newer than `since_sequence`
    /// when one is given. Expired call invites are filtered out: a realtime
    /// invite has no value on replay.
    pub fn get_single_messages(
        &self,
        from_id: &str,
        to_id: &str,
        since_sequence: Option<i64>,
        limit: usize,
    ) -> (r: Vec<ImSingleMessage>)
        ensures
            forall|x: int, y: int| 0 <= x < y < r@.len() ==> r@[x].sequence <= r@[y].sequence,
            forall|x: ImSingleMessage| #[trigger]
                r@.to_multiset().count(x) <= spec_single_sync_rows(
                    self.rows_view(),
                    from_id@,
                    to_id@,
                    since_sequence,
                ).to_multiset().count(x),
            limit >= spec_single_sync_rows(
                self.rows_view(),
                from_id@,
                to_id@,
                since_sequence,
            ).len() ==> r@.to_multiset() == spec_single_sync_rows(
                self.rows_view(),
                from_id@,
                to_id@,
                since_sequence,
            ).to_multiset(),
            r@.len() == (if limit < spec_single_sync_rows(
                self.rows_view(),
                from_id@,
                to_id@,
                since_sequence,
            ).len() {
                limit as int
            } else {
                spec_single_sync_rows(self.rows_view(), from_id@, to_id@, since_sequence).len()
                    as int
            }),
    {
        let ghost all = self.rows@;
        let ghost full = spec_single_sync_rows(all, from_id@, to_id@, since_sequence);
        let mut rest: Vec<ImSingleMessage> = Vec::new();
        let mut i: usize = 0;
        proof {
            assert(all.skip(0) =~= all);
            assert(rest@ + full =~= full);
        }
        while i < self.rows.len()
            invariant
                i <= all.len(),
                all == self.rows@,
                full == spec_single_sync_rows(all, from_id@, to_id@, since_sequence),
                rest@ + spec_single_sync_rows(all.skip(i as int), from_id@, to_id@, since_sequence)
                    =~= full,
            decreases all.len() - i,
        {
            proof {
                assert(all.skip(i as int)[0] == all[i as int]);
                assert(all.skip(i as int).skip(1) =~= all.skip(i as int + 1));
            }
            let row = &self.rows[i];
            let pair_matches = (str_eq(row.from_id.as_str(), from_id) && str_eq(
                row.to_id.as_str(),
                to_id,
            )) || (str_eq(row.from_id.as_str(), to_id) && str_eq(row.to_id.as_str(), from_id));
            let fresh_enough = match since_sequence {
                Some(since) => row.sequence > since,
                None => true,
            };
            if pair_matches && row.del_flag == 1 && row.message_content_type
                != CONTENT_TYPE_CALL_INVITE && fresh_enough {
                let ghost rest_pre = rest@;
                rest.push(row.duplicate());
                proof {
                    assert(rest@ =~= rest_pre.push(all[i as int]));
                    assert(rest_pre.push(all[i as int]) + spec_single_sync_rows(
                        all.skip(i as int + 1),
                        from_id@,
                        to_id@,
                        since_sequence,
                    ) =~= rest_pre + (seq![all[i as int]] + spec_single_sync_rows(
                        all.skip(i as int + 1),
                        from_id@,
                        to_id@,
                        since_sequence,
                    )));
                }
            }
            i = i + 1;
        }
        proof {
            assert(all.skip(all.len() as int) =~= Seq::<ImSingleMessage>::empty());
            assert(rest@ + Seq::<ImSingleMessage>::empty() =~= rest@);
            assert(rest@ =~= full);
            broadcast use vstd::seq_lib::group_to_multiset_ensures;
        }
        let mut sorted: Vec<ImSingleMessage> = Vec::new();
        while rest.len() > 0 && sorted.len() < limit
            invariant
                sorted@.to_multiset().add(rest@.to_multiset()) == full.to_multiset(),
                sorted@.len() + rest@.len() >= full.len() || sorted@.len() == limit,
                sorted@.len() <= limit,
                sorted@.len() + rest@.len() <= full.len(),
                forall|x: int, y: int|
                    0 <= x < y < sorted@.len() ==> sorted@[x].sequence <= sorted@[y].sequence,
                forall|x: int, j: int|
                    0 <= x < sorted@.len() && 0 <= j < rest@.len() ==> sorted@[x].sequence
                        <= rest@[j].sequence,
            decreases rest@.len(),
        {
            let mut best: usize = 0;
            let mut k: usize = 1;
            while k < rest.len()
                invariant
                    best < k <= rest@.len(),
                    rest@.len() > 0,
                    forall|j: int| 0 <= j < k ==> rest@[best as int].sequence <= rest@[j].sequence,
                decreases rest@.len() - k,
            {
                if rest[k].sequence < rest[best].sequence {
                    best = k;
                }
                k = k + 1;
            }
            let ghost rest_pre = rest@;
            let ghost sorted_pre = sorted@;
            let row = rest.remove(best);
            sorted.push(row);
            proof {
                broadcast use vstd::seq_lib::group_to_multiset_ensures;
                assert(sorted@ =~= sorted_pre.push(rest_pre[best as int]));
                assert(rest@ =~= rest_pre.remove(best as int));
                assert(sorted@.to_multiset() =~= sorted_pre.to_multiset().insert(
                    rest_pre[best as int],
                ));
                assert(rest@.to_multiset() =~= rest_pre.to_multiset().remove(
                    rest_pre[best as int],
                ));
                assert(rest_pre.to_multiset().count(rest_pre[best as int]) > 0) by {
                    assert(rest_pre.contains(rest_pre[best as int]));
                }
                assert(sorted@.to_multiset().add(rest@.to_multiset()) =~= full.to_multiset());
                assert(forall|j: int|
                    0 <= j < rest@.len() ==> rest_pre.contains(#[trigger] rest@[j]));
            }
        }
        proof {
            broadcast use vstd::seq_lib::group_to_multiset_ensures;
            assert forall|x: ImSingleMessage| #[trigger] sorted@.to_multiset().count(x)
                <= full.to_multiset().count(x) by {
                assert(sorted@.to_multiset().count(x) + rest@.to_multiset().count(x)
                    == full.to_multiset().count(x));
            }
            if rest@.len() == 0 {
                assert(rest@.to_multiset() =~= Multiset::<ImSingleMessage>::empty());
                assert(sorted@.to_multiset() =~= full.to_multiset());
                assert(sorted@.len() == sorted@.to_multiset().len());
                assert(full.len() == full.to_multiset().len());
            }
        }
        sorted
    }

    /// Flips the read state of one delivered message for its recipient.
    pub fn mark_single_message_read(&mut self, message_id: &str, to_id: &str, now: i64)
        ensures
            final(self).rows_view().len() == old(self).rows_view().len(),
            forall|j: int|
                0 <= j < old(self).rows_view().len() ==> final(self).rows_view()[j] == (if old(
                    self,
                ).rows_view()[j].message_id@ == message_id@ && old(self).rows_view()[j].to_id@
                    == to_id@ {
                    (ImSingleMessage {
                        read_status: 1,
                        update_time: Some(now),
                        ..old(self).rows_view()[j]
                    })
                } else {
                    old(self).rows_view()[j]
                }),
    {
        let ghost pre = self.rows@;
        let mut i: usize = 0;
        while i < self.rows.len()
            invariant
                i <= pre.len(),
                self.rows@.len() == pre.len(),
                forall|j: int|
                    i <= j < pre.len() ==> self.rows@[j] == pre[j],
                forall|j: int|
                    0 <= j < i ==> self.rows@[j] == (if pre[j].message_id@ == message_id@
                        && pre[j].to_id@ == to_id@ {
                        (ImSingleMessage { read_status: 1, update_time: Some(now), ..pre[j] })
                    } else {
                        pre[j]
                    }),
            decreases pre.len() - i,
        {
            if str_eq(self.rows[i].message_id.as_str(), message_id) && str_eq(
                self.rows[i].to_id.as_str(),
                to_id,
            ) {
                let mut updated = self.rows[i].duplicate();
                updated.read_status = 1;
                updated.update_time = Some(now);
                self.rows[i] = updated;
            }
            i = i + 1;
        }
    }
}

impl ImSingleMessage {
    /// A field-for-field copy of the record.
    pub fn duplicate(&self) -> (r: ImSingleMessage)
        ensures
            r == *self,
    {
        ImSingleMessage {
            message_id: self.message_id.clone(),
            from_id: self.from_id.clone(),
            to_id: self.to_id.clone(),
            message_body: self.message_body.clone(),
            message_time: self.message_time,
            message_content_type: self.message_content_type,
            read_status: self.read_status,
            extra: clone_option_string(&self.extra),
            del_flag: self.del_flag,
            sequence: self.sequence,
            message_random: clone_option_string(&self.message_random),
            create_time: self.create_time,
            update_time: self.update_time,
            version: self.version,
            reply_to: clone_option_string(&self.reply_to),
            to_type: clone_option_string(&self.to_type),
            file_url: clone_option_string(&self.file_url),
            file_name: clone_option_string(&self.file_name),
            file_type: clone_option_string(&self.file_type),
        }
    }
}


/// A live row of the conversation between `a` and `b` (either direction)
/// that incremental sync hands out: expired call invites are never
/// replayed, and `since` cuts off what the client already has.
pub open spec fn spec_single_sync_match(
    row: ImSingleMessage,
    a: Seq<char>,
    b: Seq<char>,
    since: Option<i64>,
) -> bool {
    &&& ((row.from_id@ == a && row.to_id@ == b) || (row.from_id@ == b && row.to_id@ == a))
    &&& row.del_flag == 1
    &&& row.message_content_type != CONTENT_TYPE_CALL_INVITE
    &&& (since is None || row.sequence > since->0)
}

/// The rows incremental sync selects, in store order.
pub open spec fn spec_single_sync_rows(
    rows: Seq<ImSingleMessage>,
    a: Seq<char>,
    b: Seq<char>,
    since: Option<i64>,
) -> Seq<ImSingleMessage>
    decreases rows.len(),
{
    if rows.len() == 0 {
        Seq::empty()
    } else {
        let rest = spec_single_sync_rows(rows.skip(1), a, b, since);
        if spec_single_sync_match(rows[0], a, b, since) {
            seq![rows[0]] + rest
        } else {
            rest
        }
    }
}

/// A group message with this idempotency key is already recorded.
pub open spec fn spec_has_group_message(rows: Seq<ImGroupMessage>, message_id: Seq<char>) -> bool {
    exists|i: int| 0 <= i < rows.len() && rows[i].message_id@ == message_id
}

/// The system of record for group messages; append-only, keyed by
/// `message_id` like the single-chat table.
pub struct GroupMessageStore {
    rows: Vec<ImGroupMessage>,
}

impl GroupMessageStore {
    pub closed spec fn rows_view(self) -> Seq<ImGroupMessage> {
        self.rows@
    }

    pub fn new() -> (r: Self)
        ensures
            r.rows_view() == Seq::<ImGroupMessage>::empty(),
    {
        GroupMessageStore { rows: Vec::new() }
    }

    /// How many records the store holds.
    pub fn message_count(&self) -> (r: usize)
        ensures
            r == self.rows_view().len(),
    {
        self.rows.len()
    }

    /// Whether a message with this id is recorded.
    pub fn has_message(&self, message_id: &str) -> (r: bool)
        ensures
            r == spec_has_group_message(self.rows_view(), message_id@),
    {
        let mut i: usize = 0;
        while i < self.rows.len()
            invariant
                i <= self.rows@.len(),
                forall|j: int| 0 <= j < i ==> self.rows@[j].message_id@ != message_id@,
            decreases self.rows@.len() - i,
        {
            if str_eq(self.rows[i].message_id.as_str(), message_id) {
                return true;
            }
            i = i + 1;
        }
        false
    }

    /// The primary persist for a group send: records the message, or does
    /// nothing when its idempotency key is already present.
    pub fn save_group_message(&mut self, message: ImGroupMessage)
        ensures
            spec_has_group_message(old(self).rows_view(), message.message_id@) ==> final(self).rows_view() == old(self).rows_view(),
            !spec_has_group_message(old(self).rows_view(), message.message_id@) ==> final(self).rows_view() == old(self).rows_view().push(message),
            spec_has_group_message(final(self).rows_view(), message.message_id@),
    {
        let ghost pre = self.rows@;
        let duplicate = self.has_message(message.message_id.as_str());
        if !duplicate {
            let ghost mid = message.message_id@;
            self.rows.push(message);
            proof {
                assert(self.rows@[pre.len() as int].message_id@ == mid);
            }
        }
    }

    /// Up to `limit` of the group's messages, in increasing sequence order
    /// (unsequenced rows last), newer than `since_sequence` when one is
    /// given. Expired call invites are filtered out.
    pub fn get_group_messages(
        &self,
        group_id: &str,
        since_sequence: Option<i64>,
        limit: usize,
    ) -> (r: Vec<ImGroupMessage>)
        ensures
            forall|x: int, y: int|
                0 <= x < y < r@.len() ==> spec_group_sort_key(r@[x]) <= spec_group_sort_key(
                    r@[y],
                ),
            forall|x: ImGroupMessage| #[trigger]
                r@.to_multiset().count(x) <= spec_group_sync_rows(
                    self.rows_view(),
                    group_id@,
                    since_sequence,
                ).to_multiset().count(x),
            limit >= spec_group_sync_rows(self.rows_view(), group_id@, since_sequence).len()
                ==> r@.to_multiset() == spec_group_sync_rows(
                self.rows_view(),
                group_id@,
                since_sequence,
            ).to_multiset(),
            r@.len() == (if limit < spec_group_sync_rows(
                self.rows_view(),
                group_id@,
                since_sequence,
            ).len() {
                limit as int
            } else {
                spec_group_sync_rows(self.rows_view(), group_id@, since_sequence).len() as int
            }),
    {
        let ghost all = self.rows@;
        let ghost full = spec_group_sync_rows(all, group_id@, since_sequence);
        let mut rest: Vec<ImGroupMessage> = Vec::new();
        let mut i: usize = 0;
        proof {
            assert(all.skip(0) =~= all);
            assert(rest@ + full =~= full);
        }
        while i < self.rows.len()
            invariant
                i <= all.len(),
                all == self.rows@,
                full == spec_group_sync_rows(all, group_id@, since_sequence),
                rest@ + spec_group_sync_rows(all.skip(i as int), group_id@, since_sequence)
                    =~= full,
            decreases all.len() - i,
        {
            proof {
                assert(all.skip(i as int)[0] == all[i as int]);
                assert(all.skip(i as int).skip(1) =~= all.skip(i as int + 1));
            }
            let row = &self.rows[i];
            let fresh_enough = match since_sequence {
                Some(since) => match row.sequence {
                    Some(sequence) => sequence > since,
                    None => false,
                },
                None => true,
            };
            if str_eq(row.group_id.as_str(), group_id) && row.del_flag == 1
                && row.message_content_type != CONTENT_TYPE_CALL_INVITE && fresh_enough {
                let ghost rest_pre = rest@;
                rest.push(row.duplicate());
                proof {
                    assert(rest@ =~= rest_pre.push(all[i as int]));
                    assert(rest_pre.push(all[i as int]) + spec_group_sync_rows(
                        all.skip(i as int + 1),
                        group_id@,
                        since_sequence,
                    ) =~= rest_pre + (seq![all[i as int]] + spec_group_sync_rows(
                        all.skip(i as int + 1),
                        group_id@,
                        since_sequence,
                    )));
                }
            }
            i = i + 1;
        }
        proof {
            assert(all.skip(all.len() as int) =~= Seq::<ImGroupMessage>::empty());
            assert(rest@ + Seq::<ImGroupMessage>::empty() =~= rest@);
            assert(rest@ =~= full);
            broadcast use vstd::seq_lib::group_to_multiset_ensures;
        }
        let mut sorted: Vec<ImGroupMessage> = Vec::new();
        while rest.len() > 0 && sorted.len() < limit
            invariant
                sorted@.to_multiset().add(rest@.to_multiset()) == full.to_multiset(),
                sorted@.len() + rest@.len() >= full.len() || sorted@.len() == limit,
                sorted@.len() <= limit,
                sorted@.len() + rest@.len() <= full.len(),
                forall|x: int, y: int|
                    0 <= x < y < sorted@.len() ==> spec_group_sort_key(sorted@[x])
                        <= spec_group_sort_key(sorted@[y]),
                forall|x: int, j: int|
                    0 <= x < sorted@.len() && 0 <= j < rest@.len() ==> spec_group_sort_key(
                        sorted@[x],
                    ) <= spec_group_sort_key(rest@[j]),
            decreases rest@.len(),
        {
            let mut best: usize = 0;
            let mut k: usize = 1;
            while k < rest.len()
                invariant
                    best < k <= rest@.len(),
                    rest@.len() > 0,
                    forall|j: int|
                        0 <= j < k ==> spec_group_sort_key(rest@[best as int])
                            <= spec_group_sort_key(rest@[j]),
                decreases rest@.len() - k,
            {
                let key_k = match rest[k].sequence {
                    Some(sequence) => sequence,
                    None => i64::MAX,
                };
                let key_best = match rest[best].sequence {
                    Some(sequence) => sequence,
                    None => i64::MAX,
                };
                if key_k < key_best {
                    best = k;
                }
                k = k + 1;
            }
            let ghost rest_pre = rest@;
            let ghost sorted_pre = sorted@;
            let row = rest.remove(best);
            sorted.push(row);
            proof {
                broadcast use vstd::seq_lib::group_to_multiset_ensures;
                assert(sorted@ =~= sorted_pre.push(rest_pre[best as int]));
                assert(rest@ =~= rest_pre.remove(best as int));
                assert(sorted@.to_multiset() =~= sorted_pre.to_multiset().insert(
                    rest_pre[best as int],
                ));
                assert(rest@.to_multiset() =~= rest_pre.to_multiset().remove(
                    rest_pre[best as int],
                ));
                assert(rest_pre.to_multiset().count(rest_pre[best as int]) > 0) by {
                    assert(rest_pre.contains(rest_pre[best as int]));
                }
                assert(sorted@.to_multiset().add(rest@.to_multiset()) =~= full.to_multiset());
                assert(forall|j: int|
                    0 <= j < rest@.len() ==> rest_pre.contains(#[trigger] rest@[j]));
            }
        }
        proof {
            broadcast use vstd::seq_lib::group_to_multiset_ensures;
            assert forall|x: ImGroupMessage| #[trigger] sorted@.to_multiset().count(x)
                <= full.to_multiset().count(x) by {
                assert(sorted@.to_multiset().count(x) + rest@.to_multiset().count(x)
                    == full.to_multiset().count(x));
            }
            if rest@.len() == 0 {
                assert(rest@.to_multiset() =~= Multiset::<ImGroupMessage>::empty());
                assert(sorted@.to_multiset() =~= full.to_multiset());
                assert(sorted@.len() == sorted@.to_multiset().len());
                assert(full.len() == full.to_multiset().len());
            }
        }
        sorted
    }
}


/// A live row of the group's history that incremental sync hands out:
/// expired call invites are never replayed, and `since` cuts off what the
/// client already has (a row without a sequence only comes back on a full
/// sync).
pub open spec fn spec_group_sync_match(row: ImGroupMessage, group_id: Seq<char>, since: Option<
    i64,
>) -> bool {
    &&& row.group_id@ == group_id
    &&& row.del_flag == 1
    &&& row.message_content_type != CONTENT_TYPE_CALL_INVITE
    &&& (since is None || (row.sequence is Some && row.sequence->0 > since->0))
}

/// The rows incremental sync selects, in store order.
pub open spec fn spec_group_sync_rows(
    rows: Seq<ImGroupMessage>,
    group_id: Seq<char>,
    since: Option<i64>,
) -> Seq<ImGroupMessage>
    decreases rows.len(),
{
    if rows.len() == 0 {
        Seq::empty()
    } else {
        let rest = spec_group_sync_rows(rows.skip(1), group_id, since);
        if spec_group_sync_match(rows[0], group_id, since) {
            seq![rows[0]] + rest
        } else {
            rest
        }
    }
}

/// The order incremental sync returns group rows in: by sequence, with
/// unsequenced rows last.
pub open spec fn spec_group_sort_key(row: ImGroupMessage) -> i64 {
    match row.sequence {
        Some(sequence) => sequence,
        None => i64::MAX,
    }
}

/// One "this user has read this group message" mark.
#[derive(Debug)]
pub struct ReadMark {
    pub group_id: String,
    pub message_id: String,
    pub user_id: String,
}

/// The user has marked the message read.
pub open spec fn spec_is_marked(
    marks: Seq<ReadMark>,
    group_id: Seq<char>,
    message_id: Seq<char>,
    user_id: Seq<char>,
) -> bool {
    exists|i: int|
        0 <= i < marks.len() && marks[i].group_id@ == group_id && marks[i].message_id@
            == message_id && marks[i].user_id@ == user_id
}

/// The users who marked the message read, in marking order.
pub open spec fn spec_readers_of(
    marks: Seq<ReadMark>,
    group_id: Seq<char>,
    message_id: Seq<char>,
) -> Seq<Seq<char>>
    decreases marks.len(),
{
    if marks.len() == 0 {
        Seq::empty()
    } else {
        let rest = spec_readers_of(marks.drop_last(), group_id, message_id);
        if marks.last().group_id@ == group_id && marks.last().message_id@ == message_id {
            rest.push(marks.last().user_id@)
        } else {
            rest
        }
    }
}

/// Group-message read state, one mark per reader per message: the model of
/// the per-message reader sets the key-value store keeps on the fast path,
/// so that group reads cost no per-member row fan-out in the relational
/// store.
pub struct ReadMarkStore {
    marks: Vec<ReadMark>,
}

impl ReadMarkStore {
    pub closed spec fn marks_view(self) -> Seq<ReadMark> {
        self.marks@
    }

    pub fn new() -> (r: Self)
        ensures
            r.marks_view() == Seq::<ReadMark>::empty(),
    {
        ReadMarkStore { marks: Vec::new() }
    }

    /// The user has marked the message read.
    pub fn is_group_message_read(&self, group_id: &str, message_id: &str, user_id: &str) -> (r:
        bool)
        ensures
            r == spec_is_marked(self.marks_view(), group_id@, message_id@, user_id@),
    {
        let mut i: usize = 0;
        while i < self.marks.len()
            invariant
                i <= self.marks@.len(),
                forall|j: int|
                    0 <= j < i ==> !(self.marks@[j].group_id@ == group_id@
                        && self.marks@[j].message_id@ == message_id@ && self.marks@[j].user_id@
                        == user_id@),
            decreases self.marks@.len() - i,
        {
            let mark = &self.marks[i];
            if str_eq(mark.group_id.as_str(), group_id) && str_eq(
                mark.message_id.as_str(),
                message_id,
            ) && str_eq(mark.user_id.as_str(), user_id) {
                return true;
            }
            i = i + 1;
        }
        false
    }

    /// Marks the message read for the user; marking twice changes nothing.
    pub fn mark_group_message_read(&mut self, group_id: &str, message_id: &str, user_id: &str)
        ensures
            spec_is_marked(old(self).marks_view(), group_id@, message_id@, user_id@) ==> final(self).marks_view() == old(self).marks_view(),
            !spec_is_marked(old(self).marks_view(), group_id@, message_id@, user_id@) ==> {
                &&& final(self).marks_view().len() == old(self).marks_view().len() + 1
                &&& forall|j: int|
                    0 <= j < old(self).marks_view().len() ==> final(self).marks_view()[j] == old(
                        self,
                    ).marks_view()[j]
                &&& spec_readers_of(final(self).marks_view(), group_id@, message_id@)
                    == spec_readers_of(old(self).marks_view(), group_id@, message_id@).push(
                    user_id@,
                )
                &&& forall|g: Seq<char>, m: Seq<char>|
                    !(g == group_id@ && m == message_id@) ==> spec_readers_of(
                        final(self).marks_view(),
                        g,
                        m,
                    ) == spec_readers_of(old(self).marks_view(), g, m)
            },
            spec_is_marked(final(self).marks_view(), group_id@, message_id@, user_id@),
    {
        let ghost pre = self.marks@;
        let already = self.is_group_message_read(group_id, message_id, user_id);
        if !already {
            let mark = ReadMark {
                group_id: String::from_str(group_id),
                message_id: String::from_str(message_id),
                user_id: String::from_str(user_id),
            };
            self.marks.push(mark);
            proof {
                assert(self.marks@.drop_last() =~= pre);
                assert(self.marks@[pre.len() as int].group_id@ == group_id@);
                assert forall|g: Seq<char>, m: Seq<char>|
                    !(g == group_id@ && m == message_id@) implies spec_readers_of(
                    self.marks@,
                    g,
                    m,
                ) == spec_readers_of(pre, g, m) by {
                    assert(spec_readers_of(self.marks@, g, m) == (
                    if self.marks@.last().group_id@ == g && self.marks@.last().message_id@ == m {
                        spec_readers_of(pre, g, m).push(self.marks@.last().user_id@)
                    } else {
                        spec_readers_of(pre, g, m)
                    }));
                }
            }
        }
    }


    /// Marks a batch of messages read for the user in one sweep; each mark
    /// is as idempotent as a single one.
    pub fn mark_group_messages_read(&mut self, group_id: &str, message_ids: &Vec<String>, user_id: &str)
        ensures
            forall|k: int|
                0 <= k < message_ids@.len() ==> spec_is_marked(
                    final(self).marks_view(),
                    group_id@,
                    #[trigger] message_ids@[k]@,
                    user_id@,
                ),
    {
        let mut i: usize = 0;
        while i < message_ids.len()
            invariant
                i <= message_ids@.len(),
                forall|k: int|
                    0 <= k < i ==> spec_is_marked(
                        self.marks_view(),
                        group_id@,
                        #[trigger] message_ids@[k]@,
                        user_id@,
                    ),
            decreases message_ids@.len() - i,
        {
            let ghost pre = self.marks@;
            self.mark_group_message_read(group_id, message_ids[i].as_str(), user_id);
            proof {
                assert forall|k: int|
                    0 <= k < i implies spec_is_marked(
                    self.marks@,
                    group_id@,
                    #[trigger] message_ids@[k]@,
                    user_id@,
                ) by {
                    let j = choose|j: int|
                        0 <= j < pre.len() && pre[j].group_id@ == group_id@ && pre[j].message_id@
                            == message_ids@[k]@ && pre[j].user_id@ == user_id@;
                    assert(self.marks@[j] == pre[j]);
                }
            }
            i = i + 1;
        }
    }

    /// The users who marked the message read, in marking order.
    pub fn get_group_message_read_users(&self, group_id: &str, message_id: &str) -> (r: Vec<
        String,
    >)
        ensures
            r.deep_view() == spec_readers_of(self.marks_view(), group_id@, message_id@),
    {
        let ghost all = self.marks@;
        let mut readers: Vec<String> = Vec::new();
        let mut i: usize = 0;
        proof {
            assert(all.subrange(0, 0) =~= Seq::<ReadMark>::empty());
        }
        while i < self.marks.len()
            invariant
                i <= all.len(),
                all == self.marks@,
                readers.deep_view() == spec_readers_of(
                    all.subrange(0, i as int),
                    group_id@,
                    message_id@,
                ),
            decreases all.len() - i,
        {
            proof {
                assert(all.subrange(0, i as int + 1).drop_last() =~= all.subrange(0, i as int));
                assert(all.subrange(0, i as int + 1).last() == all[i as int]);
            }
            let mark = &self.marks[i];
            if str_eq(mark.group_id.as_str(), group_id) && str_eq(
                mark.message_id.as_str(),
                message_id,
            ) {
                let ghost readers_pre = readers.deep_view();
                readers.push(mark.user_id.clone());
                proof {
                    assert(readers.deep_view() =~= readers_pre.push(all[i as int].user_id@));
                }
            }
            i = i + 1;
        }
        proof {
            assert(all.subrange(0, all.len() as int) =~= all);
        }
        readers
    }

    /// How many users marked the message read.
    pub fn get_group_message_read_count(&self, group_id: &str, message_id: &str) -> (r: usize)
        ensures
            r == spec_readers_of(self.marks_view(), group_id@, message_id@).len(),
    {
        let readers = self.get_group_message_read_users(group_id, message_id);
        proof {
            assert(readers.deep_view().len() == readers@.len());
        }
        readers.len()
    }
}

impl ImGroupMessage {
    /// A field-for-field copy of the record.
    pub fn duplicate(&self) -> (r: ImGroupMessage)
        ensures
            r == *self,
    {
        ImGroupMessage {
            message_id: self.message_id.clone(),
            group_id: self.group_id.clone(),
            from_id: self.from_id.clone(),
            message_body: self.message_body.clone(),
            message_time: self.message_time,
            message_content_type: self.message_content_type,
            extra: clone_option_string(&self.extra),
            del_flag: self.del_flag,
            sequence: self.sequence,
            message_random: clone_option_string(&self.message_random),
            create_time: self.create_time,
            update_time: self.update_time,
            version: self.version,
            reply_to: clone_option_string(&self.reply_to),
        }
    }
}

} // verus!

//! The delivery pipeline: given a composed message and a resolved set of
//! recipients, persist first, decide online or offline per recipient,
//! attempt a push-channel publish, and fall back to the offline retry queue
//! when live delivery cannot be confirmed. The outside work (the durable
//! write, the publish, the queue write) is performed by the caller; the
//! decisions between those steps are the state machine below, so the order
//! of effects is pinned down here whatever the collaborators do.

use vstd::prelude::*;

verus! {

use crate::message::{ImGroupMessage, ImSingleMessage};
use crate::model::{ChatMessage, ChatType, spec_is_ephemeral, is_ephemeral_content};
use crate::presence::SubscriptionService;
use crate::store::{SingleMessageStore, spec_has_single_message};
use crate::offline::OfflineQueue;
use crate::util::{str_eq, mqtt_user_topic, clone_option_string};
use vstd::string::StrSliceExecFns;
use vstd::string::StringExecFns;

/// Why a send request was rejected before any side effect, or why it failed.
#[derive(Clone, Copy, Debug, PartialEq, Eq, Structural)]
pub enum SendError {
    /// A sender or recipient id was empty.
    EmptyParticipant,
    /// The group id was empty.
    EmptyGroup,
    /// The message body was empty.
    EmptyBody,
    /// A single-typed chat has no member besides the sender to receive
    /// the message.
    NoRecipient,
    /// The durable store refused the primary persist: fatal for this send.
    StoreFailure,
}

/// The terminal outcome of one recipient's delivery.
#[derive(Clone, Copy, Debug, PartialEq, Eq, Structural)]
pub enum DeliveryOutcome {
    /// The recipient was online and the publish went through.
    DeliveredLive,
    /// Live delivery could not be confirmed; the message waits in the
    /// offline retry queue.
    QueuedOffline,
    /// Ephemeral message to an offline recipient: recorded durably, neither
    /// pushed nor queued.
    PersistedOnly,
}

/// Where one recipient's delivery stands; each non-terminal phase names the
/// single outside action the driver must perform next.
#[derive(Clone, Copy, Debug, PartialEq, Eq)]
pub enum DeliveryPhase {
    /// Write the message to the durable store.
    AwaitPersist,
    /// Resolve the recipient's presence (hydrating from the durable store
    /// before any offline conclusion).
    AwaitPresence,
    /// Publish to the recipient's topic; the flag records whether the
    /// recipient looked online.
    AwaitPublish { online: bool },
    /// Write the backup copy to the offline retry queue; the flags record
    /// presence and whether the publish went through.
    AwaitQueue { online: bool, publish_ok: bool },
    /// Nothing left to do.
    Finished { result: Result<DeliveryOutcome, SendError> },
}

/// What one outside action reported back.
#[derive(Clone, Copy, Debug, PartialEq, Eq, Structural)]
pub enum DeliveryEvent {
    PersistResult { ok: bool },
    PresenceResult { online: bool },
    PublishResult { ok: bool },
    QueueResult { ok: bool },
}

/// The transition function of the per-recipient pipeline. A failed persist
/// finishes the run at once: nothing downstream is attempted. An ephemeral
/// message to an offline recipient finishes right after the presence check:
/// no publish, no queue. Otherwise a publish is attempted and the offline
/// queue is always written as defense in depth, since an online-looking
/// recipient may not actually receive the push; the queue write's own
/// failure is invisible to the sender (the message is already durable).
/// An event that does not answer the pending action leaves the phase as it
/// stands.
pub open spec fn spec_delivery_next(
    ephemeral: bool,
    phase: DeliveryPhase,
    event: DeliveryEvent,
) -> DeliveryPhase {
    match (phase, event) {
        (DeliveryPhase::AwaitPersist, DeliveryEvent::PersistResult { ok }) => {
            if ok {
                DeliveryPhase::AwaitPresence
            } else {
                DeliveryPhase::Finished { result: Err(SendError::StoreFailure) }
            }
        },
        (DeliveryPhase::AwaitPresence, DeliveryEvent::PresenceResult { online }) => {
            if ephemeral && !online {
                DeliveryPhase::Finished { result: Ok(DeliveryOutcome::PersistedOnly) }
            } else {
                DeliveryPhase::AwaitPublish { online }
            }
        },
        (DeliveryPhase::AwaitPublish { online }, DeliveryEvent::PublishResult { ok }) => {
            DeliveryPhase::AwaitQueue { online, publish_ok: ok }
        },
        (DeliveryPhase::AwaitQueue { online, publish_ok }, DeliveryEvent::QueueResult { .. }) => {
            DeliveryPhase::Finished {
                result: Ok(
                    if online && publish_ok {
                        DeliveryOutcome::DeliveredLive
                    } else {
                        DeliveryOutcome::QueuedOffline
                    },
                ),
            }
        },
        _ => phase,
    }
}

pub fn delivery_next(ephemeral: bool, phase: DeliveryPhase, event: DeliveryEvent) -> (r:
    DeliveryPhase)
    ensures
        r == spec_delivery_next(ephemeral, phase, event),
{
    match (phase, event) {
        (DeliveryPhase::AwaitPersist, DeliveryEvent::PersistResult { ok }) => {
            if ok {
                DeliveryPhase::AwaitPresence
            } else {
                DeliveryPhase::Finished { result: Err(SendError::StoreFailure) }
            }
        },
        (DeliveryPhase::AwaitPresence, DeliveryEvent::PresenceResult { online }) => {
            if ephemeral && !online {
                DeliveryPhase::Finished { result: Ok(DeliveryOutcome::PersistedOnly) }
            } else {
                DeliveryPhase::AwaitPublish { online }
            }
        },
        (DeliveryPhase::AwaitPublish { online }, DeliveryEvent::PublishResult { ok }) => {
            DeliveryPhase::AwaitQueue { online, publish_ok: ok }
        },
        (DeliveryPhase::AwaitQueue { online, publish_ok }, DeliveryEvent::QueueResult { .. }) => {
            DeliveryPhase::Finished {
                result: Ok(
                    if online && publish_ok {
                        DeliveryOutcome::DeliveredLive
                    } else {
                        DeliveryOutcome::QueuedOffline
                    },
                ),
            }
        },
        (p, _) => p,
    }
}

/// The phase reached from `AwaitPersist` after the given events, in order.
pub open spec fn spec_run_delivery(ephemeral: bool, events: Seq<DeliveryEvent>) -> DeliveryPhase
    decreases events.len(),
{
    if events.len() == 0 {
        DeliveryPhase::AwaitPersist
    } else {
        spec_delivery_next(
            ephemeral,
            spec_run_delivery(ephemeral, events.drop_last()),
            events.last(),
        )
    }
}

/// A finished run stays finished, whatever else is reported.
pub proof fn lemma_delivery_finished_is_terminal(
    ephemeral: bool,
    result: Result<DeliveryOutcome, SendError>,
    event: DeliveryEvent,
)
    ensures
        spec_delivery_next(ephemeral, (DeliveryPhase::Finished { result }), event) == (
        DeliveryPhase::Finished { result }),
{
}

/// Delivery persists first: if the durable-store write fails, the run is
/// finished immediately with the store failure, and no later event can ever
/// bring it to the publish or queue phase. No push-channel publish and no
/// offline-queue write are asked for.
pub proof fn lemma_delivery_persists_first(ephemeral: bool, events: Seq<DeliveryEvent>)
    requires
        events.len() >= 1,
        events[0] == (DeliveryEvent::PersistResult { ok: false }),
    ensures
        spec_run_delivery(ephemeral, events) == (DeliveryPhase::Finished {
            result: Err(SendError::StoreFailure),
        }),
    decreases events.len(),
{
    if events.len() == 1 {
        assert(events.drop_last() =~= Seq::<DeliveryEvent>::empty());
    } else {
        lemma_delivery_persists_first(ephemeral, events.drop_last());
    }
}

/// Ephemeral suppression: a message flagged ephemeral whose recipient is
/// offline finishes as persisted-only right after the presence check, and no
/// later event can bring the run to the publish or queue phase: zero push
/// attempts and zero offline-queue entries.
pub proof fn lemma_ephemeral_suppression(events: Seq<DeliveryEvent>)
    requires
        events.len() >= 2,
        events[0] == (DeliveryEvent::PersistResult { ok: true }),
        events[1] == (DeliveryEvent::PresenceResult { online: false }),
    ensures
        spec_run_delivery(true, events) == (DeliveryPhase::Finished {
            result: Ok(DeliveryOutcome::PersistedOnly),
        }),
    decreases events.len(),
{
    if events.len() == 2 {
        assert(events.drop_last().drop_last() =~= Seq::<DeliveryEvent>::empty());
        assert(spec_run_delivery(true, events.drop_last().drop_last())
            == DeliveryPhase::AwaitPersist);
        assert(events.drop_last().last() == events[0]);
        assert(events.last() == events[1]);
        assert(spec_run_delivery(true, events.drop_last()) == DeliveryPhase::AwaitPresence);
    } else {
        assert(events.drop_last()[0] == events[0]);
        assert(events.drop_last()[1] == events[1]);
        lemma_ephemeral_suppression(events.drop_last());
    }
}

/// One group member as the durable membership rows give it, after its id has
/// been resolved to a stable identity: the external `open_id` and the
/// internal numeric id.
#[derive(Clone, Debug)]
pub struct ResolvedMember {
    pub open_id: String,
    pub user_id: i64,
}

/// Some already-planned recipient carries this `open_id`.
pub open spec fn contains_open(planned: Seq<ResolvedMember>, open_id: Seq<char>) -> bool {
    exists|i: int| 0 <= i < planned.len() && planned[i].open_id@ == open_id
}

/// The recipients one group send fans out to: the members in storage order,
/// the sender dropped (matched by either identity, since a member row may
/// name the sender under an alias), and each resolved identity kept only at
/// its first occurrence (storage may hold historic duplicate rows).
pub open spec fn spec_plan_recipients(
    members: Seq<ResolvedMember>,
    sender_open_id: Seq<char>,
    sender_user_id: i64,
) -> Seq<ResolvedMember>
    decreases members.len(),
{
    if members.len() == 0 {
        Seq::empty()
    } else {
        let prior = spec_plan_recipients(members.drop_last(), sender_open_id, sender_user_id);
        let m = members.last();
        if m.open_id@ == sender_open_id || m.user_id == sender_user_id || contains_open(
            prior,
            m.open_id@,
        ) {
            prior
        } else {
            prior.push(m)
        }
    }
}

fn planned_contains_open(planned: &Vec<ResolvedMember>, open_id: &str) -> (r: bool)
    ensures
        r == contains_open(planned@, open_id@),
{
    let mut i: usize = 0;
    while i < planned.len()
        invariant
            i <= planned@.len(),
            forall|j: int| 0 <= j < i ==> planned@[j].open_id@ != open_id@,
        decreases planned@.len() - i,
    {
        if str_eq(planned[i].open_id.as_str(), open_id) {
            return true;
        }
        i = i + 1;
    }
    false
}

/// Deduplicates a group's member list into the set of identities one send
/// reaches: the sender is excluded and each identity appears once.
pub fn plan_group_recipients(
    members: &Vec<ResolvedMember>,
    sender_open_id: &str,
    sender_user_id: i64,
) -> (r: Vec<ResolvedMember>)
    ensures
        r@ == spec_plan_recipients(members@, sender_open_id@, sender_user_id),
{
    let mut planned: Vec<ResolvedMember> = Vec::new();
    let mut i: usize = 0;
    proof {
        assert(members@.subrange(0, 0) =~= Seq::<ResolvedMember>::empty());
    }
    while i < members.len()
        invariant
            i <= members@.len(),
            planned@ == spec_plan_recipients(
                members@.subrange(0, i as int),
                sender_open_id@,
                sender_user_id,
            ),
        decreases members@.len() - i,
    {
        proof {
            assert(members@.subrange(0, i as int + 1).drop_last() =~= members@.subrange(
                0,
                i as int,
            ));
            assert(members@.subrange(0, i as int + 1).last() == members@[i as int]);
        }
        let member = &members[i];
        let is_sender = str_eq(member.open_id.as_str(), sender_open_id) || member.user_id
            == sender_user_id;
        if !is_sender && !planned_contains_open(&planned, member.open_id.as_str()) {
            planned.push(
                ResolvedMember { open_id: member.open_id.clone(), user_id: member.user_id },
            );
            proof {
                assert(planned@.drop_last() =~= planned@.subrange(0, planned@.len() - 1));
                assert(planned@ =~= planned@.drop_last().push(planned@.last()));
                assert(planned@.last().open_id@ == members@[i as int].open_id@);
                assert(planned@.last().user_id == members@[i as int].user_id);
                assert(planned@ =~= spec_plan_recipients(
                    members@.subrange(0, i as int + 1),
                    sender_open_id@,
                    sender_user_id,
                ));
            }
        }
        i = i + 1;
    }
    proof {
        assert(members@.subrange(0, members@.len() as int) =~= members@);
    }
    planned
}

/// Group dedup: the planned recipients never name the same resolved
/// identity twice, so a member listed under duplicate rows gets exactly one
/// delivery attempt.
pub proof fn lemma_plan_no_duplicates(
    members: Seq<ResolvedMember>,
    sender_open_id: Seq<char>,
    sender_user_id: i64,
)
    ensures
        forall|i: int, j: int|
            0 <= i < j < spec_plan_recipients(members, sender_open_id, sender_user_id).len()
                ==> spec_plan_recipients(members, sender_open_id, sender_user_id)[i].open_id@
                != spec_plan_recipients(members, sender_open_id, sender_user_id)[j].open_id@,
    decreases members.len(),
{
    if members.len() > 0 {
        lemma_plan_no_duplicates(members.drop_last(), sender_open_id, sender_user_id);
        let prior = spec_plan_recipients(members.drop_last(), sender_open_id, sender_user_id);
        let whole = spec_plan_recipients(members, sender_open_id, sender_user_id);
        if whole.len() == prior.len() + 1 {
            assert forall|i: int, j: int|
                0 <= i < j < whole.len() implies whole[i].open_id@ != whole[j].open_id@ by {
                if j < whole.len() - 1 {
                    assert(whole[i] == prior[i] && whole[j] == prior[j]);
                } else {
                    assert(whole[i] == prior[i]);
                    assert(!contains_open(prior, members.last().open_id@));
                }
            }
        }
    }
}

/// Group dedup, sender side: the planned recipients never include the
/// sender, under either of its identities.
pub proof fn lemma_plan_excludes_sender(
    members: Seq<ResolvedMember>,
    sender_open_id: Seq<char>,
    sender_user_id: i64,
)
    ensures
        forall|i: int|
            0 <= i < spec_plan_recipients(members, sender_open_id, sender_user_id).len() ==> {
                &&& spec_plan_recipients(members, sender_open_id, sender_user_id)[i].open_id@
                    != sender_open_id
                &&& spec_plan_recipients(members, sender_open_id, sender_user_id)[i].user_id
                    != sender_user_id
            },
    decreases members.len(),
{
    if members.len() > 0 {
        lemma_plan_excludes_sender(members.drop_last(), sender_open_id, sender_user_id);
        let prior = spec_plan_recipients(members.drop_last(), sender_open_id, sender_user_id);
        let whole = spec_plan_recipients(members, sender_open_id, sender_user_id);
        assert forall|i: int|
            0 <= i < whole.len() implies whole[i].open_id@ != sender_open_id && whole[i].user_id
            != sender_user_id by {
            if i < prior.len() {
                assert(whole[i] == prior[i]);
            }
        }
    }
}

/// Group dedup, coverage side: every member identity other than the sender
/// is planned; deduplication drops rows, never people.
pub proof fn lemma_plan_covers_members(
    members: Seq<ResolvedMember>,
    sender_open_id: Seq<char>,
    sender_user_id: i64,
)
    ensures
        forall|i: int|
            0 <= i < members.len() && members[i].open_id@ != sender_open_id && members[i].user_id
                != sender_user_id ==> contains_open(
                spec_plan_recipients(members, sender_open_id, sender_user_id),
                members[i].open_id@,
            ),
    decreases members.len(),
{
    if members.len() > 0 {
        lemma_plan_covers_members(members.drop_last(), sender_open_id, sender_user_id);
        let prior = spec_plan_recipients(members.drop_last(), sender_open_id, sender_user_id);
        let whole = spec_plan_recipients(members, sender_open_id, sender_user_id);
        assert forall|i: int|
            0 <= i < members.len() && members[i].open_id@ != sender_open_id && members[i].user_id
                != sender_user_id implies contains_open(whole, members[i].open_id@) by {
            if i < members.len() - 1 {
                assert(members.drop_last()[i] == members[i]);
                assert(contains_open(prior, members[i].open_id@));
                let k = choose|k: int|
                    0 <= k < prior.len() && prior[k].open_id@ == members[i].open_id@;
                assert(whole[k].open_id@ == members[i].open_id@);
            } else {
                let m = members.last();
                if contains_open(prior, m.open_id@) {
                    let k = choose|k: int| 0 <= k < prior.len() && prior[k].open_id@ == m.open_id@;
                    assert(whole[k].open_id@ == m.open_id@);
                } else {
                    assert(whole[whole.len() - 1].open_id@ == m.open_id@);
                }
            }
        }
    }
}

/// The mandatory lookup-then-hydrate-then-recheck step before any "user is
/// offline" decision: when the in-memory registry knows no session for the
/// user, the recent durable-store subscription records (created within the
/// last day; older ones are never trusted) are merged in, and presence is
/// judged from the registry only after that. The user counts as online
/// exactly when a session was already known or the durable store had a
/// recent record.
pub fn presence_with_hydration(
    presence: &mut SubscriptionService,
    user_id: u64,
    recent_subscription_ids: Vec<String>,
) -> (online: bool)
    requires
        old(presence).wf(),
    ensures
        final(presence).wf(),
        online == (old(presence).subs_of(user_id).len() > 0 || recent_subscription_ids@.len() > 0),
        old(presence).subs_of(user_id).len() > 0 ==> *final(presence) == *old(presence),
{
    let known = registry_knows_user(presence, user_id);
    if known {
        return true;
    }
    let mut i: usize = 0;
    let total = recent_subscription_ids.len();
    let ids = recent_subscription_ids;
    while i < total
        invariant
            presence.wf(),
            i <= total,
            total == ids@.len(),
            old(presence).subs_of(user_id).len() == 0,
            i == 0 ==> *presence == *old(presence),
            i > 0 ==> presence.subs_of(user_id).len() > 0,
        decreases total - i,
    {
        let ghost pre = *presence;
        let sid = ids[i].clone();
        presence.add_subscription_id(sid, user_id);
        proof {
            if !(pre.forward().dom().contains(ids@[i as int]@) && pre.forward()[ids@[i as int]@]
                == user_id) {
                assert(presence.subs_of(user_id).len() == pre.subs_of(user_id).len() + 1);
            } else {
                assert(pre.lists()[user_id].contains(ids@[i as int]@));
                assert(presence.subs_of(user_id).len() > 0);
            }
        }
        i = i + 1;
    }
    registry_knows_user(presence, user_id)
}

/// Whether the registry currently knows a session for the user.
fn registry_knows_user(presence: &SubscriptionService, user_id: u64) -> (r: bool)
    ensures
        r == (presence.subs_of(user_id).len() > 0),
{
    let subs = presence.get_subscription_ids(user_id);
    proof {
        assert(subs.deep_view().len() == subs@.len());
    }
    subs.len() > 0
}

/// A request to deliver one message to one user.
#[derive(Clone, Debug)]
pub struct SendSingleMessageRequest {
    pub from_id: String,
    pub to_id: String,
    pub message_body: String,
    pub message_content_type: i32,
    pub extra: Option<String>,
    pub reply_to: Option<String>,
}

/// A request to deliver one message to a group.
#[derive(Clone, Debug)]
pub struct SendGroupMessageRequest {
    pub group_id: String,
    pub from_id: String,
    pub message_body: String,
    pub message_content_type: i32,
    pub extra: Option<String>,
    pub reply_to: Option<String>,
}

/// The first reason, in checking order, why a single send is rejected
/// before any side effect.
pub open spec fn spec_validate_send_single(req: SendSingleMessageRequest) -> Result<
    (),
    SendError,
> {
    if req.from_id@.len() == 0 || req.to_id@.len() == 0 {
        Err(SendError::EmptyParticipant)
    } else if req.message_body@.len() == 0 {
        Err(SendError::EmptyBody)
    } else {
        Ok(())
    }
}

pub fn validate_send_single(req: &SendSingleMessageRequest) -> (r: Result<(), SendError>)
    ensures
        r == spec_validate_send_single(*req),
{
    if req.from_id.as_str().unicode_len() == 0 || req.to_id.as_str().unicode_len() == 0 {
        Err(SendError::EmptyParticipant)
    } else if req.message_body.as_str().unicode_len() == 0 {
        Err(SendError::EmptyBody)
    } else {
        Ok(())
    }
}

/// The first reason, in checking order, why a group send is rejected
/// before any side effect.
pub open spec fn spec_validate_send_group(req: SendGroupMessageRequest) -> Result<(), SendError> {
    if req.from_id@.len() == 0 {
        Err(SendError::EmptyParticipant)
    } else if req.group_id@.len() == 0 {
        Err(SendError::EmptyGroup)
    } else if req.message_body@.len() == 0 {
        Err(SendError::EmptyBody)
    } else {
        Ok(())
    }
}

pub fn validate_send_group(req: &SendGroupMessageRequest) -> (r: Result<(), SendError>)
    ensures
        r == spec_validate_send_group(*req),
{
    if req.from_id.as_str().unicode_len() == 0 {
        Err(SendError::EmptyParticipant)
    } else if req.group_id.as_str().unicode_len() == 0 {
        Err(SendError::EmptyGroup)
    } else if req.message_body.as_str().unicode_len() == 0 {
        Err(SendError::EmptyBody)
    } else {
        Ok(())
    }
}

/// Everything the first half of a single send decided: the persisted
/// record, the envelope to publish, the topic, and the presence verdict.
#[derive(Debug)]
pub struct PreparedSend {
    pub message: ImSingleMessage,
    pub envelope: ChatMessage,
    pub topic: String,
    pub online: bool,
    pub ephemeral: bool,
    pub suppressed: bool,
}

/// The first half of one single-chat send: reject bad input before any
/// side effect, persist the message first (the source of truth), then
/// judge presence with the mandatory hydrate-and-recheck. What remains —
/// the publish and the offline backup — is decided by
/// `finish_recipient_delivery` once the caller has attempted the publish.
/// `message_id` and `message_random` are the caller's fresh identifiers;
/// the file fields come from the request's decoded attachment metadata.
pub fn prepare_single_send(
    store: &mut SingleMessageStore,
    presence: &mut SubscriptionService,
    req: &SendSingleMessageRequest,
    from_open_id: &str,
    to_open_id: &str,
    to_presence_key: u64,
    recent_subscription_ids: Vec<String>,
    file_url: Option<String>,
    file_name: Option<String>,
    file_type: Option<String>,
    message_id: &str,
    message_random: &str,
    now: i64,
) -> (r: Result<PreparedSend, SendError>)
    requires
        old(presence).wf(),
    ensures
        final(presence).wf(),
        spec_validate_send_single(*req) is Err ==> {
            &&& r is Err
            &&& r->Err_0 == spec_validate_send_single(*req)->Err_0
            &&& *final(store) == *old(store)
            &&& *final(presence) == *old(presence)
        },
        spec_validate_send_single(*req) is Ok ==> (r matches Ok(p) && {
            &&& p.message.message_id@ == message_id@
            &&& p.message.from_id@ == from_open_id@
            &&& p.message.to_id@ == to_open_id@
            &&& p.message.message_body@ == req.message_body@
            &&& p.message.message_time == now
            &&& p.message.message_content_type == req.message_content_type
            &&& p.message.read_status == 0
            &&& p.message.extra == req.extra
            &&& p.message.del_flag == 1
            &&& p.message.sequence == now
            &&& (p.message.message_random matches Some(mr) && mr@ == message_random@)
            &&& p.message.create_time == Some(now)
            &&& p.message.update_time == Some(now)
            &&& p.message.version == Some(1i64)
            &&& p.message.reply_to == req.reply_to
            &&& (p.message.to_type matches Some(tt) && tt@ == "User"@)
            &&& p.message.file_url is None
            &&& p.message.file_name is None
            &&& p.message.file_type is None
            &&& (!spec_has_single_message(old(store).rows_view(), message_id@) ==> final(store).rows_view() == old(store).rows_view().push(p.message))
            &&& (spec_has_single_message(old(store).rows_view(), message_id@) ==> final(store).rows_view() == old(store).rows_view())
            &&& p.online == (old(presence).subs_of(to_presence_key).len() > 0
                || recent_subscription_ids@.len() > 0)
            &&& p.ephemeral == spec_is_ephemeral(req.message_content_type)
            &&& p.suppressed == (p.ephemeral && !p.online)
            &&& p.topic@ == "user/"@ + to_open_id@ + "/inbox"@
            &&& p.envelope.message_id@ == message_id@
            &&& p.envelope.from_user_id@ == from_open_id@
            &&& p.envelope.to_user_id@ == to_open_id@
            &&& p.envelope.message@ == req.message_body@
            &&& p.envelope.timestamp_ms == now
            &&& p.envelope.file_url == file_url
            &&& p.envelope.file_name == file_name
            &&& p.envelope.file_type == file_type
            &&& p.envelope.chat_type == Some(1i32)
        }),
{
    if let Err(reason) = validate_send_single(req) {
        return Err(reason);
    }
    let message = ImSingleMessage {
        message_id: String::from_str(message_id),
        from_id: String::from_str(from_open_id),
        to_id: String::from_str(to_open_id),
        message_body: req.message_body.clone(),
        message_time: now,
        message_content_type: req.message_content_type,
        read_status: 0,
        extra: clone_option_string(&req.extra),
        del_flag: 1,
        sequence: now,
        message_random: Some(String::from_str(message_random)),
        create_time: Some(now),
        update_time: Some(now),
        version: Some(1),
        reply_to: clone_option_string(&req.reply_to),
        to_type: Some(String::from_str("User")),
        file_url: None,
        file_name: None,
        file_type: None,
    };
    let recorded = message.duplicate();
    store.save_single_message(recorded);
    let online = presence_with_hydration(presence, to_presence_key, recent_subscription_ids);
    let ephemeral = is_ephemeral_content(req.message_content_type);
    let envelope = ChatMessage {
        message_id: String::from_str(message_id),
        from_user_id: String::from_str(from_open_id),
        to_user_id: String::from_str(to_open_id),
        message: req.message_body.clone(),
        timestamp_ms: now,
        file_url,
        file_name,
        file_type,
        chat_type: Some(1),
    };
    let topic = mqtt_user_topic(to_open_id);
    Ok(
        PreparedSend {
            message,
            envelope,
            topic,
            online,
            ephemeral,
            suppressed: ephemeral && !online,
        },
    )
}

/// The second half of one recipient's delivery, after the caller has
/// attempted the publish (`publish_ok` is ignored for a suppressed send,
/// where no publish was attempted). A suppressed send touches nothing: the
/// record already rests in the durable store. Otherwise the serialized
/// envelope is always appended to the recipient's offline retry queue as
/// defense in depth, and the outcome is live delivery exactly when the
/// recipient looked online and the publish went through.
pub fn finish_recipient_delivery(
    offline: &mut OfflineQueue,
    recipient_open_id: &str,
    payload: String,
    online: bool,
    suppressed: bool,
    publish_ok: bool,
) -> (outcome: DeliveryOutcome)
    ensures
        suppressed ==> outcome == DeliveryOutcome::PersistedOnly && *final(offline) == *old(
            offline,
        ),
        !suppressed ==> {
            &&& final(offline).pending(recipient_open_id@) == old(offline).pending(
                recipient_open_id@,
            ).push(payload@)
            &&& forall|who: Seq<char>|
                who != recipient_open_id@ ==> final(offline).pending(who) == old(offline).pending(
                    who,
                )
            &&& outcome == (if online && publish_ok {
                DeliveryOutcome::DeliveredLive
            } else {
                DeliveryOutcome::QueuedOffline
            })
        },
{
    if suppressed {
        return DeliveryOutcome::PersistedOnly;
    }
    offline.add_offline_message(recipient_open_id, payload);
    if online && publish_ok {
        DeliveryOutcome::DeliveredLive
    } else {
        DeliveryOutcome::QueuedOffline
    }
}


/// The group message record a valid group send persists, exactly as the
/// pipeline composes it: the normalized group chat id, the sender's stable
/// identity, and the caller-supplied idempotency key.
pub fn build_group_message(
    req: &SendGroupMessageRequest,
    group_chat_id: &str,
    from_open_id: &str,
    message_id: &str,
    message_random: &str,
    now: i64,
) -> (r: ImGroupMessage)
    ensures
        r.message_id@ == message_id@,
        r.group_id@ == group_chat_id@,
        r.from_id@ == from_open_id@,
        r.message_body@ == req.message_body@,
        r.message_time == now,
        r.message_content_type == req.message_content_type,
        r.extra == req.extra,
        r.del_flag == 1,
        r.sequence == Some(now),
        (r.message_random matches Some(mr) && mr@ == message_random@),
        r.create_time == now,
        r.update_time == Some(now),
        r.version == Some(1i64),
        r.reply_to == req.reply_to,
{
    ImGroupMessage {
        message_id: String::from_str(message_id),
        group_id: String::from_str(group_chat_id),
        from_id: String::from_str(from_open_id),
        message_body: req.message_body.clone(),
        message_time: now,
        message_content_type: req.message_content_type,
        extra: clone_option_string(&req.extra),
        del_flag: 1,
        sequence: Some(now),
        message_random: Some(String::from_str(message_random)),
        create_time: now,
        update_time: Some(now),
        version: Some(1),
        reply_to: clone_option_string(&req.reply_to),
    }
}


/// The driver and the machine agree. A leg that was not suppressed runs
/// persist, presence, publish and queue backup in that order, and the
/// machine's terminal verdict for those events is exactly the outcome
/// `finish_recipient_delivery` reports; a suppressed leg is the machine's
/// early persisted-only finish.
pub proof fn lemma_driver_matches_machine(ephemeral: bool, online: bool, publish_ok: bool)
    ensures
        !(ephemeral && !online) ==> spec_run_delivery(
            ephemeral,
            seq![
                DeliveryEvent::PersistResult { ok: true },
                DeliveryEvent::PresenceResult { online },
                DeliveryEvent::PublishResult { ok: publish_ok },
                DeliveryEvent::QueueResult { ok: true },
            ],
        ) == (DeliveryPhase::Finished {
            result: Ok(
                if online && publish_ok {
                    DeliveryOutcome::DeliveredLive
                } else {
                    DeliveryOutcome::QueuedOffline
                },
            ),
        }),
        ephemeral && !online ==> spec_run_delivery(
            ephemeral,
            seq![
                DeliveryEvent::PersistResult { ok: true },
                DeliveryEvent::PresenceResult { online },
            ],
        ) == (DeliveryPhase::Finished { result: Ok(DeliveryOutcome::PersistedOnly) }),
{
    let e0 = DeliveryEvent::PersistResult { ok: true };
    let e1 = DeliveryEvent::PresenceResult { online };
    let e2 = DeliveryEvent::PublishResult { ok: publish_ok };
    let e3 = DeliveryEvent::QueueResult { ok: true };
    let events = seq![e0, e1, e2, e3];
    let one = events.subrange(0, 1);
    let two = events.subrange(0, 2);
    assert(one.drop_last() =~= Seq::<DeliveryEvent>::empty());
    assert(spec_run_delivery(ephemeral, one.drop_last()) == DeliveryPhase::AwaitPersist);
    assert(one.last() == e0);
    assert(spec_run_delivery(ephemeral, one) == DeliveryPhase::AwaitPresence);
    assert(two.drop_last() =~= one);
    assert(two.last() == e1);
    if ephemeral && !online {
        assert(spec_run_delivery(ephemeral, two) == (DeliveryPhase::Finished {
            result: Ok(DeliveryOutcome::PersistedOnly),
        }));
        assert(seq![e0, e1] =~= two);
    } else {
        let three = events.subrange(0, 3);
        assert(spec_run_delivery(ephemeral, two) == (DeliveryPhase::AwaitPublish { online }));
        assert(three.drop_last() =~= two);
        assert(three.last() == e2);
        assert(spec_run_delivery(ephemeral, three) == (DeliveryPhase::AwaitQueue {
            online,
            publish_ok,
        }));
        assert(events.drop_last() =~= three);
        assert(events.last() == e3);
    }
}


/// `ids` already holds this user.
pub open spec fn contains_user(ids: Seq<u64>, user_id: u64) -> bool {
    exists|i: int| 0 <= i < ids.len() && ids[i] == user_id
}

/// The distinct recipients of a generic send, first occurrence kept, the
/// sender dropped: the same consolidation the group planner applies, for
/// targets already resolved to numeric identities.
pub open spec fn spec_dedup_recipients(ids: Seq<u64>, sender: u64) -> Seq<u64>
    decreases ids.len(),
{
    if ids.len() == 0 {
        Seq::empty()
    } else {
        let prior = spec_dedup_recipients(ids.drop_last(), sender);
        let id = ids.last();
        if id == sender || contains_user(prior, id) {
            prior
        } else {
            prior.push(id)
        }
    }
}

fn deduped_contains(ids: &Vec<u64>, user_id: u64) -> (r: bool)
    ensures
        r == contains_user(ids@, user_id),
{
    let mut i: usize = 0;
    while i < ids.len()
        invariant
            i <= ids@.len(),
            forall|j: int| 0 <= j < i ==> ids@[j] != user_id,
        decreases ids@.len() - i,
    {
        if ids[i] == user_id {
            return true;
        }
        i = i + 1;
    }
    false
}

/// Consolidates resolved recipient ids: each identity once, never the
/// sender.
pub fn dedup_recipient_ids(ids: &Vec<u64>, sender: u64) -> (r: Vec<u64>)
    ensures
        r@ == spec_dedup_recipients(ids@, sender),
{
    let mut deduped: Vec<u64> = Vec::new();
    let mut i: usize = 0;
    proof {
        assert(ids@.subrange(0, 0) =~= Seq::<u64>::empty());
    }
    while i < ids.len()
        invariant
            i <= ids@.len(),
            deduped@ == spec_dedup_recipients(ids@.subrange(0, i as int), sender),
        decreases ids@.len() - i,
    {
        proof {
            assert(ids@.subrange(0, i as int + 1).drop_last() =~= ids@.subrange(0, i as int));
            assert(ids@.subrange(0, i as int + 1).last() == ids@[i as int]);
        }
        let id = ids[i];
        if id != sender && !deduped_contains(&deduped, id) {
            deduped.push(id);
        }
        i = i + 1;
    }
    proof {
        assert(ids@.subrange(0, ids@.len() as int) =~= ids@);
    }
    deduped
}


/// How one group send is carried out once the conversation's persisted
/// type is known. The stored `chat_type` decides, never the member count:
/// a chat that began as a group stays one even if members left, and a
/// pair chat stays a pair.
#[derive(Debug)]
pub enum GroupSendPlan {
    /// The chat is really a pair: the record goes to the single-chat table
    /// addressed to the sole other member, with one envelope tagged as a
    /// single chat.
    Single { message: ImSingleMessage, envelope: ChatMessage },
    /// A true group: the record goes to the group table under the group
    /// chat id, and every planned member gets an envelope addressed to the
    /// group chat id, tagged as a group chat.
    Group { message: ImGroupMessage, envelopes: Vec<ChatMessage> },
}

/// Lays out one group send according to the conversation's persisted type.
/// A group-typed chat always yields a plan: the group record plus one
/// group-tagged envelope per planned member. A single-typed chat yields
/// the pair record and envelope addressed to the first planned member, and
/// is refused when deduplication left no one but the sender.
pub fn plan_group_send(
    req: &SendGroupMessageRequest,
    chat_type: ChatType,
    group_chat_id: &str,
    from_open_id: &str,
    planned: &Vec<ResolvedMember>,
    file_url: Option<String>,
    file_name: Option<String>,
    file_type: Option<String>,
    message_id: &str,
    message_random: &str,
    now: i64,
) -> (r: Result<GroupSendPlan, SendError>)
    ensures
        chat_type == ChatType::Group ==> (r matches Ok(p) && (p matches GroupSendPlan::Group {
            message,
            envelopes,
        } && {
            &&& message.message_id@ == message_id@
            &&& message.group_id@ == group_chat_id@
            &&& message.from_id@ == from_open_id@
            &&& message.message_body@ == req.message_body@
            &&& message.message_time == now
            &&& message.message_content_type == req.message_content_type
            &&& message.extra == req.extra
            &&& message.del_flag == 1
            &&& message.sequence == Some(now)
            &&& (message.message_random matches Some(mr) && mr@ == message_random@)
            &&& message.create_time == now
            &&& message.version == Some(1i64)
            &&& message.reply_to == req.reply_to
            &&& envelopes@.len() == planned@.len()
            &&& forall|i: int|
                0 <= i < envelopes@.len() ==> {
                    &&& (#[trigger] envelopes@[i]).message_id@ == message_id@
                    &&& envelopes@[i].from_user_id@ == from_open_id@
                    &&& envelopes@[i].to_user_id@ == group_chat_id@
                    &&& envelopes@[i].message@ == req.message_body@
                    &&& envelopes@[i].timestamp_ms == now
                    &&& envelopes@[i].file_url == file_url
                    &&& envelopes@[i].file_name == file_name
                    &&& envelopes@[i].file_type == file_type
                    &&& envelopes@[i].chat_type == Some(2i32)
                }
        })),
        chat_type == ChatType::Single && planned@.len() > 0 ==> (r matches Ok(p) && (p matches
        GroupSendPlan::Single { message, envelope } && {
            &&& message.message_id@ == message_id@
            &&& message.from_id@ == from_open_id@
            &&& message.to_id@ == planned@[0].open_id@
            &&& message.message_body@ == req.message_body@
            &&& message.message_time == now
            &&& message.message_content_type == req.message_content_type
            &&& message.read_status == 0
            &&& message.extra == req.extra
            &&& message.del_flag == 1
            &&& message.sequence == now
            &&& (message.message_random matches Some(mr) && mr@ == message_random@)
            &&& message.create_time == Some(now)
            &&& message.update_time == Some(now)
            &&& message.version == Some(1i64)
            &&& message.reply_to == req.reply_to
            &&& (message.to_type matches Some(tt) && tt@ == "User"@)
            &&& message.file_url is None
            &&& message.file_name is None
            &&& message.file_type is None
            &&& envelope.message_id@ == message_id@
            &&& envelope.from_user_id@ == from_open_id@
            &&& envelope.to_user_id@ == planned@[0].open_id@
            &&& envelope.message@ == req.message_body@
            &&& envelope.timestamp_ms == now
            &&& envelope.file_url == file_url
            &&& envelope.file_name == file_name
            &&& envelope.file_type == file_type
            &&& envelope.chat_type == Some(1i32)
        })),
        chat_type == ChatType::Single && planned@.len() == 0 ==> r == Err::<
            GroupSendPlan,
            SendError,
        >(SendError::NoRecipient),
{
    match chat_type {
        ChatType::Group => {
            let message = build_group_message(
                req,
                group_chat_id,
                from_open_id,
                message_id,
                message_random,
                now,
            );
            let mut envelopes: Vec<ChatMessage> = Vec::new();
            let mut i: usize = 0;
            while i < planned.len()
                invariant
                    i <= planned@.len(),
                    envelopes@.len() == i,
                    forall|k: int|
                        0 <= k < i ==> {
                            &&& (#[trigger] envelopes@[k]).message_id@ == message_id@
                            &&& envelopes@[k].from_user_id@ == from_open_id@
                            &&& envelopes@[k].to_user_id@ == group_chat_id@
                            &&& envelopes@[k].message@ == req.message_body@
                            &&& envelopes@[k].timestamp_ms == now
                            &&& envelopes@[k].file_url == file_url
                            &&& envelopes@[k].file_name == file_name
                            &&& envelopes@[k].file_type == file_type
                            &&& envelopes@[k].chat_type == Some(2i32)
                        },
                decreases planned@.len() - i,
            {
                envelopes.push(
                    ChatMessage {
                        message_id: String::from_str(message_id),
                        from_user_id: String::from_str(from_open_id),
                        to_user_id: String::from_str(group_chat_id),
                        message: req.message_body.clone(),
                        timestamp_ms: now,
                        file_url: clone_option_string(&file_url),
                        file_name: clone_option_string(&file_name),
                        file_type: clone_option_string(&file_type),
                        chat_type: Some(2),
                    },
                );
                i = i + 1;
            }
            Ok(GroupSendPlan::Group { message, envelopes })
        },
        ChatType::Single => {
            if planned.len() == 0 {
                return Err(SendError::NoRecipient);
            }
            let recipient = &planned[0];
            let message = ImSingleMessage {
                message_id: String::from_str(message_id),
                from_id: String::from_str(from_open_id),
                to_id: recipient.open_id.clone(),
                message_body: req.message_body.clone(),
                message_time: now,
                message_content_type: req.message_content_type,
                read_status: 0,
                extra: clone_option_string(&req.extra),
                del_flag: 1,
                sequence: now,
                message_random: Some(String::from_str(message_random)),
                create_time: Some(now),
                update_time: Some(now),
                version: Some(1),
                reply_to: clone_option_string(&req.reply_to),
                to_type: Some(String::from_str("User")),
                file_url: None,
                file_name: None,
                file_type: None,
            };
            let envelope = ChatMessage {
                message_id: String::from_str(message_id),
                from_user_id: String::from_str(from_open_id),
                to_user_id: recipient.open_id.clone(),
                message: req.message_body.clone(),
                timestamp_ms: now,
                file_url,
                file_name,
                file_type,
                chat_type: Some(1),
            };
            Ok(GroupSendPlan::Single { message, envelope })
        },
    }
}

} // verus!

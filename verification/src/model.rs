//! The data the core works on: chat classification, message records and
//! their input validation, the push envelope, user records, and the
//! canonical chat-id convention that encodes a conversation's type.

use vstd::prelude::*;

verus! {

use vstd::string::StrSliceExecFns;
use vstd::string::StringExecFns;
use crate::util::{spec_has_prefix, spec_str_lt, str_eq, str_has_prefix, str_lt, lemma_str_lt_total};

/// Content type tag for plain text messages.
pub const CONTENT_TYPE_TEXT: i32 = 1;

/// Content type tag for call invites: the one ephemeral, realtime-only
/// category. An expired invite has no value, so it is never queued for an
/// offline recipient.
pub const CONTENT_TYPE_CALL_INVITE: i32 = 4;

pub open spec fn spec_is_ephemeral(content_type: i32) -> bool {
    content_type == CONTENT_TYPE_CALL_INVITE
}

/// Whether messages of this content type are worthless once stale.
pub fn is_ephemeral_content(content_type: i32) -> (r: bool)
    ensures
        r == spec_is_ephemeral(content_type),
{
    content_type == CONTENT_TYPE_CALL_INVITE
}

/// Single chat or group chat. Stored as 1 respectively 2 in the durable
/// store, and mutually exclusive: every owner's row of one `chat_id` must
/// agree on it.
#[derive(Clone, Copy, Debug, PartialEq, Eq, Structural)]
pub enum ChatType {
    Single,
    Group,
}

impl ChatType {
    pub open spec fn spec_code(self) -> i32 {
        match self {
            ChatType::Single => 1,
            ChatType::Group => 2,
        }
    }

    pub fn code(self) -> (r: i32)
        ensures
            r == self.spec_code(),
    {
        match self {
            ChatType::Single => 1,
            ChatType::Group => 2,
        }
    }

    /// The stored integer tag, accepted exactly for the two known codes.
    pub fn from_code(code: i32) -> (r: Option<ChatType>)
        ensures
            code == 1 ==> r == Some(ChatType::Single),
            code == 2 ==> r == Some(ChatType::Group),
            code != 1 && code != 2 ==> r is None,
    {
        if code == 1 {
            Some(ChatType::Single)
        } else if code == 2 {
            Some(ChatType::Group)
        } else {
            None
        }
    }
}

/// The canonical id of a single chat between `a` and `b`: the two ids in
/// lexicographic order, so both parties derive the same conversation key.
pub open spec fn spec_single_chat_id(a: Seq<char>, b: Seq<char>) -> Seq<char> {
    if spec_str_lt(b, a) {
        "single_"@ + b + "_"@ + a
    } else {
        "single_"@ + a + "_"@ + b
    }
}

pub fn make_single_chat_id(a: &str, b: &str) -> (r: String)
    ensures
        r@ == spec_single_chat_id(a@, b@),
{
    let (lo, hi) = if str_lt(b, a) {
        (b, a)
    } else {
        (a, b)
    };
    let mut id = String::from_str("single_");
    id.append(lo);
    id.append("_");
    id.append(hi);
    id
}

/// Both participants compute the same single-chat id, whichever way round
/// they name the pair.
pub proof fn lemma_single_chat_id_symmetric(a: Seq<char>, b: Seq<char>)
    ensures
        spec_single_chat_id(a, b) == spec_single_chat_id(b, a),
{
    lemma_str_lt_total(a, b);
    lemma_str_lt_total(b, a);
}

/// The canonical id of a group chat: the group id under the `group_` prefix,
/// added only when not already present.
pub open spec fn spec_group_chat_id(group_id: Seq<char>) -> Seq<char> {
    if spec_has_prefix(group_id, "group_"@) {
        group_id
    } else {
        "group_"@ + group_id
    }
}

pub fn make_group_chat_id(group_id: &str) -> (r: String)
    ensures
        r@ == spec_group_chat_id(group_id@),
{
    if str_has_prefix(group_id, "group_") {
        String::from_str(group_id)
    } else {
        let mut id = String::from_str("group_");
        id.append(group_id);
        id
    }
}

/// The chat type a chat id encodes by convention, if it encodes one.
pub open spec fn spec_encoded_chat_type(chat_id: Seq<char>) -> Option<ChatType> {
    if spec_has_prefix(chat_id, "single_"@) {
        Some(ChatType::Single)
    } else if spec_has_prefix(chat_id, "group_"@) {
        Some(ChatType::Group)
    } else {
        None
    }
}

pub fn encoded_chat_type(chat_id: &str) -> (r: Option<ChatType>)
    ensures
        r == spec_encoded_chat_type(chat_id@),
{
    if str_has_prefix(chat_id, "single_") {
        Some(ChatType::Single)
    } else if str_has_prefix(chat_id, "group_") {
        Some(ChatType::Group)
    } else {
        None
    }
}

/// The serialized envelope published on the push channel, one per recipient.
#[derive(Clone, Debug)]
pub struct ChatMessage {
    pub message_id: String,
    pub from_user_id: String,
    pub to_user_id: String,
    pub message: String,
    pub timestamp_ms: i64,
    pub file_url: Option<String>,
    pub file_name: Option<String>,
    pub file_type: Option<String>,
    /// 1 for a single chat, 2 for a group chat.
    pub chat_type: Option<i32>,
}

/// Where a send is aimed: one user or one group.
#[derive(Clone, Debug)]
pub enum Target {
    User(String),
    Group(String),
}

/// A caller's request to deliver one message to a target.
#[derive(Clone, Debug)]
pub struct SendRequest {
    pub from_user_id: String,
    pub target: Target,
    pub message: String,
    pub file_url: Option<String>,
    pub file_name: Option<String>,
    pub file_type: Option<String>,
}

/// An account row; `open_id` is the stable external identity that messages
/// and conversations are keyed by.
#[derive(Clone, Debug)]
pub struct User {
    pub id: i64,
    pub open_id: String,
    pub name: String,
    pub email: String,
    pub password_hash: Option<String>,
    pub file_name: Option<String>,
    pub abstract_field: Option<String>,
    pub phone: Option<String>,
    pub status: Option<i32>,
    pub gender: Option<i32>,
}

impl User {
    pub fn new(id: i64, open_id: String, name: String, email: String, password_hash: Option<
        String,
    >) -> (r: Self)
        ensures
            r.id == id,
            r.open_id == open_id,
            r.name == name,
            r.email == email,
            r.password_hash == password_hash,
            r.file_name is None,
            r.abstract_field is None,
            r.phone is None,
            r.status is None,
            r.gender is None,
    {
        User {
            id,
            open_id,
            name,
            email,
            password_hash,
            file_name: None,
            abstract_field: None,
            phone: None,
            status: None,
            gender: None,
        }
    }
}

/// A user as shown to other users: everything but the password hash.
#[derive(Clone, Debug)]
pub struct SafeUser {
    pub id: i64,
    pub open_id: String,
    pub name: String,
    pub email: String,
    pub file_name: Option<String>,
    pub abstract_field: Option<String>,
    pub phone: Option<String>,
    pub status: Option<i32>,
    pub gender: Option<i32>,
}

impl From<User> for SafeUser {
    fn from(val: User) -> (r: SafeUser) {
        SafeUser {
            id: val.id,
            open_id: val.open_id,
            name: val.name,
            email: val.email,
            file_name: val.file_name,
            abstract_field: val.abstract_field,
            phone: val.phone,
            status: val.status,
            gender: val.gender,
        }
    }
}

impl vstd::std_specs::convert::FromSpecImpl<User> for SafeUser {
    open spec fn obeys_from_spec() -> bool {
        true
    }

    open spec fn from_spec(val: User) -> SafeUser {
        SafeUser {
            id: val.id,
            open_id: val.open_id,
            name: val.name,
            email: val.email,
            file_name: val.file_name,
            abstract_field: val.abstract_field,
            phone: val.phone,
            status: val.status,
            gender: val.gender,
        }
    }
}

/// One group's member list, as the in-process directory holds it.
#[derive(Debug)]
pub struct GroupEntry {
    pub group_id: String,
    pub members: Vec<String>,
}

/// The member ids recorded for `group_id`, or empty when none are.
pub open spec fn spec_members_of(entries: Seq<GroupEntry>, group_id: Seq<char>) -> Seq<Seq<char>>
    decreases entries.len(),
{
    if entries.len() == 0 {
        Seq::empty()
    } else if entries[0].group_id@ == group_id {
        entries[0].members.deep_view()
    } else {
        spec_members_of(entries.skip(1), group_id)
    }
}

/// The in-process directory of group memberships that the generic send
/// path resolves targets against: one component handed to its callers,
/// rather than a process-wide table.
pub struct GroupDirectory {
    groups: Vec<GroupEntry>,
}

impl GroupDirectory {
    pub closed spec fn entries_view(self) -> Seq<GroupEntry> {
        self.groups@
    }

    pub fn new() -> (r: Self)
        ensures
            r.entries_view() == Seq::<GroupEntry>::empty(),
    {
        GroupDirectory { groups: Vec::new() }
    }

    /// The group's member ids, or empty when the group is unknown.
    pub fn get_group_members(&self, group_id: &str) -> (r: Vec<String>)
        ensures
            r.deep_view() == spec_members_of(self.entries_view(), group_id@),
    {
        let ghost all = self.groups@;
        let mut i: usize = 0;
        proof {
            assert(all.skip(0) =~= all);
        }
        while i < self.groups.len()
            invariant
                i <= all.len(),
                all == self.groups@,
                spec_members_of(all, group_id@) == spec_members_of(all.skip(i as int), group_id@),
            decreases all.len() - i,
        {
            proof {
                assert(all.skip(i as int)[0] == all[i as int]);
                assert(all.skip(i as int).skip(1) =~= all.skip(i as int + 1));
            }
            if str_eq(self.groups[i].group_id.as_str(), group_id) {
                let entry = &self.groups[i];
                let mut copied: Vec<String> = Vec::new();
                let mut k: usize = 0;
                while k < entry.members.len()
                    invariant
                        k <= entry.members@.len(),
                        copied.deep_view() =~= entry.members.deep_view().subrange(0, k as int),
                    decreases entry.members@.len() - k,
                {
                    let ghost copied_pre = copied.deep_view();
                    copied.push(entry.members[k].clone());
                    proof {
                        assert(copied.deep_view() =~= copied_pre.push(
                            entry.members.deep_view()[k as int],
                        ));
                        assert(entry.members.deep_view().subrange(0, k as int + 1)
                            =~= entry.members.deep_view().subrange(0, k as int).push(
                            entry.members.deep_view()[k as int],
                        ));
                    }
                    k = k + 1;
                }
                proof {
                    assert(entry.members.deep_view().subrange(
                        0,
                        entry.members.deep_view().len() as int,
                    ) =~= entry.members.deep_view());
                }
                return copied;
            }
            i = i + 1;
        }
        proof {
            assert(all.skip(all.len() as int) =~= Seq::<GroupEntry>::empty());
        }
        let empty: Vec<String> = Vec::new();
        proof {
            assert(empty.deep_view() =~= Seq::<Seq<char>>::empty());
        }
        empty
    }

    /// Records the group's member list, replacing any previous one; every
    /// other group's list is untouched.
    pub fn set_group_members(&mut self, group_id: &str, members: Vec<String>)
        ensures
            spec_members_of(final(self).entries_view(), group_id@) == members.deep_view(),
            forall|g: Seq<char>|
                g != group_id@ ==> spec_members_of(final(self).entries_view(), g)
                    == spec_members_of(old(self).entries_view(), g),
    {
        let ghost pre = self.groups@;
        let mut i: usize = 0;
        proof {
            assert(pre.skip(0) =~= pre);
        }
        while i < self.groups.len()
            invariant
                i <= pre.len(),
                pre == self.groups@,
                pre == old(self).groups@,
                forall|j: int| 0 <= j < i ==> pre[j].group_id@ != group_id@,
            decreases pre.len() - i,
        {
            if str_eq(self.groups[i].group_id.as_str(), group_id) {
                proof {
                    assert(pre[i as int].group_id@ == group_id@);
                }
                let replacement = GroupEntry { group_id: String::from_str(group_id), members };
                self.groups[i] = replacement;
                proof {
                    assert(self.groups@ == pre.update(i as int, self.groups@[i as int]));
                    assert(self.groups@[i as int].group_id@ == group_id@);
                    lemma_members_after_update(pre, i as int, self.groups@, group_id@);
                    assert(spec_members_of(self.groups@, group_id@)
                        == self.groups@[i as int].members.deep_view());
                }
                return ;
            }
            i = i + 1;
        }
        let appended = GroupEntry { group_id: String::from_str(group_id), members };
        self.groups.push(appended);
        proof {
            lemma_members_after_append(pre, self.groups@, group_id@);
        }
    }
}

/// After replacing the first entry that carries a group id, lookups for
/// that id see the new list and every other id is unaffected.
proof fn lemma_members_after_update(
    pre: Seq<GroupEntry>,
    index: int,
    post: Seq<GroupEntry>,
    group_id: Seq<char>,
)
    requires
        0 <= index < pre.len(),
        pre[index].group_id@ == group_id,
        post == pre.update(index, post[index]),
        post.len() == pre.len(),
        post[index].group_id@ == group_id,
        forall|j: int| 0 <= j < index ==> pre[j].group_id@ != group_id,
    ensures
        spec_members_of(post, group_id) == post[index].members.deep_view(),
        forall|g: Seq<char>|
            g != group_id ==> spec_members_of(post, g) == spec_members_of(pre, g),
    decreases index,
{
    if index == 0 {
        assert forall|g: Seq<char>| g != group_id implies spec_members_of(post, g)
            == spec_members_of(pre, g) by {
            assert(post.skip(1) =~= pre.skip(1));
        }
    } else {
        assert(post[0] == pre[0]);
        assert(pre.skip(1)[index - 1] == pre[index]);
        assert(post.skip(1)[index - 1] == post[index]);
        assert(post.skip(1) =~= pre.skip(1).update(index - 1, post.skip(1)[index - 1]));
        assert(forall|j: int|
            0 <= j < index - 1 ==> pre.skip(1)[j] == pre[j + 1] && #[trigger] pre.skip(
                1,
            )[j].group_id@ != group_id);
        lemma_members_after_update(pre.skip(1), index - 1, post.skip(1), group_id);
        assert(pre[0].group_id@ != group_id);
        assert(spec_members_of(post, group_id) == spec_members_of(post.skip(1), group_id));
        assert forall|g: Seq<char>| g != group_id implies spec_members_of(post, g)
            == spec_members_of(pre, g) by {
            if pre[0].group_id@ != g {
                assert(spec_members_of(post, g) == spec_members_of(post.skip(1), g));
                assert(spec_members_of(pre, g) == spec_members_of(pre.skip(1), g));
            }
        }
    }
}

/// After appending an entry for a group id no entry carried, lookups for
/// that id see the new list and every other id is unaffected.
proof fn lemma_members_after_append(pre: Seq<GroupEntry>, post: Seq<GroupEntry>, group_id: Seq<
    char,
>)
    requires
        post == pre.push(post.last()),
        post.len() == pre.len() + 1,
        post.last().group_id@ == group_id,
        forall|j: int| 0 <= j < pre.len() ==> pre[j].group_id@ != group_id,
    ensures
        spec_members_of(post, group_id) == post.last().members.deep_view(),
        forall|g: Seq<char>|
            g != group_id ==> spec_members_of(post, g) == spec_members_of(pre, g),
    decreases pre.len(),
{
    if pre.len() == 0 {
        assert(post[0] == post.last());
        assert forall|g: Seq<char>| g != group_id implies spec_members_of(post, g)
            == spec_members_of(pre, g) by {
            assert(post.skip(1) =~= Seq::<GroupEntry>::empty());
            assert(post[0].group_id@ == group_id);
            assert(spec_members_of(post, g) == spec_members_of(post.skip(1), g));
            assert(post.skip(1).len() == 0);
            assert(spec_members_of(post.skip(1), g) == Seq::<Seq<char>>::empty());
            assert(spec_members_of(pre, g) == Seq::<Seq<char>>::empty());
        }
    } else {
        assert(post[0] == pre[0]);
        assert(post.skip(1).last() == post.last());
        assert(post.skip(1) =~= pre.skip(1).push(post.skip(1).last()));
        assert(forall|j: int|
            0 <= j < pre.len() - 1 ==> pre.skip(1)[j] == pre[j + 1] && #[trigger] pre.skip(
                1,
            )[j].group_id@ != group_id);
        lemma_members_after_append(pre.skip(1), post.skip(1), group_id);
        assert(pre[0].group_id@ != group_id);
        assert(spec_members_of(post, group_id) == spec_members_of(post.skip(1), group_id));
        assert forall|g: Seq<char>| g != group_id implies spec_members_of(post, g)
            == spec_members_of(pre, g) by {
            if pre[0].group_id@ != g {
                assert(spec_members_of(post, g) == spec_members_of(post.skip(1), g));
                assert(spec_members_of(pre, g) == spec_members_of(pre.skip(1), g));
            }
        }
    }
}

} // verus!

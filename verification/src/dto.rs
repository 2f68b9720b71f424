//! Request and response shapes exchanged with the HTTP layer, and the
//! account records of the messaging identity store. Serialization lives
//! with the binary; the shapes and the little logic they carry live here.

use vstd::prelude::*;

verus! {

use vstd::string::StringExecFns;
use crate::model::SafeUser;
use crate::util::now_timestamp_seconds;

#[derive(Debug)]
pub struct CreateUserReq {
    pub name: String,
    pub email: String,
    pub password: String,
    pub phone: Option<String>,
}

#[derive(Debug)]
pub struct CreateImUserReq {
    pub user_id: String,
    pub user_name: String,
    pub password: String,
    pub mobile: Option<String>,
}

#[derive(Debug)]
pub struct UserListQuery {
    pub username: Option<String>,
    pub current_page: i64,
    pub page_size: i64,
}

#[derive(Debug)]
pub struct UserListResp {
    pub users: Vec<SafeUser>,
    pub total: i64,
    pub current_page: i64,
    pub page_size: i64,
}

#[derive(Debug)]
pub struct UpdateUserReq {
    pub name: Option<String>,
    pub file_name: Option<String>,
    pub abstract_field: Option<String>,
    pub phone: Option<String>,
    pub gender: Option<i32>,
}

#[derive(Debug)]
pub struct LoginReq {
    pub username: String,
    pub password: String,
}

#[derive(Debug)]
pub struct LoginResp {
    pub token: String,
}

#[derive(Clone, Copy, Debug, PartialEq, Eq, Structural)]
pub struct HandleFriendshipRequests {
    pub approve_status: i32,
}

#[derive(Clone, Copy, Debug, PartialEq, Eq, Structural, Default)]
pub struct GetFriendshipRequests {
    pub approve_status: i32,
}

#[derive(Debug)]
pub struct UpdateRemarkReq {
    pub remark: Option<String>,
}

#[derive(Debug)]
pub struct SimpleFriendshipResp {
    pub to_id: String,
    pub owner_id: String,
}

#[derive(Debug)]
pub struct AddFriendRequest {
    pub to_id: String,
    pub remark: Option<String>,
    pub add_source: Option<String>,
    pub message: Option<String>,
}

/// What the subscription lookup endpoint answers: the internal id, the
/// stable external identity, and the handle asked about.
#[derive(Debug)]
pub struct SubscriptionInfoResp {
    pub user_id: i64,
    pub open_id: String,
    pub subscription_id: String,
}

/// One reader's read state of one group message, as reported to clients.
#[derive(Debug)]
pub struct ImGroupMessageStatus {
    pub group_id: String,
    pub message_id: String,
    pub to_id: String,
    pub read_status: Option<i32>,
    pub create_time: Option<i64>,
    pub update_time: Option<i64>,
    pub version: Option<i64>,
}

/// An account row of the messaging identity store.
#[derive(Debug)]
pub struct ImUser {
    pub user_id: String,
    pub user_name: Option<String>,
    pub password: Option<String>,
    pub mobile: Option<String>,
    pub create_time: Option<i64>,
    pub update_time: Option<i64>,
    pub version: Option<i64>,
    pub del_flag: Option<i32>,
}

/// An account row as shown to other users: everything but the password.
#[derive(Debug)]
pub struct ImSafeUser {
    pub user_id: String,
    pub user_name: Option<String>,
    pub mobile: Option<String>,
    pub create_time: Option<i64>,
    pub update_time: Option<i64>,
    pub version: Option<i64>,
    pub del_flag: Option<i32>,
}

/// The claims carried by an access token: who, when it expires, when it
/// was issued.
#[derive(Clone, Copy, Debug, PartialEq, Eq, Structural)]
pub struct JwtClaims {
    pub open_id: u64,
    pub exp: i64,
    pub iat: i64,
}

impl JwtClaims {
    /// Claims issued now, expiring `expiry_hours` hours ahead; a clock
    /// reading off the plausible scale yields claims that are already
    /// expired rather than an overflowing sum.
    pub fn new(open_id: u64, expiry_hours: i64) -> (r: Self)
        requires
            0 <= expiry_hours <= 0xFFFF,
        ensures
            r.open_id == open_id,
            0 <= r.iat <= 0xFF_FFFF_FFFFi64 ==> r.exp == r.iat + expiry_hours * 3600,
            !(0 <= r.iat <= 0xFF_FFFF_FFFFi64) ==> r.exp == 0,
    {
        let now = now_timestamp_seconds();
        if now < 0 || now > 0xFF_FFFF_FFFFi64 {
            return JwtClaims { open_id, exp: 0, iat: now };
        }
        JwtClaims { open_id, exp: now + expiry_hours * 3600, iat: now }
    }
}

/// Assembles the per-reader status records that the read-state endpoint
/// reports for one group message: one row per reader, all read, stamped
/// with the moment the set was inspected.
pub fn group_message_statuses(
    group_id: &str,
    message_id: &str,
    readers: &Vec<String>,
    now: i64,
) -> (r: Vec<ImGroupMessageStatus>)
    ensures
        r@.len() == readers@.len(),
        forall|k: int|
            0 <= k < r@.len() ==> {
                &&& (#[trigger] r@[k]).group_id@ == group_id@
                &&& r@[k].message_id@ == message_id@
                &&& r@[k].to_id@ == readers@[k]@
                &&& r@[k].read_status == Some(1i32)
                &&& r@[k].create_time == Some(now)
                &&& r@[k].update_time == Some(now)
                &&& r@[k].version == Some(1i64)
            },
{
    let mut statuses: Vec<ImGroupMessageStatus> = Vec::new();
    let mut i: usize = 0;
    while i < readers.len()
        invariant
            i <= readers@.len(),
            statuses@.len() == i,
            forall|k: int|
                0 <= k < i ==> {
                    &&& (#[trigger] statuses@[k]).group_id@ == group_id@
                    &&& statuses@[k].message_id@ == message_id@
                    &&& statuses@[k].to_id@ == readers@[k]@
                    &&& statuses@[k].read_status == Some(1i32)
                    &&& statuses@[k].create_time == Some(now)
                    &&& statuses@[k].update_time == Some(now)
                    &&& statuses@[k].version == Some(1i64)
                },
        decreases readers@.len() - i,
    {
        statuses.push(
            ImGroupMessageStatus {
                group_id: String::from_str(group_id),
                message_id: String::from_str(message_id),
                to_id: readers[i].clone(),
                read_status: Some(1),
                create_time: Some(now),
                update_time: Some(now),
                version: Some(1),
            },
        );
        i = i + 1;
    }
    statuses
}

/// An account row stripped of its password for other users' eyes.
impl From<ImUser> for ImSafeUser {
    fn from(val: ImUser) -> (r: ImSafeUser) {
        ImSafeUser {
            user_id: val.user_id,
            user_name: val.user_name,
            mobile: val.mobile,
            create_time: val.create_time,
            update_time: val.update_time,
            version: val.version,
            del_flag: val.del_flag,
        }
    }
}

impl vstd::std_specs::convert::FromSpecImpl<ImUser> for ImSafeUser {
    open spec fn obeys_from_spec() -> bool {
        true
    }

    open spec fn from_spec(val: ImUser) -> ImSafeUser {
        ImSafeUser {
            user_id: val.user_id,
            user_name: val.user_name,
            mobile: val.mobile,
            create_time: val.create_time,
            update_time: val.update_time,
            version: val.version,
            del_flag: val.del_flag,
        }
    }
}

} // verus!

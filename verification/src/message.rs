//! Message records as persisted in the durable store, and the input
//! validation that rejects a malformed record before any side effect.
//! Timestamps are milliseconds since the Unix epoch; the field limits are
//! counted in characters.

use vstd::prelude::*;

verus! {

use vstd::string::StrSliceExecFns;
use crate::util::str_eq;

/// Why a message record was rejected before any side effect.
#[derive(Clone, Copy, Debug, PartialEq, Eq, Structural)]
pub enum ValidationError {
    EmptyMessageId,
    EmptyFromId,
    EmptyToId,
    EmptyGroupId,
    EmptyBody,
    MessageIdTooLong,
    FromIdTooLong,
    ToIdTooLong,
    GroupIdTooLong,
    MessageRandomTooLong,
    ReplyToTooLong,
    InvalidToType,
    FileUrlTooLong,
    FileNameTooLong,
    FileTypeTooLong,
}

/// One message between two users, immutable once delivered; mutated only to
/// flip its read state or its soft-delete flag.
#[derive(Clone, Debug)]
pub struct ImSingleMessage {
    pub message_id: String,
    pub from_id: String,
    pub to_id: String,
    pub message_body: String,
    pub message_time: i64,
    pub message_content_type: i32,
    pub read_status: i32,
    pub extra: Option<String>,
    pub del_flag: i16,
    pub sequence: i64,
    pub message_random: Option<String>,
    pub create_time: Option<i64>,
    pub update_time: Option<i64>,
    pub version: Option<i64>,
    pub reply_to: Option<String>,
    pub to_type: Option<String>,
    pub file_url: Option<String>,
    pub file_name: Option<String>,
    pub file_type: Option<String>,
}

/// The first reason, in checking order, why a single message is invalid.
pub open spec fn spec_validate_single(m: ImSingleMessage) -> Result<(), ValidationError> {
    if m.message_id@.len() == 0 {
        Err(ValidationError::EmptyMessageId)
    } else if m.from_id@.len() == 0 {
        Err(ValidationError::EmptyFromId)
    } else if m.to_id@.len() == 0 {
        Err(ValidationError::EmptyToId)
    } else if m.message_body@.len() == 0 {
        Err(ValidationError::EmptyBody)
    } else if m.message_id@.len() > 512 {
        Err(ValidationError::MessageIdTooLong)
    } else if m.from_id@.len() > 50 {
        Err(ValidationError::FromIdTooLong)
    } else if m.to_id@.len() > 50 {
        Err(ValidationError::ToIdTooLong)
    } else if m.message_random is Some && m.message_random->0@.len() > 255 {
        Err(ValidationError::MessageRandomTooLong)
    } else if m.reply_to is Some && m.reply_to->0@.len() > 255 {
        Err(ValidationError::ReplyToTooLong)
    } else if m.to_type is Some && m.to_type->0@ != "User"@ && m.to_type->0@ != "Group"@ {
        Err(ValidationError::InvalidToType)
    } else if m.file_url is Some && m.file_url->0@.len() > 512 {
        Err(ValidationError::FileUrlTooLong)
    } else if m.file_name is Some && m.file_name->0@.len() > 255 {
        Err(ValidationError::FileNameTooLong)
    } else if m.file_type is Some && m.file_type->0@.len() > 64 {
        Err(ValidationError::FileTypeTooLong)
    } else {
        Ok(())
    }
}

impl ImSingleMessage {
    /// Rejects a record that must not reach the durable store: empty keys,
    /// oversize fields, or an unknown recipient kind.
    pub fn validate(&self) -> (r: Result<(), ValidationError>)
        ensures
            r == spec_validate_single(*self),
    {
        if self.message_id.as_str().unicode_len() == 0 {
            return Err(ValidationError::EmptyMessageId);
        }
        if self.from_id.as_str().unicode_len() == 0 {
            return Err(ValidationError::EmptyFromId);
        }
        if self.to_id.as_str().unicode_len() == 0 {
            return Err(ValidationError::EmptyToId);
        }
        if self.message_body.as_str().unicode_len() == 0 {
            return Err(ValidationError::EmptyBody);
        }
        if self.message_id.as_str().unicode_len() > 512 {
            return Err(ValidationError::MessageIdTooLong);
        }
        if self.from_id.as_str().unicode_len() > 50 {
            return Err(ValidationError::FromIdTooLong);
        }
        if self.to_id.as_str().unicode_len() > 50 {
            return Err(ValidationError::ToIdTooLong);
        }
        if let Some(message_random) = &self.message_random {
            if message_random.as_str().unicode_len() > 255 {
                return Err(ValidationError::MessageRandomTooLong);
            }
        }
        if let Some(reply_to) = &self.reply_to {
            if reply_to.as_str().unicode_len() > 255 {
                return Err(ValidationError::ReplyToTooLong);
            }
        }
        if let Some(to_type) = &self.to_type {
            let is_user = str_eq(to_type.as_str(), "User");
            let is_group = str_eq(to_type.as_str(), "Group");
            if !is_user && !is_group {
                return Err(ValidationError::InvalidToType);
            }
        }
        if let Some(file_url) = &self.file_url {
            if file_url.as_str().unicode_len() > 512 {
                return Err(ValidationError::FileUrlTooLong);
            }
        }
        if let Some(file_name) = &self.file_name {
            if file_name.as_str().unicode_len() > 255 {
                return Err(ValidationError::FileNameTooLong);
            }
        }
        if let Some(file_type) = &self.file_type {
            if file_type.as_str().unicode_len() > 64 {
                return Err(ValidationError::FileTypeTooLong);
            }
        }
        Ok(())
    }
}

/// One message fanned out to a group; per-reader read state lives in the
/// fast-path set keyed by group and message, not on this row.
#[derive(Clone, Debug)]
pub struct ImGroupMessage {
    pub message_id: String,
    pub group_id: String,
    pub from_id: String,
    pub message_body: String,
    pub message_time: i64,
    pub message_content_type: i32,
    pub extra: Option<String>,
    pub del_flag: i16,
    pub sequence: Option<i64>,
    pub message_random: Option<String>,
    pub create_time: i64,
    pub update_time: Option<i64>,
    pub version: Option<i64>,
    pub reply_to: Option<String>,
}

/// The first reason, in checking order, why a group message is invalid.
pub open spec fn spec_validate_group(m: ImGroupMessage) -> Result<(), ValidationError> {
    if m.message_id@.len() == 0 {
        Err(ValidationError::EmptyMessageId)
    } else if m.group_id@.len() == 0 {
        Err(ValidationError::EmptyGroupId)
    } else if m.from_id@.len() == 0 {
        Err(ValidationError::EmptyFromId)
    } else if m.message_body@.len() == 0 {
        Err(ValidationError::EmptyBody)
    } else if m.message_id@.len() > 512 {
        Err(ValidationError::MessageIdTooLong)
    } else if m.group_id@.len() > 255 {
        Err(ValidationError::GroupIdTooLong)
    } else if m.from_id@.len() > 20 {
        Err(ValidationError::FromIdTooLong)
    } else if m.message_random is Some && m.message_random->0@.len() > 255 {
        Err(ValidationError::MessageRandomTooLong)
    } else if m.reply_to is Some && m.reply_to->0@.len() > 255 {
        Err(ValidationError::ReplyToTooLong)
    } else {
        Ok(())
    }
}

impl ImGroupMessage {
    /// Rejects a record that must not reach the durable store: empty keys or
    /// oversize fields.
    pub fn validate(&self) -> (r: Result<(), ValidationError>)
        ensures
            r == spec_validate_group(*self),
    {
        if self.message_id.as_str().unicode_len() == 0 {
            return Err(ValidationError::EmptyMessageId);
        }
        if self.group_id.as_str().unicode_len() == 0 {
            return Err(ValidationError::EmptyGroupId);
        }
        if self.from_id.as_str().unicode_len() == 0 {
            return Err(ValidationError::EmptyFromId);
        }
        if self.message_body.as_str().unicode_len() == 0 {
            return Err(ValidationError::EmptyBody);
        }
        if self.message_id.as_str().unicode_len() > 512 {
            return Err(ValidationError::MessageIdTooLong);
        }
        if self.group_id.as_str().unicode_len() > 255 {
            return Err(ValidationError::GroupIdTooLong);
        }
        if self.from_id.as_str().unicode_len() > 20 {
            return Err(ValidationError::FromIdTooLong);
        }
        if let Some(message_random) = &self.message_random {
            if message_random.as_str().unicode_len() > 255 {
                return Err(ValidationError::MessageRandomTooLong);
            }
        }
        if let Some(reply_to) = &self.reply_to {
            if reply_to.as_str().unicode_len() > 255 {
                return Err(ValidationError::ReplyToTooLong);
            }
        }
        Ok(())
    }
}

} // verus!

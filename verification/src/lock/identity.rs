//! Who the lock authenticates: the real user of the process, as the system's user database
//! names them, never the environment.

use vstd::prelude::*;
use vstd::string::StringExecFns;

use crate::text;

verus! {

pub const DEFAULT_NSS_BUFFER: usize = 16_384;

pub const MIN_NSS_BUFFER: usize = 1_024;

pub const MAX_NSS_BUFFER: usize = 1_048_576;

pub const MAX_USERNAME_BYTES: usize = 4_096;

pub const ERANGE: i32 = 34;

#[derive(Clone, Copy, Debug, PartialEq, Eq, Structural)]
pub enum IdentityError {
    CredentialMismatch,
    BufferLimit,
    Lookup(i32),
    UserNotFound,
    InvalidRecord,
}

/// What is said of an error.
pub open spec fn identity_text(error: IdentityError) -> Seq<char> {
    match error {
        IdentityError::CredentialMismatch => "real and effective process credentials differ"@,
        IdentityError::BufferLimit => "NSS passwd lookup exceeded its buffer limit"@,
        IdentityError::Lookup(code) => {
            "NSS passwd lookup failed with code "@ + text::signed_text(code as int)
        },
        IdentityError::UserNotFound => "real UID has no passwd record"@,
        IdentityError::InvalidRecord => "NSS returned an invalid passwd record"@,
    }
}

impl IdentityError {
    /// What is said of the error.
    pub fn message(self) -> (message: String)
        ensures
            message@ == identity_text(self),
    {
        match self {
            IdentityError::CredentialMismatch => {
                "real and effective process credentials differ".to_owned()
            },
            IdentityError::BufferLimit => "NSS passwd lookup exceeded its buffer limit".to_owned(),
            IdentityError::Lookup(code) => {
                let mut message = "NSS passwd lookup failed with code ".to_owned();
                message.append(text::signed_string(code as i64).as_str());
                message
            },
            IdentityError::UserNotFound => "real UID has no passwd record".to_owned(),
            IdentityError::InvalidRecord => "NSS returned an invalid passwd record".to_owned(),
        }
    }
}

pub struct TrustedIdentity {
    pub uid: u32,
    pub username: Vec<u8>,
}

impl TrustedIdentity {
    pub fn into_username(self) -> (username: Vec<u8>)
        ensures
            username == self.username,
    {
        self.username
    }

    pub fn uid(&self) -> (uid: u32)
        ensures
            uid == self.uid,
    {
        self.uid
    }
}

/// A process whose real and effective credentials differ is not trusted.
pub fn validate_process_ids(uid: u32, effective_uid: u32, gid: u32, effective_gid: u32) -> (valid:
    Result<(), IdentityError>)
    ensures
        valid == if uid == effective_uid && gid == effective_gid {
            Ok(())
        } else {
            Err(IdentityError::CredentialMismatch)
        },
{
    if uid != effective_uid || gid != effective_gid {
        Err(IdentityError::CredentialMismatch)
    } else {
        Ok(())
    }
}

pub open spec fn clamped(size: int, low: int, high: int) -> int {
    if size < low {
        low
    } else if size > high {
        high
    } else {
        size
    }
}

/// The scratch buffer for the first lookup, from the size that the system suggests.
pub fn first_buffer_size(suggested: i64) -> (size: usize)
    ensures
        size == if suggested > 0 {
            clamped(suggested as int, MIN_NSS_BUFFER as int, MAX_NSS_BUFFER as int)
        } else {
            DEFAULT_NSS_BUFFER as int
        },
        MIN_NSS_BUFFER <= size <= MAX_NSS_BUFFER,
{
    if suggested > 0 {
        if suggested < MIN_NSS_BUFFER as i64 {
            MIN_NSS_BUFFER
        } else if suggested > MAX_NSS_BUFFER as i64 {
            MAX_NSS_BUFFER
        } else {
            suggested as usize
        }
    } else {
        DEFAULT_NSS_BUFFER
    }
}

/// A record of the user database. The name holds the bytes before its terminator, of which at
/// most one more than [`MAX_USERNAME_BYTES`] were read.
pub struct PasswdRecord {
    pub uid: u32,
    pub name: Option<Vec<u8>>,
}

/// What follows one lookup.
pub enum LookupStep {
    Retry { size: usize },
    Found(TrustedIdentity),
    Failed(IdentityError),
}

pub open spec fn name_valid(name: Seq<u8>) -> bool {
    0 < name.len() <= MAX_USERNAME_BYTES && !name.contains(0u8)
}

pub open spec fn record_valid(record: PasswdRecord, uid: u32) -> bool {
    record.uid == uid && (record.name matches Some(name) && name_valid(name@))
}

/// Judges one lookup of `uid` with a buffer of `size` bytes: a buffer that was too small is
/// doubled up to the limit, and a record counts only for the same user and with a plausible name.
pub fn after_lookup(uid: u32, size: usize, status: i32, record: Option<PasswdRecord>) -> (step:
    LookupStep)
    ensures
        if status == ERANGE {
            if size >= MAX_NSS_BUFFER {
                step == LookupStep::Failed(IdentityError::BufferLimit)
            } else {
                step == (LookupStep::Retry {
                    size: clamped(2 * size, 0, MAX_NSS_BUFFER as int) as usize,
                })
            }
        } else if status != 0 {
            step == LookupStep::Failed(IdentityError::Lookup(status))
        } else {
            match record {
                None => step == LookupStep::Failed(IdentityError::UserNotFound),
                Some(record) => if record_valid(record, uid) {
                    &&& step matches LookupStep::Found(identity)
                    &&& identity.uid == uid
                    &&& identity.username@ == record.name->0@
                } else {
                    step == LookupStep::Failed(IdentityError::InvalidRecord)
                },
            }
        },
{
    if status == ERANGE {
        if size >= MAX_NSS_BUFFER {
            return LookupStep::Failed(IdentityError::BufferLimit);
        }
        let doubled: usize = size * 2;
        return LookupStep::Retry {
            size: if doubled > MAX_NSS_BUFFER {
                MAX_NSS_BUFFER
            } else {
                doubled
            },
        };
    }
    if status != 0 {
        return LookupStep::Failed(IdentityError::Lookup(status));
    }
    match record {
        None => LookupStep::Failed(IdentityError::UserNotFound),
        Some(record) => match record.name {
            Some(username) => {
                if record.uid == uid && is_valid_name(&username) {
                    LookupStep::Found(TrustedIdentity { uid, username })
                } else {
                    LookupStep::Failed(IdentityError::InvalidRecord)
                }
            },
            None => LookupStep::Failed(IdentityError::InvalidRecord),
        },
    }
}

fn is_valid_name(name: &Vec<u8>) -> (valid: bool)
    ensures
        valid == name_valid(name@),
{
    if name.len() == 0 || name.len() > MAX_USERNAME_BYTES {
        return false;
    }
    let mut index: usize = 0;
    while index < name.len()
        invariant
            index <= name.len(),
            forall|i: int| 0 <= i < index ==> name@[i] != 0,
        decreases name.len() - index,
    {
        if name[index] == 0 {
            assert(name@[index as int] == 0);
            return false;
        }
        index = index + 1;
    }
    true
}

/// The buffer sizes of the lookups of one user, when every one before the last was too small.
pub open spec fn buffer_size(suggested: int, retries: nat) -> int
    decreases retries,
{
    if retries == 0 {
        if suggested > 0 {
            clamped(suggested, MIN_NSS_BUFFER as int, MAX_NSS_BUFFER as int)
        } else {
            DEFAULT_NSS_BUFFER as int
        }
    } else {
        clamped(2 * buffer_size(suggested, (retries - 1) as nat), 0, MAX_NSS_BUFFER as int)
    }
}

/// The buffer reaches its limit within ten retries, so a lookup comes to an end.
pub proof fn lemma_retries_are_bounded(suggested: int)
    ensures
        buffer_size(suggested, 10) == MAX_NSS_BUFFER,
{
    reveal_with_fuel(buffer_size, 11);
}

} // verus!

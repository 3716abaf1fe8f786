//! Who is authenticated.

use vstd::prelude::*;

use crate::lock::identity;
use crate::lock::identity::{IdentityError, LookupStep, PasswdRecord, TrustedIdentity};

verus! {

/// A process is trusted exactly if it runs as the user and the group that started it.
pub proof fn lemma_credentials_must_agree(
    uid: u32,
    effective_uid: u32,
    gid: u32,
    effective_gid: u32,
    valid: Result<(), IdentityError>,
)
    requires
        call_ensures(
            identity::validate_process_ids,
            (uid, effective_uid, gid, effective_gid),
            valid,
        ),
    ensures
        valid is Ok <==> uid == effective_uid && gid == effective_gid,
        valid is Err ==> valid->Err_0 is CredentialMismatch,
{
}

/// The first buffer has the size that the system suggests, within one kibibyte and one mebibyte; it
/// has sixteen kibibytes where the system suggests none.
pub proof fn lemma_the_first_buffer(suggested: i64, more: i64, size: usize, more_size: usize)
    requires
        call_ensures(identity::first_buffer_size, (suggested,), size),
        call_ensures(identity::first_buffer_size, (more,), more_size),
    ensures
        1_024 <= size <= 1_048_576,
        1_024 <= suggested <= 1_048_576 ==> size == suggested,
        0 < suggested < 1_024 ==> size == 1_024,
        suggested > 1_048_576 ==> size == 1_048_576,
        suggested <= 0 ==> size == 16_384,
        0 < suggested <= more ==> size <= more_size,
{
}

/// A buffer that was too small is doubled, up to one mebibyte, and given up there. Any other status
/// but success is a failed lookup.
pub proof fn lemma_a_small_buffer_is_doubled(
    uid: u32,
    size: usize,
    status: i32,
    record: Option<PasswdRecord>,
    step: LookupStep,
)
    requires
        status != 0,
        call_ensures(identity::after_lookup, (uid, size, status, record), step),
    ensures
        status == 34 && size < 1_048_576 ==> step is Retry,
        status == 34 && size <= 524_288 ==> step->size == 2 * size,
        status == 34 && 524_288 <= size < 1_048_576 ==> step->size == 1_048_576,
        status == 34 && size >= 1_048_576 ==> step == LookupStep::Failed(IdentityError::BufferLimit),
        status != 34 ==> step == LookupStep::Failed(IdentityError::Lookup(status)),
{
}

/// A record counts only for the user that was looked up, and only with a name of 1 to 4096 bytes
/// without a null byte; the user is then known by that name. A missing record is not an invalid one.
pub proof fn lemma_a_record_must_be_the_users_own(
    uid: u32,
    size: usize,
    record: PasswdRecord,
    step: LookupStep,
    missing: LookupStep,
    username: Vec<u8>,
    known_uid: u32,
)
    requires
        call_ensures(identity::after_lookup, (uid, size, 0, Some(record)), step),
        call_ensures(identity::after_lookup, (uid, size, 0, None::<PasswdRecord>), missing),
        step is Found ==> call_ensures(
            TrustedIdentity::into_username,
            (step->Found_0,),
            username,
        ),
        step is Found ==> call_ensures(TrustedIdentity::uid, (&step->Found_0,), known_uid),
    ensures
        step is Found <==> record.uid == uid && record.name is Some && 1 <= record.name->0@.len()
            <= 4_096 && !record.name->0@.contains(0u8),
        step is Found ==> username@ == record.name->0@ && known_uid == uid,
        !(step is Found) ==> step == LookupStep::Failed(IdentityError::InvalidRecord),
        missing == LookupStep::Failed(IdentityError::UserNotFound),
{
}

} // verus!

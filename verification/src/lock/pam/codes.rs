//! The numbers of the Linux-PAM binary interface that the lock uses.

use vstd::prelude::*;

verus! {

pub const PAM_SUCCESS: i32 = 0;

pub const PAM_OPEN_ERR: i32 = 1;

pub const PAM_SYMBOL_ERR: i32 = 2;

pub const PAM_SERVICE_ERR: i32 = 3;

pub const PAM_SYSTEM_ERR: i32 = 4;

pub const PAM_BUF_ERR: i32 = 5;

pub const PAM_PERM_DENIED: i32 = 6;

pub const PAM_AUTH_ERR: i32 = 7;

pub const PAM_CRED_INSUFFICIENT: i32 = 8;

pub const PAM_AUTHINFO_UNAVAIL: i32 = 9;

pub const PAM_USER_UNKNOWN: i32 = 10;

pub const PAM_MAXTRIES: i32 = 11;

pub const PAM_NEW_AUTHTOK_REQD: i32 = 12;

pub const PAM_ACCT_EXPIRED: i32 = 13;

pub const PAM_SESSION_ERR: i32 = 14;

pub const PAM_CRED_UNAVAIL: i32 = 15;

pub const PAM_CRED_EXPIRED: i32 = 16;

pub const PAM_CRED_ERR: i32 = 17;

pub const PAM_NO_MODULE_DATA: i32 = 18;

pub const PAM_CONV_ERR: i32 = 19;

pub const PAM_AUTHTOK_ERR: i32 = 20;

pub const PAM_AUTHTOK_RECOVERY_ERR: i32 = 21;

pub const PAM_AUTHTOK_LOCK_BUSY: i32 = 22;

pub const PAM_AUTHTOK_DISABLE_AGING: i32 = 23;

pub const PAM_TRY_AGAIN: i32 = 24;

pub const PAM_IGNORE: i32 = 25;

pub const PAM_ABORT: i32 = 26;

pub const PAM_AUTHTOK_EXPIRED: i32 = 27;

pub const PAM_MODULE_UNKNOWN: i32 = 28;

pub const PAM_BAD_ITEM: i32 = 29;

pub const PAM_CONV_AGAIN: i32 = 30;

pub const PAM_INCOMPLETE: i32 = 31;

pub const PAM_USER: i32 = 2;

pub const PAM_PROMPT_ECHO_OFF: i32 = 1;

pub const PAM_PROMPT_ECHO_ON: i32 = 2;

pub const PAM_ERROR_MSG: i32 = 3;

pub const PAM_TEXT_INFO: i32 = 4;

pub const PAM_MAX_NUM_MSG: usize = 32;

pub const PAM_MAX_RESP_SIZE: usize = 512;

} // verus!

//! The password as it is typed: a fixed-capacity UTF-8 buffer that keeps no byte of
//! what was removed from it.

use vstd::arithmetic::div_mod;
use vstd::prelude::*;
use vstd::string::StringExecFns;
use vstd::utf8;
use zeroize::Zeroize;

verus! {

pub const MAX_PASSWORD_BYTES: usize = 511;

pub const MLOCK_EAGAIN_RETRIES: usize = 5;

pub const EPERM: i32 = 1;

pub const EAGAIN: i32 = 11;

pub const ENOSYS: i32 = 38;

/// Failures that can occur while allocating or editing a secret. The codes are those of the
/// operating system.
#[derive(Clone, Copy, Debug, PartialEq, Eq, Structural)]
pub enum SecretError {
    PageSizeUnavailable,
    Mapping(i32),
    DontDump(i32),
    Lock(i32),
    TooLong,
    ContainsNul,
}

/// What is said of an error that the operating system explains as `system`.
pub open spec fn secret_text(error: SecretError, system: Seq<char>) -> Seq<char> {
    match error {
        SecretError::PageSizeUnavailable => "system page size is unavailable"@,
        SecretError::Mapping(_) => "failed to allocate secret memory: "@ + system,
        SecretError::DontDump(_) => "failed to exclude secret memory from core dumps: "@ + system,
        SecretError::Lock(_) => "failed to lock secret memory: "@ + system,
        SecretError::TooLong => "password exceeds the configured byte limit"@,
        SecretError::ContainsNul => "password input contains a NUL byte"@,
    }
}

impl SecretError {
    /// What is said of the error. `system` is how the operating system explains its code.
    pub fn message(self, system: &str) -> (message: String)
        ensures
            message@ == secret_text(self, system@),
    {
        match self {
            SecretError::PageSizeUnavailable => "system page size is unavailable".to_owned(),
            SecretError::Mapping(_) => {
                let mut message = "failed to allocate secret memory: ".to_owned();
                message.append(system);
                message
            },
            SecretError::DontDump(_) => {
                let mut message = "failed to exclude secret memory from core dumps: ".to_owned();
                message.append(system);
                message
            },
            SecretError::Lock(_) => {
                let mut message = "failed to lock secret memory: ".to_owned();
                message.append(system);
                message
            },
            SecretError::TooLong => "password exceeds the configured byte limit".to_owned(),
            SecretError::ContainsNul => "password input contains a NUL byte".to_owned(),
        }
    }
}

/// A fixed-capacity password buffer. The storage never grows, so the password is never copied
/// to another place by an edit.
pub struct LockedSecret {
    storage: Vec<u8>,
    len: usize,
}

impl View for LockedSecret {
    type V = Seq<char>;

    closed spec fn view(&self) -> Seq<char> {
        utf8::decode_utf8(self.storage@.take(self.len as int))
    }
}

impl LockedSecret {
    /// Every byte that the secret occupies, the unused ones among them.
    pub closed spec fn storage(&self) -> Seq<u8> {
        self.storage@
    }

    /// The text in UTF-8.
    pub open spec fn bytes(&self) -> Seq<u8> {
        utf8::encode_utf8(self@)
    }

    pub closed spec fn wf(&self) -> bool {
        let text = self.storage@.take(self.len as int);
        &&& self.len <= MAX_PASSWORD_BYTES < self.storage@.len()
        &&& utf8::valid_utf8(text)
        &&& forall|i: int| 0 <= i < self.len ==> self.storage@[i] != 0
        &&& forall|i: int| self.len <= i < self.storage@.len() ==> self.storage@[i] == 0
    }

    /// The storage of a secret holds its text, which has no NUL in it and leaves room for one,
    /// and nothing else: every further byte is zero.
    pub proof fn lemma_storage_holds_only_the_text(&self)
        requires
            self.wf(),
        ensures
            self.bytes().len() <= MAX_PASSWORD_BYTES < self.storage().len(),
            self.storage().take(self.bytes().len() as int) == self.bytes(),
            forall|i: int| 0 <= i < self.bytes().len() ==> self.bytes()[i] != 0,
            forall|i: int|
                self.bytes().len() <= i < self.storage().len() ==> self.storage()[i] == 0,
    {
        utf8::decode_utf8_encode_utf8(self.storage@.take(self.len as int));
    }

    /// An empty secret in one page of the size that the system reports.
    pub fn new(reported_page_size: i64) -> (secret: Result<LockedSecret, SecretError>)
        ensures
            match secret {
                Ok(secret) => {
                    &&& page_fits(reported_page_size as int)
                    &&& secret.wf()
                    &&& secret@ == Seq::<char>::empty()
                    &&& secret.storage() == Seq::new(reported_page_size as nat, |i: int| 0u8)
                },
                Err(error) => {
                    &&& !page_fits(reported_page_size as int)
                    &&& error == SecretError::PageSizeUnavailable
                },
            },
    {
        match page_size(reported_page_size) {
            None => Err(SecretError::PageSizeUnavailable),
            Some(size) => {
                if size < MAX_PASSWORD_BYTES + 1 {
                    return Err(SecretError::PageSizeUnavailable);
                }
                let storage: Vec<u8> = vec![0u8; size];
                assert(storage@ == Seq::new(size as nat, |i: int| 0u8));
                assert(storage@.take(0) == Seq::<u8>::empty());
                Ok(LockedSecret { storage, len: 0 })
            },
        }
    }

    /// Adds text at the end, all of it or nothing.
    pub fn append(&mut self, text: &str) -> (appended: Result<(), SecretError>)
        requires
            old(self).wf(),
        ensures
            final(self).wf(),
            final(self).storage().len() == old(self).storage().len(),
            appended == if utf8::encode_utf8(text@).contains(0u8) {
                Err(SecretError::ContainsNul)
            } else if old(self).bytes().len() + utf8::encode_utf8(text@).len() > MAX_PASSWORD_BYTES {
                Err(SecretError::TooLong)
            } else {
                Ok(())
            },
            appended is Ok ==> final(self)@ == old(self)@ + text@,
            appended is Err ==> *final(self) == *old(self),
    {
        proof {
            utf8::decode_utf8_encode_utf8(self.storage@.take(self.len as int));
        }
        let bytes = text.as_bytes();
        if contains_nul(bytes) {
            return Err(SecretError::ContainsNul);
        }
        if bytes.len() > MAX_PASSWORD_BYTES - self.len {
            return Err(SecretError::TooLong);
        }
        let ghost before = self.storage@;
        let ghost start = self.len as int;
        let mut index: usize = 0;
        while index < bytes.len()
            invariant
                index <= bytes.len(),
                start == self.len,
                self.len + bytes.len() <= MAX_PASSWORD_BYTES < self.storage@.len(),
                self.storage@.len() == before.len(),
                forall|i: int| 0 <= i < start ==> self.storage@[i] == before[i],
                forall|i: int| 0 <= i < index ==> self.storage@[start + i] == bytes@[i],
                forall|i: int| start + index <= i < before.len() ==> self.storage@[i] == before[i],
            decreases bytes.len() - index,
        {
            self.storage[self.len + index] = bytes[index];
            index = index + 1;
        }
        self.len = self.len + bytes.len();
        proof {
            let old_text = before.take(start);
            let new_text = self.storage@.take(self.len as int);
            assert(new_text == old_text + bytes@);
            utf8::encode_utf8_valid_utf8(text@);
            utf8::valid_utf8_concat(old_text, bytes@);
            lemma_decode_concat(old_text, bytes@);
            utf8::encode_utf8_decode_utf8(text@);
            assert forall|i: int| 0 <= i < self.len implies self.storage@[i] != 0 by {
                if i >= start {
                    assert(self.storage@[start + (i - start)] == bytes@[i - start]);
                    assert(bytes@.contains(bytes@[i - start]));
                } else {
                    assert(self.storage@[i] == before[i]);
                }
            }
            assert forall|i: int| self.len <= i < self.storage@.len() implies self.storage@[i]
                == 0 by {
                assert(self.storage@[i] == before[i]);
            }
            assert(utf8::valid_utf8(new_text));
        }
        Ok(())
    }

    /// Removes the last character and wipes its bytes at once.
    pub fn delete_last_scalar(&mut self) -> (deleted: bool)
        requires
            old(self).wf(),
        ensures
            final(self).wf(),
            final(self).storage().len() == old(self).storage().len(),
            deleted == (old(self)@.len() > 0),
            deleted ==> final(self)@ == old(self)@.drop_last(),
            !deleted ==> *final(self) == *old(self),
    {
        let ghost text = self.storage@.take(self.len as int);
        if self.len == 0 {
            return false;
        }
        let mut start: usize = self.len - 1;
        proof {
            utf8::is_char_boundary_start_end_of_seq(text);
            utf8::is_char_boundary_iff_not_is_continuation_byte(text, 0);
        }
        while is_continuation_byte(self.storage[start])
            invariant
                start < self.len <= self.storage@.len(),
                text == self.storage@.take(self.len as int),
                !utf8::is_continuation_byte(text[0]),
                forall|i: int| start < i < self.len ==> utf8::is_continuation_byte(text[i]),
            decreases start,
        {
            start = start - 1;
        }
        proof {
            utf8::is_char_boundary_iff_not_is_continuation_byte(text, start as int);
            lemma_last_scalar(text, start as int);
        }
        let ghost before = self.storage@;
        wipe(&mut self.storage, start);
        self.len = start;
        assert(self.storage@.take(start as int) == text.take(start as int));
        assert(text.take(start as int) == text.subrange(0, start as int));
        true
    }

    /// Wipes the whole storage, not only the text.
    pub fn clear(&mut self)
        requires
            old(self).wf(),
        ensures
            final(self).wf(),
            final(self)@ == Seq::<char>::empty(),
            final(self).storage() == Seq::new(old(self).storage().len(), |i: int| 0u8),
    {
        wipe(&mut self.storage, 0);
        self.len = 0;
        assert(self.storage@ == Seq::new(old(self).storage().len(), |i: int| 0u8));
        assert(self.storage@.take(0) == Seq::<u8>::empty());
    }

    pub fn is_empty(&self) -> (empty: bool)
        requires
            self.wf(),
        ensures
            empty == (self@.len() == 0),
    {
        proof {
            lemma_decode_is_empty(self.storage@.take(self.len as int));
        }
        self.len == 0
    }

    /// The length of the text in bytes.
    pub fn len(&self) -> (len: usize)
        requires
            self.wf(),
        ensures
            len == self.bytes().len(),
    {
        proof {
            self.lemma_storage_holds_only_the_text();
            utf8::decode_utf8_encode_utf8(self.storage@.take(self.len as int));
        }
        self.len
    }

    pub fn as_bytes(&self) -> (bytes: &[u8])
        requires
            self.wf(),
        ensures
            bytes@ == self.bytes(),
    {
        proof {
            utf8::decode_utf8_encode_utf8(self.storage@.take(self.len as int));
            assert(self.storage@.subrange(0, self.len as int) == self.storage@.take(
                self.len as int,
            ));
        }
        vstd::slice::slice_subrange(self.storage.as_slice(), 0, self.len)
    }

    /// Every byte that the secret occupies.
    pub fn mapping(&self) -> (storage: &[u8])
        ensures
            storage@ == self.storage(),
    {
        self.storage.as_slice()
    }
}

/// A secret that is given up is wiped.
impl Drop for LockedSecret {
    fn drop(&mut self)
        ensures
            final(self).storage() == Seq::new(old(self).storage().len(), |i: int| 0u8),
        opens_invariants none
        no_unwind
    {
        wipe(&mut self.storage, 0);
        assert(self.storage@ == Seq::new(old(self).storage().len(), |i: int| 0u8));
    }
}

/// Calls `zeroize::Zeroize::zeroize` on `bytes[from..]`. It overwrites every byte of the slice
/// with zero, in a way that the compiler may not leave out, and touches no other byte.
#[verifier::external_body]
fn wipe(bytes: &mut Vec<u8>, from: usize)
    requires
        from <= old(bytes)@.len(),
    ensures
        final(bytes)@ == Seq::new(
            old(bytes)@.len(),
            |i: int|
                if from <= i {
                    0u8
                } else {
                    old(bytes)@[i]
                },
        ),
    opens_invariants none
    no_unwind
{
    bytes[from..].zeroize();
}

fn contains_nul(bytes: &[u8]) -> (found: bool)
    ensures
        found == bytes@.contains(0u8),
{
    let mut index: usize = 0;
    while index < bytes.len()
        invariant
            index <= bytes.len(),
            forall|i: int| 0 <= i < index ==> bytes@[i] != 0,
        decreases bytes.len() - index,
    {
        if bytes[index] == 0 {
            assert(bytes@[index as int] == 0);
            return true;
        }
        index = index + 1;
    }
    false
}

fn is_continuation_byte(byte: u8) -> (continuation: bool)
    ensures
        continuation == utf8::is_continuation_byte(byte),
{
    0x80 <= byte && byte <= 0xbf
}

proof fn lemma_decode_is_empty(text: Seq<u8>)
    requires
        utf8::valid_utf8(text),
    ensures
        utf8::decode_utf8(text).len() == 0 <==> text.len() == 0,
{
}

proof fn lemma_decode_concat(left: Seq<u8>, right: Seq<u8>)
    requires
        utf8::valid_utf8(left),
        utf8::valid_utf8(right),
    ensures
        utf8::decode_utf8(left + right) == utf8::decode_utf8(left) + utf8::decode_utf8(right),
    decreases left.len(),
{
    let both = left + right;
    utf8::valid_utf8_concat(left, right);
    if left.len() == 0 {
        assert(both == right);
        assert(utf8::decode_utf8(left) == Seq::<char>::empty());
    } else {
        let rest = utf8::pop_first_scalar(left);
        assert(utf8::pop_first_scalar(both) == rest + right);
        lemma_decode_concat(rest, right);
        assert(utf8::decode_first_scalar(both) == utf8::decode_first_scalar(left));
    }
}

proof fn lemma_last_scalar(text: Seq<u8>, start: int)
    requires
        utf8::valid_utf8(text),
        0 <= start < text.len(),
        utf8::is_char_boundary(text, start),
        forall|i: int| start < i < text.len() ==> utf8::is_continuation_byte(text[i]),
    ensures
        utf8::valid_utf8(text.subrange(0, start)),
        utf8::decode_utf8(text.subrange(0, start)) == utf8::decode_utf8(text).drop_last(),
        utf8::decode_utf8(text).len() > 0,
{
    let last = text.subrange(start, text.len() as int);
    utf8::valid_utf8_split(text, start);
    utf8::decode_utf8_split(text, start);
    let width = utf8::length_of_first_scalar(last);
    if width < last.len() {
        reveal_with_fuel(utf8::is_char_boundary, 2);
        assert(utf8::is_char_boundary(last, width));
        utf8::is_char_boundary_iff_not_is_continuation_byte(last, width);
        assert(last[width] == text[start + width]);
        assert(false);
    }
    assert(utf8::pop_first_scalar(last).len() == 0);
    assert(utf8::decode_utf8(utf8::pop_first_scalar(last)) == Seq::<char>::empty());
    assert(utf8::decode_utf8(last).len() == 1);
}

/// Whether a page of the reported size holds a password and its terminator.
pub open spec fn page_fits(reported_page_size: int) -> bool {
    MAX_PASSWORD_BYTES < reported_page_size <= usize::MAX
}

/// The page size that the system reported, when it is a positive length.
pub fn page_size(reported: i64) -> (size: Option<usize>)
    ensures
        size == if 0 < reported <= usize::MAX {
            Some(reported as usize)
        } else {
            None
        },
{
    if 0 < reported && reported as u64 <= usize::MAX as u64 {
        Some(reported as usize)
    } else {
        None
    }
}

/// The fewest whole pages that hold a piece of memory: where they start and how long they are.
pub fn covering_pages(address: usize, length: usize, page_size: usize) -> (pages: (usize, usize))
    requires
        page_size > 0,
        address + length + page_size <= usize::MAX,
    ensures
        pages.0 % page_size == 0,
        pages.1 % page_size == 0,
        pages.0 <= address < pages.0 + page_size,
        address + length <= pages.0 + pages.1 < address + length + page_size,
{
    proof {
        div_mod::lemma_mod_decreases(address as nat, page_size as nat);
        div_mod::lemma_mod_bound(address as int, page_size as int);
    }
    let ahead: usize = address % page_size;
    let start: usize = address - ahead;
    let used: usize = ahead + length;
    proof {
        div_mod::lemma_mod_decreases(used as nat, page_size as nat);
        div_mod::lemma_mod_bound(used as int, page_size as int);
    }
    let last: usize = used % page_size;
    let covered: usize = if last == 0 {
        used
    } else {
        used - last + page_size
    };
    proof {
        let page = page_size as int;
        div_mod::lemma_fundamental_div_mod(address as int, page);
        div_mod::lemma_fundamental_div_mod(used as int, page);
        let whole = address as int / page;
        let count = used as int / page;
        div_mod::lemma_mod_multiples_basic(whole, page);
        div_mod::lemma_mod_multiples_basic(count, page);
        div_mod::lemma_mod_multiples_basic(count + 1, page);
        assert(start == whole * page) by (nonlinear_arith)
            requires
                start == address - ahead,
                address == page * whole + ahead,
        ;
        assert(covered == count * page || covered == (count + 1) * page) by (nonlinear_arith)
            requires
                used == page * count + last,
                covered == if last == 0 {
                    used as int
                } else {
                    used - last + page
                },
        ;
    }
    (start, covered)
}

/// What to do after an attempt to lock the storage in memory.
#[derive(Clone, Copy, Debug, PartialEq, Eq, Structural)]
pub enum MemoryLock {
    Locked,
    Unavailable,
    Retry { eagain_failures: usize },
    Failed(i32),
}

/// Decides on the outcome of one `mlock`: nothing on success, or the error code. A system
/// without the permission or the call goes on unlocked; a busy one is asked again, at most
/// [`MLOCK_EAGAIN_RETRIES`] times in all.
pub fn after_lock_attempt(error: Option<i32>, eagain_failures: usize) -> (next: MemoryLock)
    ensures
        next == match error {
            None => MemoryLock::Locked,
            Some(code) => if code == EPERM || code == ENOSYS {
                MemoryLock::Unavailable
            } else if code == EAGAIN && eagain_failures + 1 < MLOCK_EAGAIN_RETRIES {
                MemoryLock::Retry { eagain_failures: (eagain_failures + 1) as usize }
            } else {
                MemoryLock::Failed(code)
            },
        },
{
    match error {
        None => MemoryLock::Locked,
        Some(code) => {
            if code == EPERM || code == ENOSYS {
                MemoryLock::Unavailable
            } else if code == EAGAIN && eagain_failures < MLOCK_EAGAIN_RETRIES - 1 {
                MemoryLock::Retry { eagain_failures: eagain_failures + 1 }
            } else {
                MemoryLock::Failed(code)
            }
        },
    }
}

/// Proof that process core dumps were disabled before constructing the PAM backend. It can only
/// be made by a successful [`disable_process_dumps`].
#[must_use]
pub struct ProcessDumpProtection {
    _private: (),
}

/// Judges the status that the system returned for the request to disable core dumps; `error` is
/// the code that it left behind.
pub fn disable_process_dumps(status: i32, error: i32) -> (protection: Result<
    ProcessDumpProtection,
    i32,
>)
    ensures
        protection is Ok <==> status == 0,
        status != 0 ==> protection == Err::<ProcessDumpProtection, i32>(error),
{
    if status == 0 {
        Ok(ProcessDumpProtection { _private: () })
    } else {
        Err(error)
    }
}

/// A character added to a secret and then deleted leaves the text and the storage as they were.
pub proof fn lemma_delete_undoes_append(
    before: LockedSecret,
    appended: LockedSecret,
    after: LockedSecret,
    text: Seq<char>,
)
    requires
        before.wf(),
        appended.wf(),
        after.wf(),
        text.len() == 1,
        appended@ == before@ + text,
        after@ == appended@.drop_last(),
        before.storage().len() == after.storage().len(),
    ensures
        after@ == before@,
        after.storage() == before.storage(),
{
    assert(after@ == before@);
    before.lemma_storage_holds_only_the_text();
    after.lemma_storage_holds_only_the_text();
    let len = before.bytes().len() as int;
    assert forall|i: int| 0 <= i < before.storage().len() implies after.storage()[i]
        == before.storage()[i] by {
        if i < len {
            assert(before.storage().take(len)[i] == before.storage()[i]);
            assert(after.storage().take(len)[i] == after.storage()[i]);
        }
    }
    assert(after.storage() == before.storage());
}

} // verus!

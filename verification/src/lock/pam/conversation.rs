//! The answers to what PAM modules ask during one transaction: the preloaded password once,
//! to one hidden prompt, and nothing else.

use vstd::prelude::*;
use vstd::utf8;

use crate::lock::pam::codes::{
    PAM_BUF_ERR, PAM_CONV_ERR, PAM_ERROR_MSG, PAM_MAX_NUM_MSG, PAM_MAX_RESP_SIZE,
    PAM_PROMPT_ECHO_OFF, PAM_SUCCESS, PAM_TEXT_INFO,
};
use crate::lock::pam::secret::{LockedSecret, MAX_PASSWORD_BYTES};

verus! {

#[derive(Clone, Copy, Debug, PartialEq, Eq, Structural)]
pub enum CallbackFailure {
    Protocol,
    Resource,
    Panicked,
}

/// The status that reports a failure to PAM.
pub open spec fn failure_code(failure: CallbackFailure) -> i32 {
    if failure == CallbackFailure::Resource {
        PAM_BUF_ERR
    } else {
        PAM_CONV_ERR
    }
}

/// The outcome of one conversation: the status for PAM and, on success, which of the responses
/// is the password. The other responses are empty. On failure there are no responses.
#[derive(Clone, Copy, Debug, PartialEq, Eq, Structural)]
pub struct ConversationReply {
    pub code: i32,
    pub password_index: Option<usize>,
}

/// What a conversation remembers from one callback to the next.
pub struct ConversationView {
    pub password: Option<Seq<char>>,
    pub password_consumed: bool,
    pub failure: Option<CallbackFailure>,
}

impl ConversationView {
    /// The first failure of a transaction is kept.
    pub open spec fn failed(self, failure: CallbackFailure) -> ConversationView {
        ConversationView {
            failure: if self.failure is Some {
                self.failure
            } else {
                Some(failure)
            },
            ..self
        }
    }

    pub open spec fn password_given(self) -> ConversationView {
        ConversationView { password: None, password_consumed: true, ..self }
    }

    pub open spec fn refused(self, failure: CallbackFailure) -> (
        ConversationView,
        ConversationReply,
    ) {
        (
            self.failed(failure),
            ConversationReply { code: failure_code(failure), password_index: None },
        )
    }

    /// The conversation after a batch of messages, and its reply.
    pub open spec fn answered(self, batch: Batch) -> (ConversationView, ConversationReply) {
        if self.failure is Some {
            (self, ConversationReply { code: PAM_CONV_ERR, password_index: None })
        } else if !request_valid(batch.num_msg, batch.messages, !self.password_consumed) {
            self.refused(CallbackFailure::Protocol)
        } else if !batch.array_allocated {
            self.refused(CallbackFailure::Resource)
        } else {
            match password_prompt(batch.messages->0) {
                None => (self, ConversationReply { code: PAM_SUCCESS, password_index: None }),
                Some(index) => if batch.room < PAM_MAX_RESP_SIZE {
                    self.password_given().refused(CallbackFailure::Resource)
                } else {
                    (
                        self.password_given(),
                        ConversationReply { code: PAM_SUCCESS, password_index: Some(index) },
                    )
                },
            }
        }
    }

    /// The conversation after several batches, one after the other.
    pub open spec fn after(self, batches: Seq<Batch>) -> ConversationView
        decreases batches.len(),
    {
        if batches.len() == 0 {
            self
        } else {
            self.after(batches.drop_last()).answered(batches.last()).0
        }
    }

    /// The reply to one of several batches.
    pub open spec fn reply_to(self, batches: Seq<Batch>, index: int) -> ConversationReply {
        self.after(batches.take(index)).answered(batches[index]).1
    }
}

/// One batch of messages: their styles, as far as there are any, whether the array of responses
/// could be allocated, and how many bytes there are for the password.
pub struct Batch {
    pub num_msg: i32,
    pub messages: Option<Seq<Option<i32>>>,
    pub array_allocated: bool,
    pub room: nat,
}

/// A message is known by its style alone; `None` stands for a message that is missing.
pub open spec fn asks_for_password(style: Option<i32>) -> bool {
    style == Some(PAM_PROMPT_ECHO_OFF)
}

/// A message that is shown to nobody and answered with nothing.
pub open spec fn is_silent(style: Option<i32>) -> bool {
    style == Some(PAM_ERROR_MSG) || style == Some(PAM_TEXT_INFO)
}

/// Whether every message of a batch may be answered: at most one of them asks for the
/// password, and only while it has not been given yet.
pub open spec fn batch_valid(styles: Seq<Option<i32>>, password_left: bool) -> bool {
    &&& forall|i: int|
        0 <= i < styles.len() ==> asks_for_password(#[trigger] styles[i]) || is_silent(styles[i])
    &&& forall|i: int, j: int|
        0 <= i < j < styles.len() ==> !(asks_for_password(#[trigger] styles[i])
            && asks_for_password(#[trigger] styles[j]))
    &&& password_left || forall|i: int|
        0 <= i < styles.len() ==> !asks_for_password(#[trigger] styles[i])
}

/// Where a batch asks for the password.
pub open spec fn password_prompt(styles: Seq<Option<i32>>) -> Option<usize> {
    if exists|i: int| 0 <= i < styles.len() && asks_for_password(#[trigger] styles[i]) {
        Some(
            (choose|i: int| 0 <= i < styles.len() && asks_for_password(#[trigger] styles[i])) as usize,
        )
    } else {
        None
    }
}

/// Whether a batch is one that PAM may send: of a length in bounds, with its messages there,
/// and with every message answerable.
pub open spec fn request_valid(
    num_msg: i32,
    messages: Option<Seq<Option<i32>>>,
    password_left: bool,
) -> bool {
    &&& 1 <= num_msg <= PAM_MAX_NUM_MSG
    &&& messages matches Some(styles)
    &&& batch_valid(styles, password_left)
}

/// A response buffer after the password was written to it: the text, and zeros up to the
/// capacity that PAM gives a response.
pub open spec fn filled(buffer: Seq<u8>, text: Seq<u8>) -> Seq<u8> {
    Seq::new(
        buffer.len(),
        |i: int|
            if i < text.len() {
                text[i]
            } else if i < PAM_MAX_RESP_SIZE {
                0u8
            } else {
                buffer[i]
            },
    )
}

/// The state of the conversation of one transaction.
pub struct ConversationData {
    password: Option<LockedSecret>,
    password_consumed: bool,
    failure: Option<CallbackFailure>,
}

impl View for ConversationData {
    type V = ConversationView;

    closed spec fn view(&self) -> ConversationView {
        ConversationView {
            password: match self.password {
                Some(password) => Some(password@),
                None => None,
            },
            password_consumed: self.password_consumed,
            failure: self.failure,
        }
    }
}

impl ConversationData {
    pub closed spec fn wf(&self) -> bool {
        &&& self.password matches Some(password) ==> password.wf()
        &&& self.password_consumed <==> self.password is None
    }

    pub fn new(password: LockedSecret) -> (data: ConversationData)
        requires
            password.wf(),
        ensures
            data.wf(),
            data@ == (ConversationView {
                password: Some(password@),
                password_consumed: false,
                failure: None,
            }),
    {
        ConversationData { password: Some(password), password_consumed: false, failure: None }
    }

    pub fn failure(&self) -> (failure: Option<CallbackFailure>)
        ensures
            failure == self@.failure,
    {
        self.failure
    }

    pub fn has_password(&self) -> (present: bool)
        ensures
            present == (self@.password is Some),
    {
        self.password.is_some()
    }

    /// Keeps the first failure, and returns the status that reports this one.
    pub fn record_failure(&mut self, failure: CallbackFailure) -> (code: i32)
        ensures
            final(self)@ == old(self)@.failed(failure),
            old(self).wf() ==> final(self).wf(),
            code == failure_code(failure),
    {
        if self.failure.is_none() {
            self.failure = Some(failure);
        }
        match failure {
            CallbackFailure::Resource => PAM_BUF_ERR,
            CallbackFailure::Protocol => PAM_CONV_ERR,
            CallbackFailure::Panicked => PAM_CONV_ERR,
        }
    }

    /// Answers one batch of messages. The caller says whether the response array could be
    /// allocated, and lends the buffer for the password; a buffer below the response capacity
    /// stands for one that could not be allocated. The whole batch is judged before the
    /// password is consumed.
    pub fn converse(
        &mut self,
        num_msg: i32,
        messages: Option<&[Option<i32>]>,
        array_allocated: bool,
        buffer: &mut [u8],
    ) -> (reply: ConversationReply)
        requires
            old(self).wf(),
            1 <= num_msg <= PAM_MAX_NUM_MSG ==> (messages matches Some(styles) ==> styles@.len()
                == num_msg),
        ensures
            final(self).wf(),
            (final(self)@, reply) == old(self)@.answered(
                Batch {
                    num_msg,
                    messages: match messages {
                        Some(styles) => Some(styles@),
                        None => None,
                    },
                    array_allocated,
                    room: old(buffer)@.len(),
                },
            ),
            final(buffer)@ == if reply.password_index is Some {
                filled(old(buffer)@, utf8::encode_utf8(old(self)@.password->0))
            } else {
                old(buffer)@
            },
    {
        if self.failure.is_some() {
            return ConversationReply { code: PAM_CONV_ERR, password_index: None };
        }
        let countable = 1 <= num_msg && num_msg <= PAM_MAX_NUM_MSG as i32;
        let styles: &[Option<i32>] = match messages {
            Some(styles) => styles,
            None => {
                let code: i32 = self.record_failure(CallbackFailure::Protocol);
                return ConversationReply { code, password_index: None };
            },
        };
        if !countable {
            let code: i32 = self.record_failure(CallbackFailure::Protocol);
            return ConversationReply { code, password_index: None };
        }
        let password_index = match find_password_prompt(styles, !self.password_consumed) {
            Ok(password_index) => password_index,
            Err(()) => {
                let code: i32 = self.record_failure(CallbackFailure::Protocol);
                return ConversationReply { code, password_index: None };
            },
        };
        if !array_allocated {
            let code: i32 = self.record_failure(CallbackFailure::Resource);
            return ConversationReply { code, password_index: None };
        }
        if password_index.is_some() {
            // Validation of the complete batch finished before consuming the password.
            if let Some(mut password) = self.password.take() {
                self.password_consumed = true;
                if install_password(buffer, &mut password).is_err() {
                    password.clear();
                    let code: i32 = self.record_failure(CallbackFailure::Resource);
                    return ConversationReply { code, password_index: None };
                }
            }
        }
        ConversationReply { code: PAM_SUCCESS, password_index }
    }
}

/// The status for a callback that came without a slot for the response or without the state of
/// its conversation.
pub fn check_callback_slots(has_response_slot: bool, has_data: bool) -> (checked: Result<(), i32>)
    ensures
        checked == if has_response_slot && has_data {
            Ok(())
        } else {
            Err(PAM_CONV_ERR)
        },
{
    if !has_response_slot || !has_data {
        Err(PAM_CONV_ERR)
    } else {
        Ok(())
    }
}

fn find_password_prompt(styles: &[Option<i32>], password_left: bool) -> (found: Result<
    Option<usize>,
    (),
>)
    ensures
        found == if batch_valid(styles@, password_left) {
            Ok(password_prompt(styles@))
        } else {
            Err(())
        },
{
    let mut password_index: Option<usize> = None;
    let mut index: usize = 0;
    while index < styles.len()
        invariant
            index <= styles@.len(),
            forall|i: int|
                0 <= i < index ==> asks_for_password(#[trigger] styles@[i]) || is_silent(
                    styles@[i],
                ),
            password_index matches Some(at) ==> at < index && password_left && asks_for_password(
                styles@[at as int],
            ),
            forall|i: int|
                0 <= i < index && asks_for_password(#[trigger] styles@[i]) ==> password_index
                    == Some(i as usize),
        decreases styles@.len() - index,
    {
        let wanted = match styles[index] {
            None => return Err(()),
            Some(style) => {
                if style == PAM_PROMPT_ECHO_OFF {
                    true
                } else if style == PAM_ERROR_MSG || style == PAM_TEXT_INFO {
                    false
                } else {
                    return Err(());
                }
            },
        };
        if wanted {
            if password_index.is_some() || !password_left {
                return Err(());
            }
            password_index = Some(index);
        }
        index = index + 1;
    }
    proof {
        if password_index is Some {
            assert(asks_for_password(styles@[password_index->0 as int]));
        }
    }
    Ok(password_index)
}

/// Writes the password to a response buffer and wipes the secret.
pub fn install_password(buffer: &mut [u8], secret: &mut LockedSecret) -> (installed: Result<(), ()>)
    requires
        old(secret).wf(),
    ensures
        final(secret).wf(),
        installed is Ok <==> old(buffer)@.len() >= PAM_MAX_RESP_SIZE,
        installed is Ok ==> {
            &&& final(buffer)@ == filled(old(buffer)@, old(secret).bytes())
            &&& final(secret)@ == Seq::<char>::empty()
        },
        installed is Err ==> final(buffer)@ == old(buffer)@ && *final(secret) == *old(secret),
{
    if buffer.len() < PAM_MAX_RESP_SIZE {
        return Err(());
    }
    proof {
        secret.lemma_storage_holds_only_the_text();
    }
    let ghost before = buffer@;
    let bytes = secret.as_bytes();
    let mut index: usize = 0;
    while index < PAM_MAX_RESP_SIZE
        invariant
            index <= PAM_MAX_RESP_SIZE <= before.len(),
            buffer@.len() == before.len(),
            bytes@ == secret.bytes(),
            forall|i: int| 0 <= i < index ==> buffer@[i] == filled(before, bytes@)[i],
            forall|i: int| index <= i < before.len() ==> buffer@[i] == before[i],
        decreases PAM_MAX_RESP_SIZE - index,
    {
        let byte: u8 = if index < bytes.len() {
            bytes[index]
        } else {
            0
        };
        buffer[index] = byte;
        index = index + 1;
    }
    assert(bytes@.len() <= MAX_PASSWORD_BYTES);
    assert(buffer@ == filled(before, bytes@));
    secret.clear();
    Ok(())
}

proof fn lemma_what_later_batches_keep(start: ConversationView, batches: Seq<Batch>, count: int)
    requires
        0 <= count <= batches.len(),
    ensures
        start.after(batches.take(count)).password_consumed ==> start.after(
            batches,
        ).password_consumed,
        start.after(batches.take(count)).failure is Some ==> start.after(batches).failure
            == start.after(batches.take(count)).failure,
    decreases batches.len() - count,
{
    if count == batches.len() {
        assert(batches.take(count) == batches);
    } else {
        assert(batches.drop_last().take(count) == batches.take(count));
        lemma_what_later_batches_keep(start, batches.drop_last(), count);
    }
}

/// However many batches there are, the password is given in reply to at most one of them.
pub proof fn lemma_the_password_is_given_once(
    start: ConversationView,
    batches: Seq<Batch>,
    first: int,
    second: int,
)
    requires
        0 <= first < batches.len(),
        0 <= second < batches.len(),
        start.reply_to(batches, first).password_index is Some,
        start.reply_to(batches, second).password_index is Some,
    ensures
        first == second,
{
    if first < second {
        lemma_given_before(start, batches, first, second);
    } else if second < first {
        lemma_given_before(start, batches, second, first);
    }
}

proof fn lemma_given_before(
    start: ConversationView,
    batches: Seq<Batch>,
    first: int,
    second: int,
)
    requires
        0 <= first < second < batches.len(),
        start.reply_to(batches, first).password_index is Some,
    ensures
        start.reply_to(batches, second).password_index is None,
{
    let before = batches.take(second);
    assert(before.take(first + 1).drop_last() == batches.take(first));
    assert(before.take(first + 1).last() == batches[first]);
    lemma_what_later_batches_keep(start, before, first + 1);
    let state = start.after(before);
    assert(state.password_consumed);
    let batch = batches[second];
    if request_valid(batch.num_msg, batch.messages, false) {
        let styles = batch.messages->0;
        assert(forall|i: int| 0 <= i < styles.len() ==> !asks_for_password(#[trigger] styles[i]));
        assert(password_prompt(styles) is None);
    }
}

/// Once a batch has been refused, every later one is refused too, and none gets the password.
pub proof fn lemma_a_failed_conversation_stays_failed(
    start: ConversationView,
    batches: Seq<Batch>,
    first: int,
    second: int,
)
    requires
        0 <= first < second < batches.len(),
        start.reply_to(batches, first).code != PAM_SUCCESS,
    ensures
        start.reply_to(batches, second) == (ConversationReply {
            code: PAM_CONV_ERR,
            password_index: None,
        }),
{
    let before = batches.take(second);
    assert(before.take(first + 1).drop_last() == batches.take(first));
    assert(before.take(first + 1).last() == batches[first]);
    lemma_what_later_batches_keep(start, before, first + 1);
}

} // verus!

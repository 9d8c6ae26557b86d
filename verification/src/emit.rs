//! The emitter: checks the destination channel's identity against the
//! fixed known-good value and forwards a serialized batch as one opaque
//! message, attributed to the invocation's authorizer.
//!
//! The channel itself is an external collaborator; this module models
//! it at its interface — an identity-checked, size-limited sink that
//! keeps the messages it accepted in arrival order. The embedding
//! program performs the real forwarding.

use vstd::prelude::*;

use crate::{MyErrorCode, NOOP_PROGRAM_ID};

verus! {

/// One message accepted by the channel.
pub struct Message {
    /// The message body: a serialized batch, unframed.
    pub payload: Vec<u8>,
    /// The identity the message is attributed to.
    pub authorizer: [u8; 32],
}

/// Mathematical model of a message.
pub ghost struct MessageModel {
    pub payload: Seq<u8>,
    pub authorizer: Seq<u8>,
}

impl View for Message {
    type V = MessageModel;

    open spec fn view(&self) -> MessageModel {
        MessageModel { payload: self.payload@, authorizer: self.authorizer@ }
    }
}

/// The logging channel at its interface: it accepts messages up to a
/// fixed size and keeps them in arrival order. The size limit is the
/// channel's own; the emitter never re-validates it.
pub struct Channel {
    /// The largest message body the channel accepts.
    pub max_message_size: usize,
    /// Every message accepted so far, in arrival order.
    pub messages: Vec<Message>,
}

impl Channel {
    /// A fresh channel with the given size limit and no messages.
    pub fn new(max_message_size: usize) -> (r: Channel)
        ensures
            r.max_message_size == max_message_size,
            r.messages@.len() == 0,
    {
        Channel { max_message_size, messages: Vec::new() }
    }
}

/// True exactly when two 32-byte identities hold the same bytes.
pub fn keys_equal(a: &[u8; 32], b: &[u8; 32]) -> (r: bool)
    ensures
        r == (a@ == b@),
{
    let mut i: usize = 0;
    while i < 32
        invariant
            i <= 32,
            forall|i2: int| 0 <= i2 < i ==> a@[i2] == b@[i2],
        decreases 32 - i,
    {
        if a[i] != b[i] {
            return false;
        }
        i = i + 1;
    }
    proof {
        assert(a@ =~= b@);
    }
    true
}

/// Emits one serialized batch: verifies that `noop_program` is the
/// fixed known-good channel identity — failing with `InvalidChannel`
/// and touching nothing on mismatch — then hands the bytes to the
/// channel as a single message attributed to `signer`. A body larger
/// than the channel's own limit is refused by the channel as
/// `ChannelRejected`; the emitter performs no size check of its own.
pub fn emit_indexer_event(
    data: Vec<u8>,
    noop_program: &[u8; 32],
    signer: &[u8; 32],
    channel: &mut Channel,
) -> (r: Result<(), MyErrorCode>)
    ensures
        final(channel).max_message_size == old(channel).max_message_size,
        match r {
            Ok(()) => {
                &&& noop_program@ == NOOP_PROGRAM_ID@
                &&& data@.len() <= old(channel).max_message_size
                &&& final(channel).messages@.len() == old(channel).messages@.len() + 1
                &&& forall|i: int|
                    0 <= i < old(channel).messages@.len() ==> final(channel).messages@[i] == old(
                        channel,
                    ).messages@[i]
                &&& final(channel).messages@.last()@.payload == data@
                &&& final(channel).messages@.last()@.authorizer == signer@
            },
            Err(e) => {
                &&& final(channel).messages@ == old(channel).messages@
                &&& (e == MyErrorCode::InvalidChannel <==> noop_program@ != NOOP_PROGRAM_ID@)
                &&& (e == MyErrorCode::ChannelRejected <==> (noop_program@ == NOOP_PROGRAM_ID@
                    && data@.len() > old(channel).max_message_size))
                &&& (e == MyErrorCode::InvalidChannel || e == MyErrorCode::ChannelRejected)
            },
        },
{
    let known_good = NOOP_PROGRAM_ID;
    if !keys_equal(noop_program, &known_good) {
        return Err(MyErrorCode::InvalidChannel);
    }
    if data.len() > channel.max_message_size {
        return Err(MyErrorCode::ChannelRejected);
    }
    let message = Message { payload: data, authorizer: *signer };
    channel.messages.push(message);
    Ok(())
}

} // verus!

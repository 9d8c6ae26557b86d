//! Batch-oriented changelog emission over a bounded scratch region.
//!
//! The library builds changelog records describing Merkle-path updates,
//! serializes each batch of records into a fixed-capacity scratch buffer,
//! and forwards the bytes to a size-limited logging channel — repeating
//! this for several batches inside one invocation while a monotonic bump
//! allocator with checkpoint/rollback keeps peak memory bounded by a
//! single batch's worth of allocation.

use vstd::prelude::*;

pub mod allocator;
pub mod batch;
pub mod buffers;
pub mod builder;
pub mod decode;
pub mod emit;
pub mod encode;
pub mod event;
pub mod serialize;

verus! {

/// Height of the tree: every Merkle path carries exactly this many nodes.
pub const HEIGHT: usize = 26;

/// Number of changelog event batches emitted in one invocation.
pub const BATCHES: usize = 3;

/// Number of leaves (records) per event batch.
pub const NR_LEAVES_BATCH: usize = 10;

/// Capacity in bytes of the serialization scratch buffer.
pub const SERIALIZE_BUFFER_SIZE: usize = 10240;

/// The fixed, known-good identity of the logging channel (the no-op
/// program that receives each serialized batch as one opaque message).
pub const NOOP_PROGRAM_ID: [u8; 32] = [
    11, 188, 15, 192, 187, 71, 202, 47, 116, 196, 17, 46, 148, 171, 19, 207, 163, 198, 52, 229,
    220, 23, 234, 203, 3, 205, 26, 35, 205, 126, 120, 124,
];

/// Build-time configuration of one invocation: tree height H, leaves
/// per batch L, batch count B and serialization-buffer capacity C.
/// None of these is runtime-tunable inside an invocation.
pub struct Config {
    /// Tree height H: nodes per Merkle path.
    pub height: usize,
    /// Leaves per batch L: records per emitted message.
    pub leaves: usize,
    /// Batch count B: messages per invocation.
    pub batches: usize,
    /// Capacity C in bytes of the serialization buffer.
    pub capacity: usize,
}

impl Config {
    /// Machine bounds on a configuration: generous ceilings under which
    /// every size computation of the pipeline fits in a `usize`.
    pub open spec fn wf(self) -> bool {
        &&& self.height <= 1000
        &&& self.leaves <= 1000
        &&& self.batches <= 1000
        &&& self.capacity <= 1000000
    }

    /// Byte size of one path slot: room for `height` path nodes.
    pub open spec fn spec_slot_size(self) -> int {
        36 * self.height
    }

    /// Byte size of one path slot, executable side.
    pub fn slot_size(&self) -> (r: usize)
        requires
            self.wf(),
        ensures
            r == self.spec_slot_size(),
    {
        36 * self.height
    }

    /// The configuration-time constraint behind the serializer's size
    /// bound: a fully populated batch encodes into at most `capacity`
    /// bytes. Violating it is a misconfiguration that the serializer
    /// reports as `EncodingOverflow` at run time.
    pub open spec fn fits(self) -> bool {
        crate::encode::batch_enc_size(self.leaves as nat, self.height as nat) <= self.capacity
    }

    /// The configuration this crate is built for.
    pub fn default_config() -> (r: Config)
        ensures
            r.wf(),
            r.height == HEIGHT,
            r.leaves == NR_LEAVES_BATCH,
            r.batches == BATCHES,
            r.capacity == SERIALIZE_BUFFER_SIZE,
            r.fits(),
    {
        let r = Config {
            height: HEIGHT,
            leaves: NR_LEAVES_BATCH,
            batches: BATCHES,
            capacity: SERIALIZE_BUFFER_SIZE,
        };
        proof {
            assert(crate::encode::batch_enc_size(r.leaves as nat, r.height as nat) == 4 + 10 * (53
                + 36 * 26));
        }
        r
    }
}

/// Failures of the pipeline. Every step propagates its first error
/// immediately; there is no local recovery or retry in the core.
#[derive(Clone, Copy, Debug, PartialEq, Eq, Structural)]
pub enum MyErrorCode {
    /// The allocator cannot satisfy a request.
    OutOfMemory,
    /// A batch would not fit in the serialization buffer.
    EncodingOverflow,
    /// The emitter's channel-identity check failed.
    InvalidChannel,
    /// The external channel refused the message.
    ChannelRejected,
}

} // verus!

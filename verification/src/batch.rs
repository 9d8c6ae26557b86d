//! The batch loop controller: drives B batches of L leaf updates each.
//! Every batch takes an allocator checkpoint, builds its records from
//! the path slots, serializes them, emits the bytes, zeroes the scratch
//! buffers and rolls the allocator back — so peak memory is bounded by
//! one batch's worth of allocation however many batches run, and
//! nothing a batch wrote survives into the next one.

use vstd::prelude::*;

use crate::allocator::BumpAllocator;
use crate::buffers::Buffers;
use crate::builder::{batch_records, build_batch, lemma_batch_records_shape};
use crate::emit::{emit_indexer_event, Channel};
use crate::encode::{batch_enc_size, enc_changelogs, lemma_enc_changelogs_len};
use crate::{Config, MyErrorCode, NOOP_PROGRAM_ID};

verus! {

/// Transient storage one batch's record construction takes from the
/// arena: the per-leaf paths plus a fixed per-record overhead. This is
/// the allocation the checkpoint/rollback pair reclaims.
pub open spec fn spec_batch_heap_bytes(cfg: Config) -> int {
    cfg.leaves * (36 * cfg.height + 64)
}

/// Transient per-batch storage, executable side.
pub fn batch_heap_bytes(cfg: &Config) -> (r: usize)
    requires
        cfg.wf(),
    ensures
        r == spec_batch_heap_bytes(*cfg),
{
    proof {
        assert(cfg.leaves * (36 * cfg.height + 64) <= 1000 * 36064) by (nonlinear_arith)
            requires
                cfg.leaves <= 1000,
                cfg.height <= 1000,
        ;
    }
    cfg.leaves * (36 * cfg.height + 64)
}

/// The contents of the path slots after zeroing: `leaves` slots of
/// `36 * height` zero bytes.
pub open spec fn zero_slots(cfg: Config) -> Seq<Seq<u8>> {
    Seq::new(cfg.leaves as nat, |j: int| Seq::new((36 * cfg.height) as nat, |i: int| 0u8))
}

/// The message body a batch built from the given path slots emits.
pub open spec fn batch_payload(slots: Seq<Seq<u8>>, id: Seq<u8>, cfg: Config) -> Seq<u8> {
    enc_changelogs(batch_records(slots, id, cfg.leaves as nat, cfg.height as nat))
}

/// The message body batch `i` of one invocation emits: the first batch
/// reads the path slots as the invocation found them; every later batch
/// reads them zeroed.
pub open spec fn invocation_payload(cfg: Config, id: Seq<u8>, slots0: Seq<Seq<u8>>, i: int) -> Seq<
    u8,
> {
    if i == 0 {
        batch_payload(slots0, id, cfg)
    } else {
        batch_payload(zero_slots(cfg), id, cfg)
    }
}

/// Zeroed, well-formed scratch buffers hold exactly the zero slots.
pub proof fn lemma_zeroed_slots(bufs: Buffers, cfg: Config)
    requires
        bufs.wf(cfg),
        bufs.paths_zero(),
    ensures
        bufs.slots() == zero_slots(cfg),
{
    assert forall|j: int| 0 <= j < cfg.leaves implies bufs.slots()[j] == zero_slots(cfg)[j] by {
        assert(bufs.slots()[j] == bufs.paths_buffer@[j]@);
        assert(bufs.slots()[j] =~= zero_slots(cfg)[j]);
    }
    assert(bufs.slots() =~= zero_slots(cfg));
}

/// Well-formed scratch buffers yield a batch of the full shape, whose
/// encoding has exactly the configured batch size.
pub proof fn lemma_batch_payload_len(bufs: Buffers, cfg: Config, id: Seq<u8>)
    requires
        bufs.wf(cfg),
        id.len() == 32,
    ensures
        batch_payload(bufs.slots(), id, cfg).len() == batch_enc_size(
            cfg.leaves as nat,
            cfg.height as nat,
        ),
{
    let l = cfg.leaves as nat;
    let h = cfg.height as nat;
    assert forall|j: int| 0 <= j < l implies (#[trigger] bufs.slots()[j]).len() == 36 * h by {
        assert(bufs.slots()[j] == bufs.paths_buffer@[j]@);
    }
    lemma_batch_records_shape(bufs.slots(), id, l, h);
    lemma_enc_changelogs_len(batch_records(bufs.slots(), id, l, h), l, h);
}

/// Runs one batch: checkpoint, allocate the batch's transient storage,
/// build all records from the path slots, serialize, emit, zero every
/// scratch buffer, roll back to the checkpoint. The arena always leaves
/// with the cursor it entered with; on any failure nothing is emitted
/// and the path slots are untouched.
pub fn append_batch(
    cfg: &Config,
    arena: &mut BumpAllocator,
    bufs: &mut Buffers,
    tree_id: &[u8; 32],
    noop_program: &[u8; 32],
    signer: &[u8; 32],
    channel: &mut Channel,
) -> (r: Result<(), MyErrorCode>)
    requires
        cfg.wf(),
        old(arena).wf(),
        old(bufs).wf(*cfg),
    ensures
        final(arena).wf(),
        final(arena).start == old(arena).start,
        final(arena).len == old(arena).len,
        final(arena).pos == old(arena).pos,
        final(bufs).wf(*cfg),
        final(channel).max_message_size == old(channel).max_message_size,
        ({
            let payload = batch_payload(old(bufs).slots(), tree_id@, *cfg);
            let alloc_ok = old(arena).spec_alloc(
                spec_batch_heap_bytes(*cfg) as usize,
                8,
            ) is Some;
            match r {
                Ok(()) => {
                    &&& alloc_ok
                    &&& payload.len() <= cfg.capacity
                    &&& noop_program@ == NOOP_PROGRAM_ID@
                    &&& payload.len() <= old(channel).max_message_size
                    &&& final(channel).messages@.len() == old(channel).messages@.len() + 1
                    &&& forall|i: int|
                        0 <= i < old(channel).messages@.len() ==> final(channel).messages@[i]
                            == old(channel).messages@[i]
                    &&& final(channel).messages@.last()@.payload == payload
                    &&& final(channel).messages@.last()@.authorizer == signer@
                    &&& final(bufs).all_zero()
                },
                Err(e) => {
                    &&& final(channel).messages@ == old(channel).messages@
                    &&& final(bufs).paths_buffer == old(bufs).paths_buffer
                    &&& (e == MyErrorCode::OutOfMemory <==> !alloc_ok)
                    &&& (e == MyErrorCode::EncodingOverflow <==> alloc_ok && payload.len()
                        > cfg.capacity)
                    &&& (e == MyErrorCode::InvalidChannel <==> alloc_ok && payload.len()
                        <= cfg.capacity && noop_program@ != NOOP_PROGRAM_ID@)
                    &&& (e == MyErrorCode::ChannelRejected <==> alloc_ok && payload.len()
                        <= cfg.capacity && noop_program@ == NOOP_PROGRAM_ID@ && payload.len()
                        > old(channel).max_message_size)
                },
            }
        }),
{
    let checkpoint = arena.get_heap_pos();
    let heap_bytes = batch_heap_bytes(cfg);
    match arena.allocate(heap_bytes, 8) {
        Ok(_) => {},
        Err(e) => {
            return Err(e);
        },
    }
    let batch = build_batch(bufs, cfg, tree_id);
    proof {
        let l = cfg.leaves as nat;
        let h = cfg.height as nat;
        assert forall|j: int| 0 <= j < l implies (#[trigger] bufs.slots()[j]).len() == 36 * h by {
            assert(bufs.slots()[j] == bufs.paths_buffer@[j]@);
        }
        lemma_batch_records_shape(bufs.slots(), tree_id@, l, h);
    }
    let n = match batch.serialize(&mut bufs.serialization_buffer) {
        Ok(n) => n,
        Err(e) => {
            arena.free_heap(checkpoint);
            return Err(e);
        },
    };
    let mut data: Vec<u8> = Vec::new();
    let mut i: usize = 0;
    while i < n
        invariant
            i <= n,
            n <= bufs.serialization_buffer@.len(),
            data@.len() == i,
            forall|i2: int| 0 <= i2 < i ==> data@[i2] == bufs.serialization_buffer@[i2],
        decreases n - i,
    {
        data.push(bufs.serialization_buffer[i]);
        i = i + 1;
    }
    proof {
        assert(data@ =~= bufs.serialization_buffer@.subrange(0, n as int));
    }
    match emit_indexer_event(data, noop_program, signer, channel) {
        Ok(()) => {},
        Err(e) => {
            arena.free_heap(checkpoint);
            return Err(e);
        },
    }
    bufs.zero_buffers(cfg);
    arena.free_heap(checkpoint);
    Ok(())
}

/// Runs one whole invocation: B batches, strictly in order, each over
/// the same reused scratch buffers. The first batch's records come from
/// the path slots as the caller provided them; every later batch reads
/// the slots zeroed. Any step's failure aborts the invocation before
/// anything of that batch is emitted — and since every batch after a
/// successful first one repeats its conditions exactly, a failure can
/// only happen on the first batch, so a failed invocation emits
/// nothing.
pub fn append_leaves(
    cfg: &Config,
    arena: &mut BumpAllocator,
    bufs: &mut Buffers,
    tree_id: &[u8; 32],
    noop_program: &[u8; 32],
    signer: &[u8; 32],
    channel: &mut Channel,
) -> (r: Result<(), MyErrorCode>)
    requires
        cfg.wf(),
        old(arena).wf(),
        old(bufs).wf(*cfg),
    ensures
        final(arena).wf(),
        final(arena).start == old(arena).start,
        final(arena).len == old(arena).len,
        final(arena).pos == old(arena).pos,
        final(bufs).wf(*cfg),
        final(channel).max_message_size == old(channel).max_message_size,
        ({
            let size = batch_enc_size(cfg.leaves as nat, cfg.height as nat);
            let alloc_ok = old(arena).spec_alloc(
                spec_batch_heap_bytes(*cfg) as usize,
                8,
            ) is Some;
            match r {
                Ok(()) => {
                    &&& (cfg.batches > 0 ==> {
                        &&& alloc_ok
                        &&& size <= cfg.capacity
                        &&& noop_program@ == NOOP_PROGRAM_ID@
                        &&& size <= old(channel).max_message_size
                        &&& final(bufs).all_zero()
                    })
                    &&& (cfg.batches == 0 ==> *final(bufs) == *old(bufs) && *final(channel)
                        == *old(channel))
                    &&& final(channel).messages@.len() == old(channel).messages@.len()
                        + cfg.batches
                    &&& forall|i: int|
                        0 <= i < old(channel).messages@.len() ==> final(channel).messages@[i]
                            == old(channel).messages@[i]
                    &&& forall|i: int|
                        0 <= i < cfg.batches ==> (#[trigger] final(channel).messages@[old(
                            channel,
                        ).messages@.len() + i])@.payload == invocation_payload(
                            *cfg,
                            tree_id@,
                            old(bufs).slots(),
                            i,
                        )
                    &&& forall|i: int|
                        0 <= i < cfg.batches ==> (#[trigger] final(channel).messages@[old(
                            channel,
                        ).messages@.len() + i])@.authorizer == signer@
                },
                Err(e) => {
                    &&& cfg.batches > 0
                    &&& final(channel).messages@ == old(channel).messages@
                    &&& final(bufs).paths_buffer == old(bufs).paths_buffer
                    &&& (e == MyErrorCode::OutOfMemory <==> !alloc_ok)
                    &&& (e == MyErrorCode::EncodingOverflow <==> alloc_ok && size > cfg.capacity)
                    &&& (e == MyErrorCode::InvalidChannel <==> alloc_ok && size <= cfg.capacity
                        && noop_program@ != NOOP_PROGRAM_ID@)
                    &&& (e == MyErrorCode::ChannelRejected <==> alloc_ok && size <= cfg.capacity
                        && noop_program@ == NOOP_PROGRAM_ID@ && size > old(
                        channel,
                    ).max_message_size)
                },
            }
        }),
{
    let ghost size = batch_enc_size(cfg.leaves as nat, cfg.height as nat);
    let ghost first = batch_payload(old(bufs).slots(), tree_id@, *cfg);
    let ghost later = batch_payload(zero_slots(*cfg), tree_id@, *cfg);
    let ghost base_len = old(channel).messages@.len() as int;
    let mut i: usize = 0;
    while i < cfg.batches
        invariant
            cfg.wf(),
            i <= cfg.batches,
            arena.wf(),
            arena.start == old(arena).start,
            arena.len == old(arena).len,
            arena.pos == old(arena).pos,
            bufs.wf(*cfg),
            channel.max_message_size == old(channel).max_message_size,
            size == batch_enc_size(cfg.leaves as nat, cfg.height as nat),
            first == batch_payload(old(bufs).slots(), tree_id@, *cfg),
            later == batch_payload(zero_slots(*cfg), tree_id@, *cfg),
            base_len == old(channel).messages@.len() as int,
            i == 0 ==> *bufs == *old(bufs) && *channel == *old(channel),
            i > 0 ==> bufs.all_zero(),
            i > 0 ==> {
                &&& old(arena).spec_alloc(spec_batch_heap_bytes(*cfg) as usize, 8) is Some
                &&& size <= cfg.capacity
                &&& noop_program@ == NOOP_PROGRAM_ID@
                &&& size <= old(channel).max_message_size
            },
            channel.messages@.len() == base_len + i,
            forall|i2: int| 0 <= i2 < base_len ==> channel.messages@[i2] == old(
                channel,
            ).messages@[i2],
            forall|i2: int|
                0 <= i2 < i ==> (#[trigger] channel.messages@[base_len + i2])@.payload
                    == invocation_payload(*cfg, tree_id@, old(bufs).slots(), i2),
            forall|i2: int|
                0 <= i2 < i ==> (#[trigger] channel.messages@[base_len + i2])@.authorizer
                    == signer@,
        decreases cfg.batches - i,
    {
        let ghost slots_before = bufs.slots();
        let ghost payload_i = batch_payload(slots_before, tree_id@, *cfg);
        proof {
            lemma_batch_payload_len(*bufs, *cfg, tree_id@);
            if i > 0 {
                lemma_zeroed_slots(*bufs, *cfg);
                assert(payload_i == later);
            } else {
                assert(payload_i == first);
            }
        }
        match append_batch(cfg, arena, bufs, tree_id, noop_program, signer, channel) {
            Ok(()) => {},
            Err(e) => {
                if i == 0 {
                    proof {
                        lemma_batch_payload_len(*old(bufs), *cfg, tree_id@);
                    }
                    return Err(e);
                } else {
                    proof {
                        // A batch after the first repeats the first
                        // batch's conditions exactly, so it cannot fail.
                        assert(false);
                    }
                    return Err(e);
                }
            },
        }
        i = i + 1;
    }
    proof {
        if cfg.batches == 0 {
            assert(*bufs == *old(bufs));
            assert(*channel == *old(channel));
        }
    }
    Ok(())
}

/// Zero-batches-apart isolation: whatever bytes the scratch buffers
/// held when two invocations began, every batch after the first emits
/// the same message body — nothing written before a batch's own zeroed
/// start is observable in it.
pub proof fn lemma_batches_isolated(
    cfg: Config,
    id: Seq<u8>,
    slots_a: Seq<Seq<u8>>,
    slots_b: Seq<Seq<u8>>,
    i: int,
)
    requires
        i >= 1,
    ensures
        invocation_payload(cfg, id, slots_a, i) == invocation_payload(cfg, id, slots_b, i),
{
}

/// Ordering: within one batch, leaf indices are strictly increasing in
/// record order — record `j` always carries leaf index `j`.
pub proof fn lemma_leaf_index_ordering(slots: Seq<Seq<u8>>, id: Seq<u8>, cfg: Config)
    requires
        cfg.wf(),
    ensures
        forall|j1: int, j2: int|
            0 <= j1 < j2 < cfg.leaves ==> (#[trigger] batch_records(
                slots,
                id,
                cfg.leaves as nat,
                cfg.height as nat,
            )[j1]).index < (#[trigger] batch_records(
                slots,
                id,
                cfg.leaves as nat,
                cfg.height as nat,
            )[j2]).index,
{
    let rs = batch_records(slots, id, cfg.leaves as nat, cfg.height as nat);
    assert forall|j1: int, j2: int| 0 <= j1 < j2 < cfg.leaves implies (#[trigger] rs[j1]).index < (
    #[trigger] rs[j2]).index by {
        assert(rs[j1].index == j1 as u32);
        assert(rs[j2].index == j2 as u32);
    }
}

} // verus!

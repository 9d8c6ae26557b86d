//! The scratch buffer set: a fixed array of per-leaf path slots and one
//! serialization buffer, carved from the arena once per invocation and
//! reused destructively by every batch.
//!
//! A path slot holds `height` path nodes back to back, each in 36
//! bytes: the 32 hash bytes, then the node index as 4 little-endian
//! bytes. The slots are never decoded from anywhere; an external
//! collaborator (or test setup) writes nodes in through the typed
//! accessors, and the record builder reads them back out. After each
//! batch's emission every byte of every slot is overwritten with zero,
//! so nothing written during one batch can leak into the next.

use vstd::prelude::*;
use vstd::bytes::{
    spec_u32_from_le_bytes, spec_u32_to_le_bytes, u32_from_le_bytes, u32_to_le_bytes,
    lemma_auto_spec_u32_to_from_le_bytes,
};

use crate::allocator::BumpAllocator;
use crate::event::{NodeModel, PathNode};
use crate::{Config, MyErrorCode};

verus! {

/// In-slot size of one path node: 32 hash bytes and a 4-byte
/// little-endian index. The slot layout coincides with the node's
/// wire-format encoding.
pub const PATH_NODE_SIZE: usize = 36;

/// The node stored at position `k` of a path slot.
pub open spec fn slot_node(slot: Seq<u8>, k: int) -> NodeModel {
    NodeModel {
        node: slot.subrange(36 * k, 36 * k + 32),
        index: spec_u32_from_le_bytes(slot.subrange(36 * k + 32, 36 * k + 36)),
    }
}

/// All `h` nodes stored in a path slot, in order.
pub open spec fn slot_nodes(slot: Seq<u8>, h: nat) -> Seq<NodeModel> {
    Seq::new(h, |k: int| slot_node(slot, k))
}

/// The scratch buffers of one invocation.
pub struct Buffers {
    /// One path slot per leaf of a batch, `36 * height` bytes each.
    pub paths_buffer: Vec<Vec<u8>>,
    /// The buffer the serializer encodes each batch into.
    pub serialization_buffer: Vec<u8>,
}

impl Buffers {
    /// Well-formedness against a configuration: `leaves` path slots of
    /// `36 * height` bytes, and a serialization buffer of `capacity`
    /// bytes.
    pub open spec fn wf(self, cfg: Config) -> bool {
        &&& self.paths_buffer@.len() == cfg.leaves
        &&& forall|j: int|
            0 <= j < cfg.leaves ==> (#[trigger] self.paths_buffer@[j])@.len()
                == cfg.spec_slot_size()
        &&& self.serialization_buffer@.len() == cfg.capacity
    }

    /// The byte contents of all path slots, in slot order.
    pub open spec fn slots(self) -> Seq<Seq<u8>> {
        self.paths_buffer@.map_values(|v: Vec<u8>| v@)
    }

    /// Every byte of every path slot is zero.
    pub open spec fn paths_zero(self) -> bool {
        forall|j: int, i: int|
            0 <= j < self.paths_buffer@.len() && 0 <= i < self.paths_buffer@[j]@.len()
                ==> #[trigger] self.paths_buffer@[j]@[i] == 0
    }

    /// Every byte of the serialization buffer is zero.
    pub open spec fn serialization_zero(self) -> bool {
        forall|i: int|
            0 <= i < self.serialization_buffer@.len() ==> self.serialization_buffer@[i] == 0
    }

    /// Every byte of every scratch buffer is zero.
    pub open spec fn all_zero(self) -> bool {
        self.paths_zero() && self.serialization_zero()
    }

    /// Total bytes of the path-slot array.
    pub open spec fn spec_paths_bytes(cfg: Config) -> int {
        cfg.leaves * cfg.spec_slot_size()
    }

    /// The arena state after carving both scratch allocations out of
    /// `a`, or `None` if the region has too little room.
    pub open spec fn spec_carve(a: BumpAllocator, cfg: Config) -> Option<BumpAllocator> {
        match a.spec_alloc(Self::spec_paths_bytes(cfg) as usize, 8) {
            Some(p1) => {
                let a1 = BumpAllocator { pos: p1, ..a };
                match a1.spec_alloc(cfg.capacity, 8) {
                    Some(p2) => Some(BumpAllocator { pos: p2, ..a1 }),
                    None => None,
                }
            },
            None => None,
        }
    }

    /// Allocates the scratch buffer set from the arena: one allocation
    /// for the path-slot array, one for the serialization buffer. The
    /// buffers start zeroed, as the inbound memory block is. Fails with
    /// `OutOfMemory` — returning the arena to its entry state — if the
    /// region is too small.
    pub fn new(arena: &mut BumpAllocator, cfg: &Config) -> (r: Result<Buffers, MyErrorCode>)
        requires
            old(arena).wf(),
            cfg.wf(),
        ensures
            final(arena).wf(),
            final(arena).start == old(arena).start,
            final(arena).len == old(arena).len,
            match r {
                Ok(b) => {
                    &&& b.wf(*cfg)
                    &&& b.all_zero()
                    &&& Self::spec_carve(*old(arena), *cfg) == Some(*final(arena))
                },
                Err(e) => {
                    &&& e == MyErrorCode::OutOfMemory
                    &&& Self::spec_carve(*old(arena), *cfg) is None
                    &&& final(arena).pos == old(arena).pos
                },
            },
    {
        let checkpoint = arena.get_heap_pos();
        let slot_size = cfg.slot_size();
        proof {
            assert(cfg.leaves * cfg.spec_slot_size() <= 1000 * 36000) by (nonlinear_arith)
                requires
                    cfg.leaves <= 1000,
                    0 <= cfg.spec_slot_size() <= 36000,
            ;
        }
        let paths_bytes = cfg.leaves * slot_size;
        match arena.allocate(paths_bytes, 8) {
            Ok(_) => {},
            Err(e) => {
                return Err(e);
            },
        }
        match arena.allocate(cfg.capacity, 8) {
            Ok(_) => {},
            Err(e) => {
                arena.free_heap(checkpoint);
                return Err(e);
            },
        }
        let mut paths_buffer: Vec<Vec<u8>> = Vec::new();
        let mut j: usize = 0;
        while j < cfg.leaves
            invariant
                j <= cfg.leaves,
                cfg.wf(),
                slot_size == cfg.spec_slot_size(),
                paths_buffer@.len() == j,
                forall|j2: int|
                    0 <= j2 < j ==> (#[trigger] paths_buffer@[j2])@.len() == cfg.spec_slot_size(),
                forall|j2: int, i: int|
                    0 <= j2 < j && 0 <= i < paths_buffer@[j2]@.len()
                        ==> #[trigger] paths_buffer@[j2]@[i] == 0,
            decreases cfg.leaves - j,
        {
            paths_buffer.push(zeroed_vec(slot_size));
            j = j + 1;
        }
        let serialization_buffer = zeroed_vec(cfg.capacity);
        Ok(Buffers { paths_buffer, serialization_buffer })
    }

    /// Reads the path node at position `k` of path slot `j` out of the
    /// raw slot bytes.
    pub fn get_path_node(&self, cfg: &Config, j: usize, k: usize) -> (r: PathNode)
        requires
            self.wf(*cfg),
            cfg.wf(),
            j < cfg.leaves,
            k < cfg.height,
        ensures
            r@ == slot_node(self.paths_buffer@[j as int]@, k as int),
    {
        let base = k * PATH_NODE_SIZE;
        let slot: &Vec<u8> = &self.paths_buffer[j];
        let mut node: [u8; 32] = [0u8; 32];
        let mut i: usize = 0;
        while i < 32
            invariant
                i <= 32,
                base == 36 * k,
                k < cfg.height,
                cfg.wf(),
                slot@.len() == cfg.spec_slot_size(),
                node@.len() == 32,
                forall|i2: int| 0 <= i2 < i ==> node@[i2] == slot@[base + i2],
            decreases 32 - i,
        {
            node[i] = slot[base + i];
            i = i + 1;
        }
        let mut index_bytes: Vec<u8> = Vec::new();
        index_bytes.push(slot[base + 32]);
        index_bytes.push(slot[base + 33]);
        index_bytes.push(slot[base + 34]);
        index_bytes.push(slot[base + 35]);
        let index = u32_from_le_bytes(index_bytes.as_slice());
        proof {
            assert(node@ =~= slot@.subrange(36 * k, 36 * k + 32));
            assert(index_bytes@ =~= slot@.subrange(36 * k + 32, 36 * k + 36));
        }
        PathNode { node, index }
    }

    /// Writes `node` into position `k` of path slot `j`, touching
    /// exactly the 36 bytes of that node's sub-slot.
    pub fn set_path_node(&mut self, cfg: &Config, j: usize, k: usize, node: &PathNode)
        requires
            old(self).wf(*cfg),
            cfg.wf(),
            j < cfg.leaves,
            k < cfg.height,
        ensures
            final(self).wf(*cfg),
            final(self).serialization_buffer == old(self).serialization_buffer,
            final(self).paths_buffer@.len() == old(self).paths_buffer@.len(),
            forall|j2: int|
                0 <= j2 < cfg.leaves && j2 != j ==> final(self).paths_buffer@[j2] == old(
                    self,
                ).paths_buffer@[j2],
            final(self).paths_buffer@[j as int]@ == old(self).paths_buffer@[j as int]@.subrange(
                0,
                36 * k,
            ) + node.node@ + spec_u32_to_le_bytes(node.index) + old(
                self,
            ).paths_buffer@[j as int]@.subrange(36 * k + 36, cfg.spec_slot_size()),
            slot_node(final(self).paths_buffer@[j as int]@, k as int) == node@,
    {
        let ghost old_slot = self.paths_buffer@[j as int]@;
        let base = k * PATH_NODE_SIZE;
        let mut slot: Vec<u8> = self.paths_buffer.remove(j);
        let mut i: usize = 0;
        while i < 32
            invariant
                i <= 32,
                base == 36 * k,
                k < cfg.height,
                cfg.wf(),
                slot@.len() == old_slot.len(),
                old_slot.len() == cfg.spec_slot_size(),
                node.node@.len() == 32,
                forall|i2: int| 0 <= i2 < i ==> slot@[base + i2] == node.node@[i2],
                forall|i2: int|
                    0 <= i2 < old_slot.len() && !(base <= i2 < base + i) ==> slot@[i2]
                        == old_slot[i2],
            decreases 32 - i,
        {
            slot.set(base + i, node.node[i]);
            i = i + 1;
        }
        let index_bytes = u32_to_le_bytes(node.index);
        proof {
            lemma_auto_spec_u32_to_from_le_bytes();
        }
        slot.set(base + 32, index_bytes[0]);
        slot.set(base + 33, index_bytes[1]);
        slot.set(base + 34, index_bytes[2]);
        slot.set(base + 35, index_bytes[3]);
        self.paths_buffer.insert(j, slot);
        proof {
            lemma_auto_spec_u32_to_from_le_bytes();
            let new_slot = self.paths_buffer@[j as int]@;
            assert(new_slot =~= old_slot.subrange(0, 36 * (k as int)) + node.node@
                + spec_u32_to_le_bytes(node.index) + old_slot.subrange(
                36 * (k as int) + 36,
                cfg.spec_slot_size(),
            ));
            assert(new_slot.subrange(36 * (k as int), 36 * (k as int) + 32) =~= node.node@);
            assert(new_slot.subrange(36 * (k as int) + 32, 36 * (k as int) + 36)
                =~= spec_u32_to_le_bytes(node.index));
        }
    }

    /// Overwrites every byte of every scratch buffer with zero: the
    /// hygiene step between batches, preventing one batch's writes from
    /// being observable in the next.
    pub fn zero_buffers(&mut self, cfg: &Config)
        requires
            old(self).wf(*cfg),
            cfg.wf(),
        ensures
            final(self).wf(*cfg),
            final(self).all_zero(),
    {
        let slot_size = cfg.slot_size();
        let mut j: usize = 0;
        while j < self.paths_buffer.len()
            invariant
                cfg.wf(),
                self.wf(*cfg),
                slot_size == cfg.spec_slot_size(),
                j <= self.paths_buffer@.len(),
                forall|j2: int, i: int|
                    0 <= j2 < j && 0 <= i < self.paths_buffer@[j2]@.len()
                        ==> #[trigger] self.paths_buffer@[j2]@[i] == 0,
            decreases self.paths_buffer@.len() - j,
        {
            self.paths_buffer.set(j, zeroed_vec(slot_size));
            j = j + 1;
        }
        let capacity = self.serialization_buffer.len();
        self.serialization_buffer = zeroed_vec(capacity);
    }
}

/// A fresh all-zero byte buffer of length `n`.
pub fn zeroed_vec(n: usize) -> (r: Vec<u8>)
    ensures
        r@.len() == n,
        forall|i: int| 0 <= i < n ==> r@[i] == 0,
{
    let mut v: Vec<u8> = Vec::new();
    while v.len() < n
        invariant
            v@.len() <= n,
            forall|i: int| 0 <= i < v@.len() ==> v@[i] == 0,
        decreases n - v@.len(),
    {
        v.push(0u8);
    }
    v
}

} // verus!

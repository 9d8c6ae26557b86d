//! The record builder: turns the raw bytes of one path slot, a tree
//! identity, a sequence number and a leaf index into one changelog
//! record — through the bounds-checked typed accessors of the scratch
//! buffers, never by reinterpreting memory.

use vstd::prelude::*;

use crate::buffers::{slot_node, slot_nodes, Buffers};
use crate::encode::{batch_shape, node_wf, path_wf, record_shape};
use crate::event::{ChangelogEvent, ChangelogEventV1, NodeModel, PathNode, RecordModel};
use crate::Config;

verus! {

/// The record that a populated path slot describes: the slot's `h`
/// nodes as the record's single path, under the given identity,
/// sequence number and index.
pub open spec fn slot_record(
    slot: Seq<u8>,
    id: Seq<u8>,
    seq_no: u64,
    index: u32,
    h: nat,
) -> RecordModel {
    RecordModel { id: id, paths: seq![slot_nodes(slot, h)], seq: seq_no, index: index }
}

/// The records of one whole batch: record `j` is built from path slot
/// `j`, with sequence number and index both `j`.
pub open spec fn batch_records(slots: Seq<Seq<u8>>, id: Seq<u8>, l: nat, h: nat) -> Seq<
    RecordModel,
> {
    Seq::new(l, |j: int| slot_record(slots[j], id, j as u64, j as u32, h))
}

/// A record built from a full-sized slot has the pipeline's record
/// shape.
pub proof fn lemma_slot_record_shape(slot: Seq<u8>, id: Seq<u8>, seq_no: u64, index: u32, h: nat)
    requires
        slot.len() == 36 * h,
        id.len() == 32,
    ensures
        record_shape(slot_record(slot, id, seq_no, index, h), h),
{
    let r = slot_record(slot, id, seq_no, index, h);
    assert forall|k: int| 0 <= k < h implies node_wf(#[trigger] slot_nodes(slot, h)[k]) by {
        assert(slot_nodes(slot, h)[k] == slot_node(slot, k));
    }
    assert(path_wf(r.paths[0], h));
}

/// A whole batch built from full-sized slots has the batch shape.
pub proof fn lemma_batch_records_shape(slots: Seq<Seq<u8>>, id: Seq<u8>, l: nat, h: nat)
    requires
        slots.len() == l,
        forall|j: int| 0 <= j < l ==> (#[trigger] slots[j]).len() == 36 * h,
        id.len() == 32,
    ensures
        batch_shape(batch_records(slots, id, l, h), l, h),
{
    let rs = batch_records(slots, id, l, h);
    assert forall|j: int| 0 <= j < l implies record_shape(#[trigger] rs[j], h) by {
        lemma_slot_record_shape(slots[j], id, j as u64, j as u32, h);
    }
}

/// Builds the changelog record for path slot `j`: the slot's nodes as
/// the record's single path, the given tree identity, and the given
/// sequence number and leaf index.
pub fn build_record(
    bufs: &Buffers,
    cfg: &Config,
    j: usize,
    tree_id: &[u8; 32],
    seq_no: u64,
    index: u32,
) -> (r: ChangelogEventV1)
    requires
        bufs.wf(*cfg),
        cfg.wf(),
        j < cfg.leaves,
    ensures
        r@ == slot_record(bufs.slots()[j as int], tree_id@, seq_no, index, cfg.height as nat),
{
    let mut path: Vec<PathNode> = Vec::new();
    let mut k: usize = 0;
    while k < cfg.height
        invariant
            k <= cfg.height,
            bufs.wf(*cfg),
            cfg.wf(),
            j < cfg.leaves,
            path@.len() == k,
            forall|k2: int|
                0 <= k2 < k ==> (#[trigger] path@[k2])@ == slot_node(
                    bufs.paths_buffer@[j as int]@,
                    k2,
                ),
        decreases cfg.height - k,
    {
        let node = bufs.get_path_node(cfg, j, k);
        path.push(node);
        k = k + 1;
    }
    let mut paths: Vec<Vec<PathNode>> = Vec::new();
    paths.push(path);
    let r = ChangelogEventV1 { id: *tree_id, paths, seq: seq_no, index };
    proof {
        let slot = bufs.paths_buffer@[j as int]@;
        assert(bufs.slots()[j as int] == slot);
        let h = cfg.height as nat;
        assert(r@.paths.len() == 1);
        assert(r@.paths[0] =~= slot_nodes(slot, h));
        assert(r@.paths =~= seq![slot_nodes(slot, h)]);
        assert(r@ == slot_record(slot, tree_id@, seq_no, index, h));
    }
    r
}

/// Builds the full batch of records for one emission: record `j` comes
/// from path slot `j`, with sequence number and index both `j` — so
/// leaf indices increase strictly in record order.
pub fn build_batch(bufs: &Buffers, cfg: &Config, tree_id: &[u8; 32]) -> (r: crate::event::Changelogs)
    requires
        bufs.wf(*cfg),
        cfg.wf(),
    ensures
        r@ == batch_records(bufs.slots(), tree_id@, cfg.leaves as nat, cfg.height as nat),
{
    let mut changelogs: Vec<ChangelogEvent> = Vec::new();
    let mut j: usize = 0;
    while j < cfg.leaves
        invariant
            j <= cfg.leaves,
            bufs.wf(*cfg),
            cfg.wf(),
            changelogs@.len() == j,
            forall|j2: int|
                0 <= j2 < j ==> (#[trigger] changelogs@[j2])@ == slot_record(
                    bufs.slots()[j2],
                    tree_id@,
                    j2 as u64,
                    j2 as u32,
                    cfg.height as nat,
                ),
        decreases cfg.leaves - j,
    {
        let record = build_record(bufs, cfg, j, tree_id, j as u64, j as u32);
        changelogs.push(ChangelogEvent::V1(record));
        j = j + 1;
    }
    let r = crate::event::Changelogs { changelogs };
    proof {
        assert(r@ =~= batch_records(bufs.slots(), tree_id@, cfg.leaves as nat, cfg.height as nat));
    }
    r
}

} // verus!

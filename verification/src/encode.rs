//! The batch wire format, as a mathematical function from records to
//! bytes.
//!
//! A serialized batch is a length-prefixed sequence of records. Each
//! record is a one-byte version tag, the 32-byte tree identity, a
//! length-prefixed sequence of Merkle paths (each itself a
//! length-prefixed sequence of 36-byte path nodes), the 8-byte sequence
//! number and the 4-byte record index. All numeric fields and length
//! prefixes are fixed-width little-endian.

use vstd::prelude::*;
use vstd::bytes::{
    spec_u32_to_le_bytes, spec_u64_to_le_bytes, lemma_auto_spec_u32_to_from_le_bytes,
    lemma_auto_spec_u64_to_from_le_bytes,
};

use crate::event::{NodeModel, RecordModel};

verus! {

/// Version tag of a version-1 record.
pub const V1_TAG: u8 = 0;

/// Encoded size of one path node: 32 hash bytes and a 4-byte index.
pub const NODE_ENC_SIZE: usize = 36;

/// A node model is well formed when its hash has exactly 32 bytes.
pub open spec fn node_wf(n: NodeModel) -> bool {
    n.node.len() == 32
}

/// A path of height `h`: exactly `h` well-formed nodes.
pub open spec fn path_wf(p: Seq<NodeModel>, h: nat) -> bool {
    &&& p.len() == h
    &&& forall|k: int| 0 <= k < p.len() ==> node_wf(#[trigger] p[k])
}

/// The shape every record of this pipeline has: a 32-byte identity and
/// exactly one path of height `h`.
pub open spec fn record_shape(r: RecordModel, h: nat) -> bool {
    &&& r.id.len() == 32
    &&& r.paths.len() == 1
    &&& path_wf(r.paths[0], h)
}

/// The shape of a full batch: exactly `l` records of height `h`.
pub open spec fn batch_shape(rs: Seq<RecordModel>, l: nat, h: nat) -> bool {
    &&& rs.len() == l
    &&& forall|j: int| 0 <= j < rs.len() ==> record_shape(#[trigger] rs[j], h)
}

/// A path whose length fits a length prefix and whose nodes are well
/// formed — the shape any height admits.
pub open spec fn path_bounded(p: Seq<NodeModel>) -> bool {
    &&& p.len() <= u32::MAX
    &&& forall|k: int| 0 <= k < p.len() ==> node_wf(#[trigger] p[k])
}

/// A record the wire format can carry: a 32-byte identity and bounded
/// paths.
pub open spec fn record_bounded(r: RecordModel) -> bool {
    &&& r.id.len() == 32
    &&& r.paths.len() <= u32::MAX
    &&& forall|p: int| 0 <= p < r.paths.len() ==> path_bounded(#[trigger] r.paths[p])
}

/// A record sequence the wire format can carry.
pub open spec fn records_bounded(rs: Seq<RecordModel>) -> bool {
    &&& rs.len() <= u32::MAX
    &&& forall|j: int| 0 <= j < rs.len() ==> record_bounded(#[trigger] rs[j])
}

/// Every batch of the pipeline's shape is one the wire format carries.
pub proof fn lemma_batch_shape_bounded(rs: Seq<RecordModel>, l: nat, h: nat)
    requires
        batch_shape(rs, l, h),
        l <= u32::MAX,
        h <= u32::MAX,
    ensures
        records_bounded(rs),
{
    assert forall|j: int| 0 <= j < rs.len() implies record_bounded(#[trigger] rs[j]) by {
        assert(record_shape(rs[j], h));
        assert forall|p: int| 0 <= p < rs[j].paths.len() implies path_bounded(
            #[trigger] rs[j].paths[p],
        ) by {
            assert(path_wf(rs[j].paths[0], h));
        }
    }
}

/// Encoding of one path node: hash bytes, then the index.
pub open spec fn enc_node(n: NodeModel) -> Seq<u8> {
    n.node + spec_u32_to_le_bytes(n.index)
}

/// Concatenated encodings of a sequence of nodes.
pub open spec fn enc_nodes(ns: Seq<NodeModel>) -> Seq<u8>
    decreases ns.len(),
{
    if ns.len() == 0 {
        Seq::empty()
    } else {
        enc_node(ns[0]) + enc_nodes(ns.skip(1))
    }
}

/// Encoding of one path: a length prefix, then the nodes.
pub open spec fn enc_path(p: Seq<NodeModel>) -> Seq<u8>
    recommends
        p.len() <= u32::MAX,
{
    spec_u32_to_le_bytes(p.len() as u32) + enc_nodes(p)
}

/// Concatenated encodings of a sequence of paths.
pub open spec fn enc_paths(ps: Seq<Seq<NodeModel>>) -> Seq<u8>
    decreases ps.len(),
{
    if ps.len() == 0 {
        Seq::empty()
    } else {
        enc_path(ps[0]) + enc_paths(ps.skip(1))
    }
}

/// Encoding of one record: version tag, identity, length-prefixed
/// paths, sequence number, record index — in that order.
pub open spec fn enc_record(r: RecordModel) -> Seq<u8>
    recommends
        r.paths.len() <= u32::MAX,
{
    seq![V1_TAG] + r.id + spec_u32_to_le_bytes(r.paths.len() as u32) + enc_paths(r.paths)
        + spec_u64_to_le_bytes(r.seq) + spec_u32_to_le_bytes(r.index)
}

/// Concatenated encodings of a sequence of records.
pub open spec fn enc_records(rs: Seq<RecordModel>) -> Seq<u8>
    decreases rs.len(),
{
    if rs.len() == 0 {
        Seq::empty()
    } else {
        enc_record(rs[0]) + enc_records(rs.skip(1))
    }
}

/// Encoding of a whole batch: a record-count prefix, then the records.
pub open spec fn enc_changelogs(rs: Seq<RecordModel>) -> Seq<u8>
    recommends
        rs.len() <= u32::MAX,
{
    spec_u32_to_le_bytes(rs.len() as u32) + enc_records(rs)
}

/// Encoded size of one record of height `h`.
pub open spec fn record_enc_size(h: nat) -> int {
    53 + 36 * (h as int)
}

/// Encoded size of a full batch of `l` records of height `h`.
pub open spec fn batch_enc_size(l: nat, h: nat) -> int {
    4 + (l as int) * record_enc_size(h)
}

/// A well-formed node encodes to exactly `NODE_ENC_SIZE` bytes.
pub proof fn lemma_enc_node_len(n: NodeModel)
    requires
        node_wf(n),
    ensures
        enc_node(n).len() == NODE_ENC_SIZE,
{
    lemma_auto_spec_u32_to_from_le_bytes();
}

/// A sequence of well-formed nodes encodes to 36 bytes per node.
pub proof fn lemma_enc_nodes_len(ns: Seq<NodeModel>)
    requires
        forall|k: int| 0 <= k < ns.len() ==> node_wf(#[trigger] ns[k]),
    ensures
        enc_nodes(ns).len() == NODE_ENC_SIZE * ns.len(),
    decreases ns.len(),
{
    if ns.len() > 0 {
        lemma_enc_node_len(ns[0]);
        lemma_enc_nodes_len(ns.skip(1));
    }
}

/// Appending one node appends its encoding.
pub proof fn lemma_enc_nodes_snoc(ns: Seq<NodeModel>, n: NodeModel)
    ensures
        enc_nodes(ns.push(n)) == enc_nodes(ns) + enc_node(n),
    decreases ns.len(),
{
    if ns.len() == 0 {
        assert(ns.push(n)[0] == n);
        assert(ns.push(n).skip(1) =~= Seq::<NodeModel>::empty());
        assert(enc_nodes(Seq::<NodeModel>::empty()) == Seq::<u8>::empty());
        assert(enc_nodes(ns.push(n)) =~= enc_node(n));
        assert(enc_nodes(ns) + enc_node(n) =~= enc_node(n));
    } else {
        assert(ns.push(n)[0] == ns[0]);
        assert(ns.push(n).skip(1) =~= ns.skip(1).push(n));
        lemma_enc_nodes_snoc(ns.skip(1), n);
        assert(enc_nodes(ns.push(n)) =~= enc_nodes(ns) + enc_node(n));
    }
}

/// Appending one path appends its encoding.
pub proof fn lemma_enc_paths_snoc(ps: Seq<Seq<NodeModel>>, p: Seq<NodeModel>)
    ensures
        enc_paths(ps.push(p)) == enc_paths(ps) + enc_path(p),
    decreases ps.len(),
{
    if ps.len() == 0 {
        assert(ps.push(p)[0] == p);
        assert(ps.push(p).skip(1) =~= Seq::<Seq<NodeModel>>::empty());
        assert(enc_paths(Seq::<Seq<NodeModel>>::empty()) == Seq::<u8>::empty());
        assert(enc_paths(ps.push(p)) =~= enc_path(p));
        assert(enc_paths(ps) + enc_path(p) =~= enc_path(p));
    } else {
        assert(ps.push(p)[0] == ps[0]);
        assert(ps.push(p).skip(1) =~= ps.skip(1).push(p));
        lemma_enc_paths_snoc(ps.skip(1), p);
        assert(enc_paths(ps.push(p)) =~= enc_paths(ps) + enc_path(p));
    }
}

/// A record of height `h` encodes to exactly `record_enc_size(h)` bytes.
pub proof fn lemma_enc_record_len(r: RecordModel, h: nat)
    requires
        record_shape(r, h),
    ensures
        enc_record(r).len() == record_enc_size(h),
{
    lemma_auto_spec_u32_to_from_le_bytes();
    lemma_auto_spec_u64_to_from_le_bytes();
    lemma_enc_nodes_len(r.paths[0]);
    assert(r.paths.skip(1) =~= Seq::<Seq<NodeModel>>::empty());
    assert(enc_paths(Seq::<Seq<NodeModel>>::empty()) == Seq::<u8>::empty());
    assert(enc_paths(r.paths) == enc_path(r.paths[0]) + enc_paths(r.paths.skip(1)));
}

/// Records of height `h` encode to `record_enc_size(h)` bytes each.
pub proof fn lemma_enc_records_len(rs: Seq<RecordModel>, h: nat)
    requires
        forall|j: int| 0 <= j < rs.len() ==> record_shape(#[trigger] rs[j], h),
    ensures
        enc_records(rs).len() == rs.len() * record_enc_size(h),
    decreases rs.len(),
{
    if rs.len() == 0 {
        assert(rs.len() * record_enc_size(h) == 0);
    } else {
        lemma_enc_record_len(rs[0], h);
        lemma_enc_records_len(rs.skip(1), h);
        assert(rs.len() * record_enc_size(h) == record_enc_size(h) + (rs.len() - 1)
            * record_enc_size(h)) by (nonlinear_arith);
    }
}

/// Appending one record appends its encoding.
pub proof fn lemma_enc_records_snoc(rs: Seq<RecordModel>, r: RecordModel)
    ensures
        enc_records(rs.push(r)) == enc_records(rs) + enc_record(r),
    decreases rs.len(),
{
    if rs.len() == 0 {
        assert(rs.push(r)[0] == r);
        assert(rs.push(r).skip(1) =~= Seq::<RecordModel>::empty());
        assert(enc_records(Seq::<RecordModel>::empty()) == Seq::<u8>::empty());
        assert(enc_records(rs.push(r)) =~= enc_record(r));
        assert(enc_records(rs) + enc_record(r) =~= enc_record(r));
    } else {
        assert(rs.push(r)[0] == rs[0]);
        assert(rs.push(r).skip(1) =~= rs.skip(1).push(r));
        lemma_enc_records_snoc(rs.skip(1), r);
        assert(enc_records(rs.push(r)) =~= enc_records(rs) + enc_record(r));
    }
}

/// Serializer size bound, configuration side: a full batch of `l`
/// records of height `h` encodes to exactly `batch_enc_size(l, h)`
/// bytes.
pub proof fn lemma_enc_changelogs_len(rs: Seq<RecordModel>, l: nat, h: nat)
    requires
        batch_shape(rs, l, h),
    ensures
        enc_changelogs(rs).len() == batch_enc_size(l, h),
{
    lemma_auto_spec_u32_to_from_le_bytes();
    lemma_enc_records_len(rs, h);
}

} // verus!

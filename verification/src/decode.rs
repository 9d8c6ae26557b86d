//! A decoder for the batch wire format, for consumers that rebuild the
//! update stream from emitted messages. It accepts exactly the
//! encodings of `encode`: whenever it returns a batch, re-encoding that
//! batch reproduces the input bytes verbatim, and whenever the input is
//! the encoding of some well-formed record sequence, it succeeds.

use vstd::prelude::*;
use vstd::bytes::{
    spec_u32_to_le_bytes, spec_u64_to_le_bytes, u32_from_le_bytes, u64_from_le_bytes,
    lemma_auto_spec_u32_to_from_le_bytes, lemma_auto_spec_u64_to_from_le_bytes,
};

use crate::encode::{
    enc_changelogs, enc_node, enc_nodes, enc_path, enc_paths, enc_record, enc_records,
    lemma_enc_nodes_snoc, lemma_enc_paths_snoc, lemma_enc_records_snoc, node_wf, path_bounded,
    record_bounded, records_bounded, V1_TAG,
};
use crate::event::{ChangelogEvent, ChangelogEventV1, Changelogs, NodeModel, PathNode};

verus! {

/// Reads the little-endian 4-byte integer at `off`.
fn read_u32_at(bytes: &Vec<u8>, off: usize) -> (r: u32)
    requires
        off + 4 <= bytes.len(),
    ensures
        spec_u32_to_le_bytes(r) == bytes@.subrange(off as int, off as int + 4),
{
    let mut b: Vec<u8> = Vec::new();
    b.push(bytes[off]);
    b.push(bytes[off + 1]);
    b.push(bytes[off + 2]);
    b.push(bytes[off + 3]);
    proof {
        assert(b@ =~= bytes@.subrange(off as int, off as int + 4));
        lemma_auto_spec_u32_to_from_le_bytes();
    }
    u32_from_le_bytes(b.as_slice())
}

/// Reads the little-endian 8-byte integer at `off`.
fn read_u64_at(bytes: &Vec<u8>, off: usize) -> (r: u64)
    requires
        off + 8 <= bytes.len(),
    ensures
        spec_u64_to_le_bytes(r) == bytes@.subrange(off as int, off as int + 8),
{
    let mut b: Vec<u8> = Vec::new();
    let mut i: usize = 0;
    while i < 8
        invariant
            i <= 8,
            off + 8 <= bytes.len(),
            b@.len() == i,
            forall|i2: int| 0 <= i2 < i ==> b@[i2] == bytes@[off + i2],
        decreases 8 - i,
    {
        b.push(bytes[off + i]);
        i = i + 1;
    }
    proof {
        assert(b@ =~= bytes@.subrange(off as int, off as int + 8));
        lemma_auto_spec_u64_to_from_le_bytes();
    }
    u64_from_le_bytes(b.as_slice())
}

/// Reads the 32-byte block at `off`.
fn read_array32_at(bytes: &Vec<u8>, off: usize) -> (r: [u8; 32])
    requires
        off + 32 <= bytes.len(),
    ensures
        r@ == bytes@.subrange(off as int, off as int + 32),
{
    let mut a: [u8; 32] = [0u8; 32];
    let mut i: usize = 0;
    while i < 32
        invariant
            i <= 32,
            off + 32 <= bytes.len(),
            a@.len() == 32,
            forall|i2: int| 0 <= i2 < i ==> a@[i2] == bytes@[off + i2],
        decreases 32 - i,
    {
        a[i] = bytes[off + i];
        i = i + 1;
    }
    proof {
        assert(a@ =~= bytes@.subrange(off as int, off as int + 32));
    }
    a
}

/// Reads the 36-byte path node at `off`.
fn read_node_at(bytes: &Vec<u8>, off: usize) -> (r: PathNode)
    requires
        off + 36 <= bytes.len(),
    ensures
        enc_node(r@) == bytes@.subrange(off as int, off as int + 36),
{
    let node = read_array32_at(bytes, off);
    let index = read_u32_at(bytes, off + 32);
    let r = PathNode { node, index };
    proof {
        assert(enc_node(r@) =~= bytes@.subrange(off as int, off as int + 36));
    }
    r
}

/// Splitting off a known prefix: if the bytes from `c` on are `a + b`,
/// then `a` sits at `c` and `b` right after it.
proof fn lemma_peel(bytes: Seq<u8>, c: int, a: Seq<u8>, b: Seq<u8>)
    requires
        0 <= c <= bytes.len(),
        bytes.subrange(c, bytes.len() as int) == a + b,
    ensures
        bytes.len() - c == a.len() + b.len(),
        bytes.subrange(c, c + a.len()) == a,
        bytes.subrange(c + a.len(), bytes.len() as int) == b,
{
    let s = bytes.subrange(c, bytes.len() as int);
    assert(s.len() == a.len() + b.len());
    assert forall|i: int| 0 <= i < a.len() implies bytes[c + i] == a[i] by {
        assert(s[i] == (a + b)[i]);
    }
    assert forall|i: int| 0 <= i < b.len() implies bytes[c + a.len() + i] == b[i] by {
        assert(s[a.len() + i] == (a + b)[a.len() + i]);
    }
    assert(bytes.subrange(c, c + a.len()) =~= a);
    assert(bytes.subrange(c + a.len(), bytes.len() as int) =~= b);
}

/// Two well-formed nodes with the same encoding are the same node.
proof fn lemma_enc_node_injective(a: NodeModel, b: NodeModel)
    requires
        node_wf(a),
        node_wf(b),
        enc_node(a) == enc_node(b),
    ensures
        a == b,
{
    lemma_auto_spec_u32_to_from_le_bytes();
    assert(a.node =~= enc_node(a).subrange(0, 32));
    assert(b.node =~= enc_node(b).subrange(0, 32));
    assert(spec_u32_to_le_bytes(a.index) =~= enc_node(a).subrange(32, 36));
    assert(spec_u32_to_le_bytes(b.index) =~= enc_node(b).subrange(32, 36));
}

/// Decodes one batch from `bytes`, which must hold exactly one
/// encoding and nothing after it. Whenever a batch comes back,
/// re-encoding it reproduces `bytes` verbatim — the decoder accepts no
/// other input. And whenever `bytes` is the encoding of some
/// well-formed record sequence, the decoder succeeds: success is owed
/// exactly on the wire format's image.
#[verifier::rlimit(60)]
pub fn deserialize_changelogs(bytes: &Vec<u8>) -> (r: Option<Changelogs>)
    ensures
        match r {
            Some(c) => enc_changelogs(c@) == bytes@,
            None => true,
        },
        (exists|rs: Seq<crate::event::RecordModel>|
            records_bounded(rs) && bytes@ == #[trigger] enc_changelogs(rs)) ==> r is Some,
{
    let ghost h = exists|rs: Seq<crate::event::RecordModel>|
        records_bounded(rs) && bytes@ == #[trigger] enc_changelogs(rs);
    let ghost rs = choose|rs: Seq<crate::event::RecordModel>|
        records_bounded(rs) && bytes@ == enc_changelogs(rs);
    proof {
        lemma_auto_spec_u32_to_from_le_bytes();
        lemma_auto_spec_u64_to_from_le_bytes();
        if h {
            assert(bytes@ == enc_changelogs(rs));
            assert(bytes@.subrange(0, bytes@.len() as int) =~= bytes@);
            lemma_peel(bytes@, 0, spec_u32_to_le_bytes(rs.len() as u32), enc_records(rs));
        }
    }
    if bytes.len() < 4 {
        return None;
    }
    let n = read_u32_at(bytes, 0);
    proof {
        if h {
            assert(spec_u32_to_le_bytes(n) == spec_u32_to_le_bytes(rs.len() as u32));
            assert(n == rs.len());
            assert(rs.skip(0) =~= rs);
        }
    }
    let mut records: Vec<ChangelogEvent> = Vec::new();
    let mut cursor: usize = 4;
    let mut j: u32 = 0;
    while j < n
        invariant
            j <= n,
            4 <= cursor <= bytes@.len(),
            records@.len() == j,
            spec_u32_to_le_bytes(n) == bytes@.subrange(0, 4),
            enc_records(records@.map_values(|e: ChangelogEvent| e@)) == bytes@.subrange(
                4,
                cursor as int,
            ),
            h == (exists|rs2: Seq<crate::event::RecordModel>|
                records_bounded(rs2) && bytes@ == #[trigger] enc_changelogs(rs2)),
            h ==> records_bounded(rs) && bytes@ == enc_changelogs(rs),
            h ==> n == rs.len(),
            h ==> records@.map_values(|e: ChangelogEvent| e@) == rs.take(j as int),
            h ==> bytes@.subrange(cursor as int, bytes@.len() as int) == enc_records(
                rs.skip(j as int),
            ),
        decreases n - j,
    {
        let ghost rs_before = records@.map_values(|e: ChangelogEvent| e@);
        let ghost rec = rs[j as int];
        let ghost pw = rec.paths;
        let ghost rest = enc_records(rs.skip(j as int + 1));
        proof {
            lemma_auto_spec_u32_to_from_le_bytes();
            lemma_auto_spec_u64_to_from_le_bytes();
            if h {
                assert(record_bounded(rec));
                assert(rs.skip(j as int)[0] == rec);
                assert(rs.skip(j as int).skip(1) =~= rs.skip(j as int + 1));
                assert(enc_records(rs.skip(j as int)) == enc_record(rec) + rest);
                assert(enc_record(rec) + rest =~= seq![V1_TAG] + (rec.id + (spec_u32_to_le_bytes(
                    pw.len() as u32,
                ) + (enc_paths(pw) + (spec_u64_to_le_bytes(rec.seq) + (spec_u32_to_le_bytes(
                    rec.index,
                ) + rest))))));
                lemma_peel(
                    bytes@,
                    cursor as int,
                    seq![V1_TAG],
                    rec.id + (spec_u32_to_le_bytes(pw.len() as u32) + (enc_paths(pw) + (
                    spec_u64_to_le_bytes(rec.seq) + (spec_u32_to_le_bytes(rec.index) + rest)))),
                );
                assert(bytes@[cursor as int] == bytes@.subrange(
                    cursor as int,
                    cursor as int + 1,
                )[0]);
            }
        }
        let rec_start = cursor;
        if bytes.len() - cursor < 1 {
            return None;
        }
        let tag = bytes[cursor];
        if tag != V1_TAG {
            return None;
        }
        cursor = cursor + 1;
        proof {
            if h {
                lemma_peel(
                    bytes@,
                    cursor as int,
                    rec.id,
                    spec_u32_to_le_bytes(pw.len() as u32) + (enc_paths(pw) + (
                    spec_u64_to_le_bytes(rec.seq) + (spec_u32_to_le_bytes(rec.index) + rest))),
                );
            }
        }
        if bytes.len() - cursor < 32 {
            return None;
        }
        let id = read_array32_at(bytes, cursor);
        cursor = cursor + 32;
        proof {
            if h {
                assert(id@ == rec.id);
                lemma_peel(
                    bytes@,
                    cursor as int,
                    spec_u32_to_le_bytes(pw.len() as u32),
                    enc_paths(pw) + (spec_u64_to_le_bytes(rec.seq) + (spec_u32_to_le_bytes(
                        rec.index,
                    ) + rest)),
                );
            }
        }
        if bytes.len() - cursor < 4 {
            return None;
        }
        let n_paths = read_u32_at(bytes, cursor);
        cursor = cursor + 4;
        proof {
            if h {
                assert(spec_u32_to_le_bytes(n_paths) == spec_u32_to_le_bytes(pw.len() as u32));
                assert(n_paths == pw.len());
                assert(pw.skip(0) =~= pw);
            }
        }
        let ghost paths_start = cursor as int;
        let mut paths: Vec<Vec<PathNode>> = Vec::new();
        let mut p: u32 = 0;
        while p < n_paths
            invariant
                p <= n_paths,
                4 <= paths_start <= cursor <= bytes@.len(),
                paths@.len() == p,
                enc_paths(
                    paths@.map_values(
                        |q: Vec<PathNode>| q@.map_values(|nd: PathNode| nd@),
                    ),
                ) == bytes@.subrange(paths_start, cursor as int),
                h == (exists|rs2: Seq<crate::event::RecordModel>|
                    records_bounded(rs2) && bytes@ == #[trigger] enc_changelogs(rs2)),
                h ==> record_bounded(rec) && pw == rec.paths && n_paths == pw.len(),
                h ==> paths@.map_values(
                    |q: Vec<PathNode>| q@.map_values(|nd: PathNode| nd@),
                ) == pw.take(p as int),
                h ==> bytes@.subrange(cursor as int, bytes@.len() as int) == enc_paths(
                    pw.skip(p as int),
                ) + (spec_u64_to_le_bytes(rec.seq) + (spec_u32_to_le_bytes(rec.index)
                    + enc_records(rs.skip(j as int + 1)))),
            decreases n_paths - p,
        {
            let ghost ps_before = paths@.map_values(
                |q: Vec<PathNode>| q@.map_values(|nd: PathNode| nd@),
            );
            let ghost pv = pw[p as int];
            let ghost path_tail = enc_paths(pw.skip(p as int + 1)) + (spec_u64_to_le_bytes(
                rec.seq,
            ) + (spec_u32_to_le_bytes(rec.index) + enc_records(rs.skip(j as int + 1))));
            proof {
                lemma_auto_spec_u32_to_from_le_bytes();
                if h {
                    assert(path_bounded(pv));
                    assert(pw.skip(p as int)[0] == pv);
                    assert(pw.skip(p as int).skip(1) =~= pw.skip(p as int + 1));
                    assert(enc_paths(pw.skip(p as int)) == enc_path(pv) + enc_paths(
                        pw.skip(p as int + 1),
                    ));
                    assert(bytes@.subrange(cursor as int, bytes@.len() as int)
                        =~= spec_u32_to_le_bytes(pv.len() as u32) + (enc_nodes(pv) + path_tail));
                    lemma_peel(
                        bytes@,
                        cursor as int,
                        spec_u32_to_le_bytes(pv.len() as u32),
                        enc_nodes(pv) + path_tail,
                    );
                }
            }
            if bytes.len() - cursor < 4 {
                return None;
            }
            let n_nodes = read_u32_at(bytes, cursor);
            let ghost path_start = cursor as int;
            cursor = cursor + 4;
            proof {
                if h {
                    assert(spec_u32_to_le_bytes(n_nodes) == spec_u32_to_le_bytes(pv.len() as u32));
                    assert(n_nodes == pv.len());
                    assert(pv.skip(0) =~= pv);
                }
            }
            let ghost nodes_start = cursor as int;
            let mut path: Vec<PathNode> = Vec::new();
            let mut k: u32 = 0;
            while k < n_nodes
                invariant
                    k <= n_nodes,
                    4 <= nodes_start <= cursor <= bytes@.len(),
                    path@.len() == k,
                    enc_nodes(path@.map_values(|nd: PathNode| nd@)) == bytes@.subrange(
                        nodes_start,
                        cursor as int,
                    ),
                    h == (exists|rs2: Seq<crate::event::RecordModel>|
                        records_bounded(rs2) && bytes@ == #[trigger] enc_changelogs(rs2)),
                    h ==> path_bounded(pv) && n_nodes == pv.len(),
                    h ==> path@.map_values(|nd: PathNode| nd@) == pv.take(k as int),
                    h ==> bytes@.subrange(cursor as int, bytes@.len() as int) == enc_nodes(
                        pv.skip(k as int),
                    ) + path_tail,
                decreases n_nodes - k,
            {
                let ghost ns_before = path@.map_values(|nd: PathNode| nd@);
                proof {
                    if h {
                        assert(node_wf(pv[k as int]));
                        assert(pv.skip(k as int)[0] == pv[k as int]);
                        assert(pv.skip(k as int).skip(1) =~= pv.skip(k as int + 1));
                        assert(enc_nodes(pv.skip(k as int)) == enc_node(pv[k as int]) + enc_nodes(
                            pv.skip(k as int + 1),
                        ));
                        assert(enc_node(pv[k as int]).len() == 36) by {
                            lemma_auto_spec_u32_to_from_le_bytes();
                        }
                        assert(bytes@.subrange(cursor as int, bytes@.len() as int) =~= enc_node(
                            pv[k as int],
                        ) + (enc_nodes(pv.skip(k as int + 1)) + path_tail));
                        lemma_peel(
                            bytes@,
                            cursor as int,
                            enc_node(pv[k as int]),
                            enc_nodes(pv.skip(k as int + 1)) + path_tail,
                        );
                    }
                }
                if bytes.len() - cursor < 36 {
                    return None;
                }
                let node = read_node_at(bytes, cursor);
                path.push(node);
                cursor = cursor + 36;
                proof {
                    lemma_enc_nodes_snoc(ns_before, node@);
                    assert(path@.map_values(|nd: PathNode| nd@) =~= ns_before.push(node@));
                    assert(bytes@.subrange(nodes_start, cursor as int) =~= bytes@.subrange(
                        nodes_start,
                        cursor - 36,
                    ) + bytes@.subrange(cursor - 36, cursor as int));
                    if h {
                        lemma_enc_node_injective(node@, pv[k as int]);
                        assert(path@.map_values(|nd: PathNode| nd@) =~= pv.take(k as int + 1));
                    }
                }
                k = k + 1;
            }
            paths.push(path);
            proof {
                let path_model = paths@.last()@.map_values(|nd: PathNode| nd@);
                assert(path_model.len() == n_nodes);
                assert((path_model.len() as u32) == n_nodes);
                assert(enc_path(path_model) =~= bytes@.subrange(path_start, cursor as int));
                lemma_enc_paths_snoc(ps_before, path_model);
                assert(paths@.map_values(
                    |q: Vec<PathNode>| q@.map_values(|nd: PathNode| nd@),
                ) =~= ps_before.push(path_model));
                assert(bytes@.subrange(paths_start, cursor as int) =~= bytes@.subrange(
                    paths_start,
                    path_start,
                ) + bytes@.subrange(path_start, cursor as int));
                if h {
                    assert(path_model =~= pv.take(pv.len() as int));
                    assert(pv.take(pv.len() as int) =~= pv);
                    assert(paths@.map_values(
                        |q: Vec<PathNode>| q@.map_values(|nd: PathNode| nd@),
                    ) =~= pw.take(p as int + 1));
                    assert(pv.skip(pv.len() as int) =~= Seq::<NodeModel>::empty());
                    assert(enc_nodes(Seq::<NodeModel>::empty()) == Seq::<u8>::empty());
                    assert(bytes@.subrange(cursor as int, bytes@.len() as int) =~= path_tail);
                }
            }
            p = p + 1;
        }
        proof {
            if h {
                assert(pw.skip(pw.len() as int) =~= Seq::<Seq<NodeModel>>::empty());
                assert(enc_paths(Seq::<Seq<NodeModel>>::empty()) == Seq::<u8>::empty());
                assert(bytes@.subrange(cursor as int, bytes@.len() as int)
                    =~= spec_u64_to_le_bytes(rec.seq) + (spec_u32_to_le_bytes(rec.index)
                    + enc_records(rs.skip(j as int + 1))));
                lemma_peel(
                    bytes@,
                    cursor as int,
                    spec_u64_to_le_bytes(rec.seq),
                    spec_u32_to_le_bytes(rec.index) + enc_records(rs.skip(j as int + 1)),
                );
            }
        }
        if bytes.len() - cursor < 8 {
            return None;
        }
        let seq_no = read_u64_at(bytes, cursor);
        cursor = cursor + 8;
        proof {
            lemma_auto_spec_u64_to_from_le_bytes();
            if h {
                assert(spec_u64_to_le_bytes(seq_no) == spec_u64_to_le_bytes(rec.seq));
                assert(seq_no == rec.seq);
                lemma_peel(
                    bytes@,
                    cursor as int,
                    spec_u32_to_le_bytes(rec.index),
                    enc_records(rs.skip(j as int + 1)),
                );
            }
        }
        if bytes.len() - cursor < 4 {
            return None;
        }
        let index = read_u32_at(bytes, cursor);
        cursor = cursor + 4;
        proof {
            lemma_auto_spec_u32_to_from_le_bytes();
            if h {
                assert(spec_u32_to_le_bytes(index) == spec_u32_to_le_bytes(rec.index));
                assert(index == rec.index);
            }
        }
        let event = ChangelogEventV1 { id, paths, seq: seq_no, index };
        records.push(ChangelogEvent::V1(event));
        proof {
            let parsed = records@.last()@;
            assert(parsed.paths.len() == n_paths);
            assert((parsed.paths.len() as u32) == n_paths);
            assert(enc_record(parsed) =~= bytes@.subrange(rec_start as int, cursor as int));
            lemma_enc_records_snoc(rs_before, parsed);
            assert(records@.map_values(|e: ChangelogEvent| e@) =~= rs_before.push(parsed));
            assert(bytes@.subrange(4, cursor as int) =~= bytes@.subrange(4, rec_start as int)
                + bytes@.subrange(rec_start as int, cursor as int));
            if h {
                assert(parsed.id == rec.id);
                assert(parsed.paths =~= pw);
                assert(parsed == rec);
                assert(records@.map_values(|e: ChangelogEvent| e@) =~= rs.take(j as int + 1));
            }
        }
        j = j + 1;
    }
    proof {
        if h {
            assert(rs.skip(n as int) =~= Seq::<crate::event::RecordModel>::empty());
            assert(enc_records(Seq::<crate::event::RecordModel>::empty()) == Seq::<u8>::empty());
            assert(bytes@.len() - cursor == 0);
        }
    }
    if cursor != bytes.len() {
        return None;
    }
    let r = Changelogs { changelogs: records };
    proof {
        assert(r@.len() == n);
        assert((r@.len() as u32) == n);
        assert(enc_changelogs(r@) =~= bytes@);
    }
    Some(r)
}

} // verus!

//! The serializer: encodes one batch of changelog records into the
//! serialization buffer, in the wire format of `encode`. It fails
//! loudly with `EncodingOverflow` — writing nothing — whenever the
//! encoding would exceed the buffer; it never truncates and never
//! writes past the buffer's end.

use vstd::prelude::*;
use vstd::bytes::{
    spec_u32_to_le_bytes, spec_u64_to_le_bytes, u32_to_le_bytes, u64_to_le_bytes,
};

use crate::encode::{
    batch_enc_size, batch_shape, enc_changelogs, enc_node, enc_nodes, enc_path, enc_paths,
    enc_record, enc_records, lemma_enc_changelogs_len, lemma_enc_nodes_snoc, lemma_enc_paths_snoc,
    lemma_enc_records_snoc, V1_TAG,
};
use crate::event::{ChangelogEvent, Changelogs};
use crate::{Config, MyErrorCode};

verus! {

/// Appends the little-endian bytes of `v` to `out`.
fn append_u32(out: &mut Vec<u8>, v: u32)
    ensures
        final(out)@ == old(out)@ + spec_u32_to_le_bytes(v),
{
    let mut bytes = u32_to_le_bytes(v);
    out.append(&mut bytes);
}

/// Appends the little-endian bytes of `v` to `out`.
fn append_u64(out: &mut Vec<u8>, v: u64)
    ensures
        final(out)@ == old(out)@ + spec_u64_to_le_bytes(v),
{
    let mut bytes = u64_to_le_bytes(v);
    out.append(&mut bytes);
}

/// Appends all 32 bytes of `a` to `out`.
fn append_array32(out: &mut Vec<u8>, a: &[u8; 32])
    ensures
        final(out)@ == old(out)@ + a@,
{
    let mut i: usize = 0;
    while i < 32
        invariant
            i <= 32,
            a@.len() == 32,
            out@ == old(out)@ + a@.take(i as int),
        decreases 32 - i,
    {
        out.push(a[i]);
        proof {
            assert(a@.take(i + 1) =~= a@.take(i as int).push(a@[i as int]));
            assert(old(out)@ + a@.take(i + 1) =~= (old(out)@ + a@.take(i as int)).push(
                a@[i as int],
            ));
        }
        i = i + 1;
    }
    proof {
        assert(a@.take(32) =~= a@);
    }
}

/// Appends the encoding of one record to `out`.
fn append_record(out: &mut Vec<u8>, event: &ChangelogEvent)
    requires
        event@.paths.len() <= u32::MAX,
    ensures
        final(out)@ == old(out)@ + enc_record(event@),
{
    match event {
        ChangelogEvent::V1(ev) => {
            out.push(V1_TAG);
            proof {
                assert(out@ =~= old(out)@ + seq![V1_TAG]);
            }
            append_array32(out, &ev.id);
            let n_paths = ev.paths.len() as u32;
            append_u32(out, n_paths);
            let ghost base = out@;
            let ghost paths_model = event@.paths;
            let mut p: usize = 0;
            while p < ev.paths.len()
                invariant
                    p <= ev.paths@.len(),
                    paths_model == event@.paths,
                    paths_model.len() == ev.paths@.len(),
                    forall|p2: int|
                        0 <= p2 < paths_model.len() ==> #[trigger] paths_model[p2]
                            == ev.paths@[p2]@.map_values(
                            |n: crate::event::PathNode| n@,
                        ) && paths_model[p2].len() == ev.paths@[p2]@.len(),
                    out@ == base + enc_paths(paths_model.take(p as int)),
                decreases ev.paths@.len() - p,
            {
                let path = &ev.paths[p];
                let ghost path_model = paths_model[p as int];
                let n_nodes = path.len() as u32;
                append_u32(out, n_nodes);
                let ghost nodes_base = out@;
                let mut k: usize = 0;
                while k < path.len()
                    invariant
                        k <= path@.len(),
                        path_model == path@.map_values(|n: crate::event::PathNode| n@),
                        path_model.len() == path@.len(),
                        out@ == nodes_base + enc_nodes(path_model.take(k as int)),
                    decreases path@.len() - k,
                {
                    let node = &path[k];
                    append_array32(out, &node.node);
                    append_u32(out, node.index);
                    proof {
                        assert(enc_node(path_model[k as int]) == node.node@
                            + spec_u32_to_le_bytes(node.index));
                        lemma_enc_nodes_snoc(path_model.take(k as int), path_model[k as int]);
                        assert(path_model.take(k + 1) =~= path_model.take(k as int).push(
                            path_model[k as int],
                        ));
                        assert(out@ =~= nodes_base + enc_nodes(path_model.take(k + 1)));
                    }
                    k = k + 1;
                }
                proof {
                    assert(path_model.take(path_model.len() as int) =~= path_model);
                    assert(out@ == nodes_base + enc_nodes(path_model));
                    assert(enc_path(path_model) == spec_u32_to_le_bytes(n_nodes) + enc_nodes(
                        path_model,
                    ));
                    lemma_enc_paths_snoc(paths_model.take(p as int), path_model);
                    assert(paths_model.take(p + 1) =~= paths_model.take(p as int).push(
                        path_model,
                    ));
                    assert(out@ =~= base + enc_paths(paths_model.take(p + 1)));
                }
                p = p + 1;
            }
            append_u64(out, ev.seq);
            append_u32(out, ev.index);
            proof {
                assert(paths_model.take(paths_model.len() as int) =~= paths_model);
                assert(out@ =~= old(out)@ + enc_record(event@));
            }
        },
    }
}

/// Builds the complete wire encoding of a batch.
fn encode_changelogs_vec(changelogs: &Changelogs) -> (r: Vec<u8>)
    requires
        changelogs@.len() <= u32::MAX,
        forall|j: int| 0 <= j < changelogs@.len() ==> (#[trigger] changelogs@[j]).paths.len()
            <= u32::MAX,
    ensures
        r@ == enc_changelogs(changelogs@),
{
    let mut out: Vec<u8> = Vec::new();
    let n = changelogs.changelogs.len() as u32;
    append_u32(&mut out, n);
    let ghost base = out@;
    let ghost records_model = changelogs@;
    let mut j: usize = 0;
    while j < changelogs.changelogs.len()
        invariant
            j <= changelogs.changelogs@.len(),
            records_model == changelogs@,
            records_model.len() == changelogs.changelogs@.len(),
            forall|j2: int|
                0 <= j2 < records_model.len() ==> #[trigger] records_model[j2]
                    == changelogs.changelogs@[j2]@,
            forall|j2: int| 0 <= j2 < records_model.len() ==> (#[trigger] records_model[j2]).paths.len()
                <= u32::MAX,
            out@ == base + enc_records(records_model.take(j as int)),
        decreases changelogs.changelogs@.len() - j,
    {
        let event = &changelogs.changelogs[j];
        proof {
            assert(event@ == records_model[j as int]);
        }
        append_record(&mut out, event);
        proof {
            lemma_enc_records_snoc(records_model.take(j as int), records_model[j as int]);
            assert(records_model.take(j + 1) =~= records_model.take(j as int).push(
                records_model[j as int],
            ));
            assert(out@ =~= base + enc_records(records_model.take(j + 1)));
        }
        j = j + 1;
    }
    proof {
        assert(records_model.take(records_model.len() as int) =~= records_model);
        assert(out@ =~= enc_changelogs(changelogs@));
    }
    out
}

impl Changelogs {
    /// Serializes this batch into `buf`. On success the first `n`
    /// returned bytes of `buf` hold the encoding and the bytes beyond
    /// them are untouched; if the encoding would not fit, fails with
    /// `EncodingOverflow` and leaves `buf` untouched. `buf` never grows,
    /// shrinks, or is written past its end.
    pub fn serialize(&self, buf: &mut Vec<u8>) -> (r: Result<usize, MyErrorCode>)
        requires
            self@.len() <= u32::MAX,
            forall|j: int| 0 <= j < self@.len() ==> (#[trigger] self@[j]).paths.len() <= u32::MAX,
        ensures
            final(buf)@.len() == old(buf)@.len(),
            match r {
                Ok(n) => {
                    &&& n == enc_changelogs(self@).len()
                    &&& n <= old(buf)@.len()
                    &&& final(buf)@.subrange(0, n as int) == enc_changelogs(self@)
                    &&& final(buf)@.subrange(n as int, final(buf)@.len() as int) == old(
                        buf,
                    )@.subrange(n as int, old(buf)@.len() as int)
                },
                Err(e) => {
                    &&& e == MyErrorCode::EncodingOverflow
                    &&& enc_changelogs(self@).len() > old(buf)@.len()
                    &&& final(buf)@ == old(buf)@
                },
            },
    {
        let enc = encode_changelogs_vec(self);
        if enc.len() > buf.len() {
            return Err(MyErrorCode::EncodingOverflow);
        }
        let n = enc.len();
        let mut i: usize = 0;
        while i < n
            invariant
                i <= n,
                n == enc@.len(),
                n <= buf@.len(),
                buf@.len() == old(buf)@.len(),
                enc@ == enc_changelogs(self@),
                forall|i2: int| 0 <= i2 < i ==> buf@[i2] == enc@[i2],
                forall|i2: int| i <= i2 < buf@.len() ==> buf@[i2] == old(buf)@[i2],
            decreases n - i,
        {
            buf.set(i, enc[i]);
            i = i + 1;
        }
        proof {
            assert(buf@.subrange(0, n as int) =~= enc@);
            assert(buf@.subrange(n as int, buf@.len() as int) =~= old(buf)@.subrange(
                n as int,
                old(buf)@.len() as int,
            ));
        }
        Ok(n)
    }
}

/// Serializer size bound: under the configuration-time constraint
/// (`cfg.fits()`), the encoding of any fully populated batch is at most
/// the buffer capacity C — so `serialize` succeeds and its byte count
/// never exceeds C.
pub proof fn lemma_serializer_size_bound(cfg: Config, rs: Seq<crate::event::RecordModel>)
    requires
        cfg.wf(),
        cfg.fits(),
        batch_shape(rs, cfg.leaves as nat, cfg.height as nat),
    ensures
        enc_changelogs(rs).len() == batch_enc_size(cfg.leaves as nat, cfg.height as nat),
        enc_changelogs(rs).len() <= cfg.capacity,
{
    lemma_enc_changelogs_len(rs, cfg.leaves as nat, cfg.height as nat);
}

} // verus!

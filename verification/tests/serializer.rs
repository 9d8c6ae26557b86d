use changelog_batch::decode::deserialize_changelogs;
use changelog_batch::event::{ChangelogEvent, ChangelogEventV1, Changelogs, PathNode};
use changelog_batch::MyErrorCode;

fn sample_batch(records: usize, height: usize) -> Changelogs {
    let mut changelogs = Vec::new();
    for j in 0..records {
        let mut path = Vec::new();
        for k in 0..height {
            path.push(PathNode { node: [j as u8; 32], index: k as u32 });
        }
        changelogs.push(ChangelogEvent::V1(ChangelogEventV1 {
            id: [5u8; 32],
            paths: vec![path],
            seq: j as u64,
            index: j as u32,
        }));
    }
    Changelogs { changelogs }
}

#[test]
fn serialize_matches_borsh() {
    // The wire format is the host serialization convention: cross-check
    // our serializer against borsh on a structurally identical value
    // (tag byte, identity, nested node vectors, sequence number, index).
    let batch = sample_batch(3, 4);
    let mut buf = vec![0u8; 4096];
    let n = batch.serialize(&mut buf).unwrap();

    type NodeTuple = ([u8; 32], u32);
    let mut reference: Vec<(u8, [u8; 32], Vec<Vec<NodeTuple>>, u64, u32)> = Vec::new();
    for j in 0..3usize {
        let mut path: Vec<NodeTuple> = Vec::new();
        for k in 0..4usize {
            path.push(([j as u8; 32], k as u32));
        }
        reference.push((0u8, [5u8; 32], vec![path], j as u64, j as u32));
    }
    let expected = borsh::to_vec(&reference).unwrap();
    assert_eq!(&buf[..n], &expected[..]);
}

#[test]
fn serialize_exact_size_and_prefix() {
    // one record of height 2: 4-byte count + 1 + 32 + 4 + (4 + 2*36) + 8 + 4
    let batch = sample_batch(1, 2);
    let mut buf = vec![0xAAu8; 200];
    let n = batch.serialize(&mut buf).unwrap();
    assert_eq!(n, 4 + 53 + 36 * 2);
    // count prefix, then the V1 tag, then the identity
    assert_eq!(&buf[0..4], &[1, 0, 0, 0]);
    assert_eq!(buf[4], 0);
    assert_eq!(&buf[5..37], &[5u8; 32]);
    // one path of two nodes
    assert_eq!(&buf[37..41], &[1, 0, 0, 0]);
    assert_eq!(&buf[41..45], &[2, 0, 0, 0]);
    // bytes past the encoding stay untouched
    assert!(buf[n..].iter().all(|&b| b == 0xAA));
}

#[test]
fn serialize_overflow_fails_loudly() {
    let batch = sample_batch(2, 3);
    // true size: 4 + 2*(53 + 36*3) = 326
    let mut buf = vec![0u8; 325];
    let r = batch.serialize(&mut buf);
    assert_eq!(r, Err(MyErrorCode::EncodingOverflow));
    assert!(buf.iter().all(|&b| b == 0));
    let mut buf2 = vec![0u8; 326];
    let n = batch.serialize(&mut buf2).unwrap();
    assert_eq!(n, 326);
}

#[test]
fn decoder_roundtrip() {
    let batch = sample_batch(2, 3);
    let mut buf = vec![0u8; 512];
    let n = batch.serialize(&mut buf).unwrap();
    let bytes: Vec<u8> = buf[..n].to_vec();
    let decoded = deserialize_changelogs(&bytes).unwrap();
    assert_eq!(decoded.changelogs.len(), 2);
    for (j, event) in decoded.changelogs.iter().enumerate() {
        let ChangelogEvent::V1(record) = event;
        assert_eq!(record.id, [5u8; 32]);
        assert_eq!(record.seq, j as u64);
        assert_eq!(record.index, j as u32);
        assert_eq!(record.paths.len(), 1);
        assert_eq!(record.paths[0].len(), 3);
        for (k, node) in record.paths[0].iter().enumerate() {
            assert_eq!(node.node, [j as u8; 32]);
            assert_eq!(node.index, k as u32);
        }
    }
}

#[test]
fn decoder_rejects_truncated_and_trailing_input() {
    let batch = sample_batch(1, 1);
    let mut buf = vec![0u8; 256];
    let n = batch.serialize(&mut buf).unwrap();
    let good: Vec<u8> = buf[..n].to_vec();
    assert!(deserialize_changelogs(&good).is_some());

    let truncated: Vec<u8> = good[..n - 1].to_vec();
    assert!(deserialize_changelogs(&truncated).is_none());

    let mut trailing = good.clone();
    trailing.push(0);
    assert!(deserialize_changelogs(&trailing).is_none());

    let mut bad_tag = good.clone();
    bad_tag[4] = 7;
    assert!(deserialize_changelogs(&bad_tag).is_none());
}

use changelog_batch::allocator::BumpAllocator;
use changelog_batch::batch::append_leaves;
use changelog_batch::buffers::Buffers;
use changelog_batch::decode::deserialize_changelogs;
use changelog_batch::emit::{emit_indexer_event, Channel};
use changelog_batch::event::{ChangelogEvent, PathNode};
use changelog_batch::{
    Config, MyErrorCode, BATCHES, HEIGHT, NOOP_PROGRAM_ID, NR_LEAVES_BATCH, SERIALIZE_BUFFER_SIZE,
};

const TREE_ID: [u8; 32] = [5u8; 32];
const SIGNER: [u8; 32] = [9u8; 32];

fn setup(cfg: &Config) -> (BumpAllocator, Buffers) {
    let mut arena = BumpAllocator::new(0x1000, 0x100000);
    let bufs = Buffers::new(&mut arena, cfg).unwrap();
    (arena, bufs)
}

#[test]
fn test_append_leaves() {
    // H=26, L=10, B=3: the invocation emits exactly three messages, each
    // decoding to ten V1 records whose single path has 26 nodes and
    // whose leaf indices are 0..9.
    let cfg = Config::default_config();
    assert_eq!((cfg.height, cfg.leaves, cfg.batches), (HEIGHT, NR_LEAVES_BATCH, BATCHES));
    let (mut arena, mut bufs) = setup(&cfg);
    let entry_pos = arena.pos();
    let mut channel = Channel::new(SERIALIZE_BUFFER_SIZE);

    let r = append_leaves(
        &cfg,
        &mut arena,
        &mut bufs,
        &TREE_ID,
        &NOOP_PROGRAM_ID,
        &SIGNER,
        &mut channel,
    );
    assert_eq!(r, Ok(()));
    assert_eq!(channel.messages.len(), 3);
    // the arena leaves every batch with the cursor it entered with
    assert_eq!(arena.pos(), entry_pos);

    for message in &channel.messages {
        assert_eq!(message.authorizer, SIGNER);
        assert_eq!(message.payload.len(), 4 + 10 * (53 + 36 * 26));
        let decoded = deserialize_changelogs(&message.payload).unwrap();
        assert_eq!(decoded.changelogs.len(), 10);
        let mut previous_index: Option<u32> = None;
        for (j, event) in decoded.changelogs.iter().enumerate() {
            let ChangelogEvent::V1(record) = event;
            assert_eq!(record.id, TREE_ID);
            assert_eq!(record.seq, j as u64);
            assert_eq!(record.index, j as u32);
            assert_eq!(record.paths.len(), 1);
            assert_eq!(record.paths[0].len(), 26);
            for node in &record.paths[0] {
                assert_eq!(node.node, [0u8; 32]);
                assert_eq!(node.index, 0);
            }
            // leaf indices strictly increase within the batch
            if let Some(prev) = previous_index {
                assert!(record.index > prev);
            }
            previous_index = Some(record.index);
        }
    }
    // the scratch buffers start zeroed, so all three messages coincide
    assert_eq!(channel.messages[0].payload, channel.messages[1].payload);
    assert_eq!(channel.messages[1].payload, channel.messages[2].payload);
}

#[test]
fn populated_slots_reach_only_the_first_batch() {
    // Bytes written into the path slots before the invocation appear in
    // the first batch's message and in no later one: the zeroing step
    // isolates batches from each other.
    let cfg = Config::default_config();
    let (mut arena, mut bufs) = setup(&cfg);
    let marker = PathNode { node: [0xABu8; 32], index: 77 };
    bufs.set_path_node(&cfg, 3, 20, &marker);
    let mut channel = Channel::new(SERIALIZE_BUFFER_SIZE);

    let r = append_leaves(
        &cfg,
        &mut arena,
        &mut bufs,
        &TREE_ID,
        &NOOP_PROGRAM_ID,
        &SIGNER,
        &mut channel,
    );
    assert_eq!(r, Ok(()));
    assert_eq!(channel.messages.len(), 3);

    let first = deserialize_changelogs(&channel.messages[0].payload).unwrap();
    let ChangelogEvent::V1(record) = &first.changelogs[3];
    assert_eq!(record.paths[0][20], marker);

    assert_ne!(channel.messages[0].payload, channel.messages[1].payload);
    assert_eq!(channel.messages[1].payload, channel.messages[2].payload);
    let second = deserialize_changelogs(&channel.messages[1].payload).unwrap();
    let ChangelogEvent::V1(record2) = &second.changelogs[3];
    assert_eq!(record2.paths[0][20], PathNode { node: [0u8; 32], index: 0 });
}

#[test]
fn emit_rejects_wrong_channel_identity() {
    let mut channel = Channel::new(SERIALIZE_BUFFER_SIZE);
    let mut wrong = NOOP_PROGRAM_ID;
    wrong[0] ^= 1;
    let r = emit_indexer_event(vec![1, 2, 3], &wrong, &SIGNER, &mut channel);
    assert_eq!(r, Err(MyErrorCode::InvalidChannel));
    assert!(channel.messages.is_empty());
}

#[test]
fn emit_forwards_to_known_good_channel() {
    let mut channel = Channel::new(16);
    let r = emit_indexer_event(vec![1, 2, 3], &NOOP_PROGRAM_ID, &SIGNER, &mut channel);
    assert_eq!(r, Ok(()));
    assert_eq!(channel.messages.len(), 1);
    assert_eq!(channel.messages[0].payload, vec![1, 2, 3]);
    assert_eq!(channel.messages[0].authorizer, SIGNER);
}

#[test]
fn channel_rejects_oversized_message() {
    let mut channel = Channel::new(2);
    let r = emit_indexer_event(vec![1, 2, 3], &NOOP_PROGRAM_ID, &SIGNER, &mut channel);
    assert_eq!(r, Err(MyErrorCode::ChannelRejected));
    assert!(channel.messages.is_empty());
}

#[test]
fn invocation_fails_on_wrong_channel_identity() {
    let cfg = Config::default_config();
    let (mut arena, mut bufs) = setup(&cfg);
    let mut channel = Channel::new(SERIALIZE_BUFFER_SIZE);
    let mut wrong = NOOP_PROGRAM_ID;
    wrong[31] = wrong[31].wrapping_add(1);
    let r = append_leaves(&cfg, &mut arena, &mut bufs, &TREE_ID, &wrong, &SIGNER, &mut channel);
    assert_eq!(r, Err(MyErrorCode::InvalidChannel));
    assert!(channel.messages.is_empty());
}

#[test]
fn undersized_buffer_fails_on_first_batch() {
    // C smaller than one fully populated batch's true encoded size: the
    // serializer fails with EncodingOverflow and nothing is emitted.
    let true_size = 4 + 10 * (53 + 36 * 26);
    let cfg = Config {
        height: HEIGHT,
        leaves: NR_LEAVES_BATCH,
        batches: BATCHES,
        capacity: true_size - 1,
    };
    let (mut arena, mut bufs) = setup(&cfg);
    let mut channel = Channel::new(SERIALIZE_BUFFER_SIZE);
    let r = append_leaves(
        &cfg,
        &mut arena,
        &mut bufs,
        &TREE_ID,
        &NOOP_PROGRAM_ID,
        &SIGNER,
        &mut channel,
    );
    assert_eq!(r, Err(MyErrorCode::EncodingOverflow));
    assert!(channel.messages.is_empty());
}

#[test]
fn exhausted_region_fails_with_out_of_memory() {
    // A region with just enough room for the scratch buffers leaves
    // nothing for a batch's transient records.
    let cfg = Config::default_config();
    let mut arena = BumpAllocator::new(0x1000, 10 * 36 * 26 + SERIALIZE_BUFFER_SIZE + 16);
    let mut bufs = Buffers::new(&mut arena, &cfg).unwrap();
    let mut channel = Channel::new(SERIALIZE_BUFFER_SIZE);
    let r = append_leaves(
        &cfg,
        &mut arena,
        &mut bufs,
        &TREE_ID,
        &NOOP_PROGRAM_ID,
        &SIGNER,
        &mut channel,
    );
    assert_eq!(r, Err(MyErrorCode::OutOfMemory));
    assert!(channel.messages.is_empty());
}

#[test]
fn region_too_small_for_buffers() {
    let cfg = Config::default_config();
    let mut arena = BumpAllocator::new(0x1000, 1024);
    let r = Buffers::new(&mut arena, &cfg);
    assert!(matches!(r, Err(MyErrorCode::OutOfMemory)));
    assert_eq!(arena.pos(), 0);
}

#[test]
fn channel_limit_smaller_than_batch_rejects_invocation() {
    let cfg = Config::default_config();
    let (mut arena, mut bufs) = setup(&cfg);
    let mut channel = Channel::new(100);
    let r = append_leaves(
        &cfg,
        &mut arena,
        &mut bufs,
        &TREE_ID,
        &NOOP_PROGRAM_ID,
        &SIGNER,
        &mut channel,
    );
    assert_eq!(r, Err(MyErrorCode::ChannelRejected));
    assert!(channel.messages.is_empty());
}

#[test]
fn path_node_accessors_roundtrip() {
    let cfg = Config::default_config();
    let (_arena, mut bufs) = setup(&cfg);
    let node = PathNode { node: [0x42u8; 32], index: 123456 };
    bufs.set_path_node(&cfg, 7, 25, &node);
    assert_eq!(bufs.get_path_node(&cfg, 7, 25), node);
    // neighbours stay zero
    assert_eq!(bufs.get_path_node(&cfg, 7, 24), PathNode { node: [0u8; 32], index: 0 });
    assert_eq!(bufs.get_path_node(&cfg, 6, 25), PathNode { node: [0u8; 32], index: 0 });
    bufs.zero_buffers(&cfg);
    assert_eq!(bufs.get_path_node(&cfg, 7, 25), PathNode { node: [0u8; 32], index: 0 });
}

#[test]
fn zero_batches_emit_nothing() {
    let cfg = Config { height: 4, leaves: 2, batches: 0, capacity: 1024 };
    let (mut arena, mut bufs) = setup(&cfg);
    let mut channel = Channel::new(1024);
    let r = append_leaves(
        &cfg,
        &mut arena,
        &mut bufs,
        &TREE_ID,
        &NOOP_PROGRAM_ID,
        &SIGNER,
        &mut channel,
    );
    assert_eq!(r, Ok(()));
    assert!(channel.messages.is_empty());
}

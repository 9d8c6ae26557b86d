//! Changelog records: one record describes the Merkle path of one leaf
//! update. Records are built fresh each batch from scratch-buffer
//! contents and never outlive the batch that serialized them.

use vstd::prelude::*;

verus! {

/// Node of a Merkle path, with an index giving its position in a
/// non-sparse tree.
#[derive(Clone, Debug, PartialEq, Eq)]
pub struct PathNode {
    /// The node's hash.
    pub node: [u8; 32],
    /// Position of the node in the non-sparse tree.
    pub index: u32,
}

/// Mathematical model of a path node: the hash bytes and the position.
pub ghost struct NodeModel {
    pub node: Seq<u8>,
    pub index: u32,
}

impl View for PathNode {
    type V = NodeModel;

    open spec fn view(&self) -> NodeModel {
        NodeModel { node: self.node@, index: self.index }
    }
}

/// Mathematical model of one changelog record: the tree identity, the
/// Merkle paths, the sequence number and the record's positional index.
pub ghost struct RecordModel {
    pub id: Seq<u8>,
    pub paths: Seq<Seq<NodeModel>>,
    pub seq: u64,
    pub index: u32,
}

/// Version 1 of a changelog event.
#[derive(Debug)]
pub struct ChangelogEventV1 {
    /// Identity of the tree the update belongs to.
    pub id: [u8; 32],
    /// Merkle paths; in the current design exactly one per record.
    pub paths: Vec<Vec<PathNode>>,
    /// Number of successful operations on the tree.
    pub seq: u64,
    /// Changelog event index.
    pub index: u32,
}

impl View for ChangelogEventV1 {
    type V = RecordModel;

    open spec fn view(&self) -> RecordModel {
        RecordModel {
            id: self.id@,
            paths: self.paths@.map_values(|p: Vec<PathNode>| p@.map_values(|n: PathNode| n@)),
            seq: self.seq,
            index: self.index,
        }
    }
}

/// A changelog event, tagged by version. Only version 1 exists today.
#[derive(Debug)]
pub enum ChangelogEvent {
    V1(ChangelogEventV1),
}

impl View for ChangelogEvent {
    type V = RecordModel;

    open spec fn view(&self) -> RecordModel {
        match self {
            ChangelogEvent::V1(e) => e@,
        }
    }
}

/// One batch of changelog events, serialized and emitted together.
#[derive(Debug)]
pub struct Changelogs {
    /// The batch's records, in increasing leaf order.
    pub changelogs: Vec<ChangelogEvent>,
}

impl View for Changelogs {
    type V = Seq<RecordModel>;

    open spec fn view(&self) -> Seq<RecordModel> {
        self.changelogs@.map_values(|e: ChangelogEvent| e@)
    }
}

} // verus!

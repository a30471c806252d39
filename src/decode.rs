//! Decoding of the binary model layout.
//!
//! The layout is a run of sections at increasing offsets, every multi-byte
//! field little-endian:
//! - model parameters: a binary32 base score and 33 reserved 32-bit integers;
//! - two tags, each an 8-byte length followed by that many bytes of UTF-8;
//! - ensemble parameters: the tree count, 4 reserved bytes, the feature count,
//!   12 reserved bytes, the output group count and 33 reserved 32-bit integers;
//! - one tree section per tree: its parameters, its node records, one
//!   statistics record per node and, when the tree declares leaf vectors, an
//!   8-byte count followed by that many 4-byte entries.
use vstd::prelude::*;
use crate::bytes::{i32_le, is_utf8, u32_le, u64_le, check_utf8, read_i32, read_u32, read_u64};
use crate::model::{
    leaf_indices, leaf_values, model_wf, node_wf, tree_wf, ModelView, XGBModel, XGBNode, XGBTree,
};

verus! {

/// Base score and reserved integers before the first tag.
pub const MODEL_PARAM_BYTES: usize = 4 + 4 * 33;

/// Size of the length field in front of a tag or of a leaf vector trailer.
pub const LENGTH_BYTES: usize = 8;

/// Offset of the feature count within the ensemble parameters.
pub const NUM_FEATURES_AT: usize = 4 + 4;

/// Tree count, feature count, output group count and reserved space.
pub const ENSEMBLE_PARAM_BYTES: usize = 4 + 4 + 4 + 12 + 4 + 4 * 33;

/// Offset of the node count within the tree parameters.
pub const NUM_NODES_AT: usize = 4;

/// Offset of the leaf vector size within the tree parameters.
pub const LEAF_VECTOR_AT: usize = 4 + 4 + 12;

/// Reserved word, node count, reserved space, leaf vector size, reserved space.
pub const TREE_PARAM_BYTES: usize = 4 + 4 + 12 + 4 + 4 * 31;

/// Parent, left child, right child, split word, value.
pub const NODE_BYTES: usize = 4 * 5;

/// Per-node statistics: three binary32 values and one 32-bit integer.
pub const NODE_STAT_BYTES: usize = 4 * 4;

/// Size of one entry of a leaf vector trailer.
pub const LEAF_VECTOR_ENTRY_BYTES: usize = 4;

/// The node record at `off`, as node `id` of a tree of `n` nodes: `None` when
/// an internal node's children do not both come after it in the tree.
pub open spec fn decode_node(b: Seq<u8>, off: int, id: int, n: int) -> Option<XGBNode> {
    let left = i32_le(b, off + 4);
    let right = i32_le(b, off + 8);
    let split = u32_le(b, off + 12);
    let value = u32_le(b, off + 16);
    if left == -1 {
        Some(XGBNode::Leaf { value })
    } else if id < left < n && id < right < n {
        Some(
            XGBNode::Split {
                feature: split & 0x7fff_ffff,
                threshold: value,
                left: left as usize,
                right: right as usize,
                default: if split >> 31u32 != 0 {
                    left as usize
                } else {
                    right as usize
                },
            },
        )
    } else {
        None
    }
}

/// Offset of node record `k` of a run starting at `off`.
pub open spec fn node_offset(off: int, k: int) -> int {
    off + NODE_BYTES * k
}

/// Whether all `n` node records starting at `off` decode.
pub open spec fn nodes_decode(b: Seq<u8>, off: int, n: nat) -> bool {
    forall|k: int| 0 <= k < n ==> #[trigger] decode_node(b, node_offset(off, k), k, n as int) is Some
}

/// The `n` nodes decoded from the records starting at `off`.
pub open spec fn decoded_nodes(b: Seq<u8>, off: int, n: nat) -> Seq<XGBNode> {
    Seq::new(n, |k: int| decode_node(b, node_offset(off, k), k, n as int)->0)
}

/// The tree section at `off`: its nodes and its length in bytes.
pub open spec fn decode_tree(b: Seq<u8>, off: int) -> Option<(Seq<XGBNode>, int)> {
    if off + TREE_PARAM_BYTES > b.len() {
        None
    } else {
        let n = i32_le(b, off + NUM_NODES_AT);
        let leaf_vector = i32_le(b, off + LEAF_VECTOR_AT);
        let nodes_at = off + TREE_PARAM_BYTES;
        let stats_end = nodes_at + (NODE_BYTES + NODE_STAT_BYTES) * n;
        if n <= 0 || stats_end > b.len() || !nodes_decode(b, nodes_at, n as nat) {
            None
        } else if leaf_vector == 0 {
            Some((decoded_nodes(b, nodes_at, n as nat), stats_end - off))
        } else if stats_end + LENGTH_BYTES > b.len() {
            None
        } else {
            let end = stats_end + LENGTH_BYTES + LEAF_VECTOR_ENTRY_BYTES * u64_le(b, stats_end);
            if end > b.len() {
                None
            } else {
                Some((decoded_nodes(b, nodes_at, n as nat), end - off))
            }
        }
    }
}

/// The `count` consecutive tree sections starting at `off`, and where the
/// last of them ends.
pub open spec fn decode_trees(b: Seq<u8>, off: int, count: nat) -> Option<(Seq<Seq<XGBNode>>, int)>
    decreases count,
{
    if count == 0 {
        Some((Seq::empty(), off))
    } else {
        match decode_trees(b, off, (count - 1) as nat) {
            Some((trees, end)) => match decode_tree(b, end) {
                Some((t, len)) => Some((trees.push(t), end + len)),
                None => None,
            },
            None => None,
        }
    }
}

/// Where the ensemble parameters start, once both tags have been read, or
/// `None` when a tag runs past the end or is not UTF-8.
pub open spec fn ensemble_offset(b: Seq<u8>) -> Option<int> {
    let first = MODEL_PARAM_BYTES + LENGTH_BYTES;
    if first > b.len() {
        None
    } else {
        let first_end = first + u64_le(b, MODEL_PARAM_BYTES as int);
        if first_end > b.len() || !is_utf8(b.subrange(first as int, first_end)) {
            None
        } else if first_end + LENGTH_BYTES > b.len() {
            None
        } else {
            let second = first_end + LENGTH_BYTES;
            let second_end = second + u64_le(b, first_end);
            if second_end > b.len() || !is_utf8(b.subrange(second, second_end)) {
                None
            } else {
                Some(second_end)
            }
        }
    }
}

/// The model that the buffer holds, or `None` when the buffer is malformed:
/// a non-positive tree or feature count, a tag that is not UTF-8, a section
/// that runs past the end, or a tree that is not well formed.
pub open spec fn decode_model(b: Seq<u8>) -> Option<ModelView> {
    match ensemble_offset(b) {
        None => None,
        Some(p) => if p + ENSEMBLE_PARAM_BYTES > b.len() {
            None
        } else {
            let num_trees = i32_le(b, p);
            let num_features = i32_le(b, p + NUM_FEATURES_AT);
            if num_trees <= 0 || num_features <= 0 {
                None
            } else {
                match decode_trees(b, p + ENSEMBLE_PARAM_BYTES, num_trees as nat) {
                    Some((trees, _)) => Some(ModelView { num_features: num_features as nat, trees }),
                    None => None,
                }
            }
        },
    }
}

/// Two models loaded from the same bytes are the same model, and so reach
/// the same leaves, with the same values, for any feature vector and limit.
pub proof fn lemma_load_deterministic(
    b: Seq<u8>,
    m1: ModelView,
    m2: ModelView,
    feats: Seq<u32>,
    k: nat,
)
    requires
        decode_model(b) == Some(m1),
        decode_model(b) == Some(m2),
    ensures
        m1 == m2,
        leaf_indices(m1.trees, feats, k) == leaf_indices(m2.trees, feats, k),
        leaf_values(m1.trees, feats, k) == leaf_values(m2.trees, feats, k),
{
}

/// A buffer whose tree count or feature count is zero or negative holds no
/// model.
pub proof fn lemma_non_positive_counts_rejected(b: Seq<u8>, p: int)
    requires
        ensemble_offset(b) == Some(p),
        p + ENSEMBLE_PARAM_BYTES <= b.len(),
        i32_le(b, p) <= 0 || i32_le(b, p + NUM_FEATURES_AT) <= 0,
    ensures
        decode_model(b) is None,
{
}

/// Once a run of tree sections fails to decode, every longer run fails too.
proof fn lemma_decode_trees_none(b: Seq<u8>, off: int, k: nat, m: nat)
    requires
        decode_trees(b, off, k) is None,
        k <= m,
    ensures
        decode_trees(b, off, m) is None,
    decreases m,
{
    if k < m {
        lemma_decode_trees_none(b, off, k, (m - 1) as nat);
    }
}

/// Skips the model parameters and both tags, returning where the ensemble
/// parameters start, or `None` when a tag runs past the end or is not UTF-8.
fn skip_tags(buffer: &[u8]) -> (r: Option<usize>)
    ensures
        match r {
            Some(p) => ensemble_offset(buffer@) == Some(p as int) && p <= buffer@.len(),
            None => ensemble_offset(buffer@) is None,
        },
{
    let len = buffer.len();
    let first = MODEL_PARAM_BYTES + LENGTH_BYTES;
    if len < first {
        return None;
    }
    let first_len = read_u64(buffer, MODEL_PARAM_BYTES);
    if first_len > (len - first) as u64 {
        return None;
    }
    let first_end = first + first_len as usize;
    if !check_utf8(buffer, first, first_end) {
        return None;
    }
    if len - first_end < LENGTH_BYTES {
        return None;
    }
    let second = first_end + LENGTH_BYTES;
    let second_len = read_u64(buffer, first_end);
    if second_len > (len - second) as u64 {
        return None;
    }
    let second_end = second + second_len as usize;
    if !check_utf8(buffer, second, second_end) {
        return None;
    }
    Some(second_end)
}

impl XGBModel {
    /// Decodes a model from `buffer`: `None` exactly when the buffer is
    /// malformed (see `decode_model`).
    pub fn load(buffer: &[u8]) -> (r: Option<XGBModel>)
        ensures
            match r {
                Some(m) => decode_model(buffer@) == Some(m@) && model_wf(m@),
                None => decode_model(buffer@) is None,
            },
    {
        let len = buffer.len();
        let p = match skip_tags(buffer) {
            Some(p) => p,
            None => return None,
        };
        if len - p < ENSEMBLE_PARAM_BYTES {
            return None;
        }
        let num_trees = read_i32(buffer, p);
        if num_trees <= 0 {
            return None;
        }
        let num_features = read_i32(buffer, p + NUM_FEATURES_AT);
        if num_features <= 0 {
            return None;
        }
        let count = num_trees as usize;
        let start = p + ENSEMBLE_PARAM_BYTES;
        let mut trees: Vec<XGBTree> = Vec::new();
        let mut offset = start;
        let mut i: usize = 0;
        while i < count
            invariant
                i <= count,
                count == num_trees,
                len == buffer@.len(),
                trees@.len() == i,
                ensemble_offset(buffer@) == Some(p as int),
                p + ENSEMBLE_PARAM_BYTES <= len,
                start == p + ENSEMBLE_PARAM_BYTES,
                num_trees == i32_le(buffer@, p as int),
                num_features == i32_le(buffer@, p + NUM_FEATURES_AT),
                num_features > 0,
                offset <= len,
                decode_trees(buffer@, start as int, i as nat) == Some(
                    (trees@.map_values(|t: XGBTree| t@), offset as int),
                ),
                forall|j: int| 0 <= j < i ==> tree_wf(#[trigger] trees@[j]@),
            decreases count - i,
        {
            match XGBTree::load(buffer, offset) {
                Some((l, t)) => {
                    proof {
                        assert(trees@.push(t).map_values(|t: XGBTree| t@) =~= trees@.map_values(
                            |t: XGBTree| t@,
                        ).push(t@));
                    }
                    trees.push(t);
                    offset = offset + l;
                },
                None => {
                    proof {
                        assert(decode_trees(buffer@, start as int, (i + 1) as nat) is None);
                        lemma_decode_trees_none(buffer@, start as int, (i + 1) as nat, count as nat);
                    }
                    return None;
                },
            }
            i = i + 1;
        }
        let m = XGBModel::from_parts(num_features as usize, trees);
        proof {
            assert forall|j: int| 0 <= j < m@.trees.len() implies tree_wf(#[trigger] m@.trees[j]) by {
                assert(m@.trees[j] == trees@[j]@);
            }
        }
        Some(m)
    }
}

impl XGBNode {
    /// Decodes the node record at `offset` as node `id` of a tree of
    /// `num_nodes` nodes. The top bit of the split word selects the default
    /// child: the left one when set, the right one when clear; the other bits
    /// are the split feature.
    pub fn load(buffer: &[u8], offset: usize, id: usize, num_nodes: usize) -> (r: Option<XGBNode>)
        requires
            offset + NODE_BYTES <= buffer@.len(),
            id < num_nodes <= 0x7fff_ffff,
        ensures
            r == decode_node(buffer@, offset as int, id as int, num_nodes as int),
    {
        let len = buffer.len();
        assert(offset + NODE_BYTES <= len);
        let left = read_i32(buffer, offset + 4);
        let right = read_i32(buffer, offset + 8);
        let split = read_u32(buffer, offset + 12);
        let value = read_u32(buffer, offset + 16);
        if left == -1 {
            Some(XGBNode::Leaf { value })
        } else if left >= 0 && id < left as usize && (left as usize) < num_nodes && right >= 0 && id
            < right as usize && (right as usize) < num_nodes {
            let default = if split >> 31u32 != 0 {
                left as usize
            } else {
                right as usize
            };
            Some(
                XGBNode::Split {
                    feature: split & 0x7fff_ffff,
                    threshold: value,
                    left: left as usize,
                    right: right as usize,
                    default,
                },
            )
        } else {
            None
        }
    }
}

impl XGBTree {
    /// Decodes the tree section at `offset`, returning its length in bytes
    /// and the tree, or `None` when the section runs past the end of the
    /// buffer, declares no nodes, or holds a node that is not well formed.
    pub fn load(buffer: &[u8], offset: usize) -> (r: Option<(usize, XGBTree)>)
        ensures
            match r {
                Some((len, t)) => decode_tree(buffer@, offset as int) == Some((t@, len as int))
                    && tree_wf(t@),
                None => decode_tree(buffer@, offset as int) is None,
            },
    {
        let len = buffer.len();
        if offset > len || len - offset < TREE_PARAM_BYTES {
            return None;
        }
        let n = read_i32(buffer, offset + NUM_NODES_AT);
        let leaf_vector = read_i32(buffer, offset + LEAF_VECTOR_AT);
        let nodes_at = offset + TREE_PARAM_BYTES;
        if n <= 0 {
            return None;
        }
        let count = n as usize;
        let room = len - nodes_at;
        if count > room / (NODE_BYTES + NODE_STAT_BYTES) {
            assert(nodes_at + (NODE_BYTES + NODE_STAT_BYTES) * n > len) by (nonlinear_arith)
                requires
                    count > room / 36,
                    count == n,
                    room == len - nodes_at,
                    NODE_BYTES + NODE_STAT_BYTES == 36,
            ;
            return None;
        }
        assert(36 * count <= room) by (nonlinear_arith)
            requires
                count <= room / 36,
        ;
        let stats_end = nodes_at + (NODE_BYTES + NODE_STAT_BYTES) * count;
        let mut nodes: Vec<XGBNode> = Vec::new();
        let mut k: usize = 0;
        while k < count
            invariant
                k <= count,
                count == n,
                n == i32_le(buffer@, offset + NUM_NODES_AT),
                leaf_vector == i32_le(buffer@, offset + LEAF_VECTOR_AT),
                nodes_at == offset + TREE_PARAM_BYTES,
                0 < count <= 0x7fff_ffff,
                nodes_at + 36 * count <= len,
                len == buffer@.len(),
                nodes@.len() == k,
                forall|j: int|
                    0 <= j < k ==> #[trigger] decode_node(
                        buffer@,
                        node_offset(nodes_at as int, j),
                        j,
                        count as int,
                    ) == Some(nodes@[j]),
            decreases count - k,
        {
            assert(20 * k + 20 <= 36 * count) by (nonlinear_arith)
                requires
                    k < count,
            ;
            let at = nodes_at + NODE_BYTES * k;
            match XGBNode::load(buffer, at, k, count) {
                Some(node) => nodes.push(node),
                None => {
                    assert(at == node_offset(nodes_at as int, k as int));
                    assert(decode_node(buffer@, node_offset(nodes_at as int, k as int), k as int, n as int) is None);
                    assert(!nodes_decode(buffer@, nodes_at as int, n as nat));
                    return None;
                },
            }
            k = k + 1;
        }
        proof {
            assert(nodes_decode(buffer@, nodes_at as int, n as nat));
            assert(nodes@ =~= decoded_nodes(buffer@, nodes_at as int, n as nat));
            assert forall|i: int| 0 <= i < nodes@.len() implies node_wf(
                #[trigger] nodes@[i],
                i,
                nodes@.len() as int,
            ) by {
                assert(decode_node(buffer@, node_offset(nodes_at as int, i), i, count as int) == Some(
                    nodes@[i],
                ));
            }
        }
        if leaf_vector == 0 {
            return Some((stats_end - offset, XGBTree::from_nodes(nodes)));
        }
        if len - stats_end < LENGTH_BYTES {
            return None;
        }
        let extra = read_u64(buffer, stats_end);
        let rest = len - stats_end - LENGTH_BYTES;
        let fit = rest / LEAF_VECTOR_ENTRY_BYTES;
        if extra > fit as u64 {
            assert(stats_end + LENGTH_BYTES + LEAF_VECTOR_ENTRY_BYTES * extra > len) by (
            nonlinear_arith)
                requires
                    extra > rest / 4,
                    rest == len - stats_end - 8,
                    fit == rest / 4,
                    LENGTH_BYTES == 8,
                    LEAF_VECTOR_ENTRY_BYTES == 4,
            ;
            return None;
        }
        assert(4 * extra <= rest) by (nonlinear_arith)
            requires
                extra <= rest / 4,
        ;
        let end = stats_end + LENGTH_BYTES + LEAF_VECTOR_ENTRY_BYTES * (extra as usize);
        Some((end - offset, XGBTree::from_nodes(nodes)))
    }
}

} // verus!

//! The forest of decision trees and its traversal.
use vstd::prelude::*;
use crate::float_bits::{is_zero, lt, lt_bits};
use crate::fvec::FVec;

verus! {

/// One node of a tree. Values and thresholds are binary32 bit patterns.
#[derive(PartialEq, Eq, Structural, Clone, Copy, Debug)]
pub enum XGBNode {
    /// A leaf, contributing `value` to a prediction.
    Leaf { value: u32 },
    /// An internal node: a feature below `threshold` goes `left`, any other
    /// present value goes `right`, and a missing one goes to `default`.
    Split { feature: u32, threshold: u32, left: usize, right: usize, default: usize },
}

/// The child that `node` sends the feature vector `feats` to.
pub open spec fn next_node(node: XGBNode, feats: Seq<u32>) -> int {
    match node {
        XGBNode::Leaf { .. } => 0,
        XGBNode::Split { feature, threshold, left, right, default } => {
            if is_zero(feats[feature as int]) {
                default as int
            } else if lt(feats[feature as int], threshold) {
                left as int
            } else {
                right as int
            }
        },
    }
}

/// The leaf reached from node `nid` by following `next_node`.
pub open spec fn leaf_from(nodes: Seq<XGBNode>, feats: Seq<u32>, nid: int) -> int
    decreases nodes.len() - nid,
{
    if 0 <= nid < nodes.len() && nodes[nid] is Split {
        let c = next_node(nodes[nid], feats);
        if nid < c < nodes.len() {
            leaf_from(nodes, feats, c)
        } else {
            nid
        }
    } else {
        nid
    }
}

/// The value of the leaf `nid` (zero for a node that is not a leaf).
pub open spec fn leaf_value(nodes: Seq<XGBNode>, nid: int) -> u32 {
    match nodes[nid] {
        XGBNode::Leaf { value } => value,
        XGBNode::Split { .. } => 0,
    }
}

/// Whether `node`, at position `id` of a tree of `n` nodes, has children that
/// come after it in the tree, and a default that is one of them.
pub open spec fn node_wf(node: XGBNode, id: int, n: int) -> bool {
    match node {
        XGBNode::Leaf { .. } => true,
        XGBNode::Split { left, right, default, .. } => id < left < n && id < right < n && (
        default == left || default == right),
    }
}

/// A tree: a root at position 0, a node count that fits a 32-bit signed
/// integer, and children that follow their parent, so that every walk from
/// the root ends at a leaf.
pub open spec fn tree_wf(nodes: Seq<XGBNode>) -> bool {
    0 < nodes.len() <= 0x7fff_ffff && forall|i: int|
        0 <= i < nodes.len() ==> node_wf(#[trigger] nodes[i], i, nodes.len() as int)
}

/// Whether every split feature of the tree is a position of a vector of `n` features.
pub open spec fn tree_fits(nodes: Seq<XGBNode>, n: nat) -> bool {
    forall|i: int|
        0 <= i < nodes.len() ==> match #[trigger] nodes[i] {
            XGBNode::Leaf { .. } => true,
            XGBNode::Split { feature, .. } => (feature as nat) < n,
        }
}

/// A decision tree: its nodes, the root first.
pub struct XGBTree {
    nodes: Vec<XGBNode>,
}

impl View for XGBTree {
    type V = Seq<XGBNode>;

    closed spec fn view(&self) -> Seq<XGBNode> {
        self.nodes@
    }
}

/// The model as the contracts see it.
pub struct ModelView {
    pub num_features: nat,
    pub trees: Seq<Seq<XGBNode>>,
}

/// Whether the model holds at least one tree, each of them well formed.
pub open spec fn model_wf(m: ModelView) -> bool {
    0 < m.trees.len() && 0 < m.num_features && forall|i: int|
        0 <= i < m.trees.len() ==> tree_wf(#[trigger] m.trees[i])
}

/// Whether every split feature of the model is a position of a vector of `n` features.
pub open spec fn model_fits(m: ModelView, n: nat) -> bool {
    forall|i: int| 0 <= i < m.trees.len() ==> tree_fits(#[trigger] m.trees[i], n)
}

/// The number of trees a prediction visits: all of them for a limit of 0.
pub open spec fn effective_limit(num_trees: nat, tree_limit: nat) -> nat {
    if tree_limit == 0 {
        num_trees
    } else {
        tree_limit
    }
}

/// The leaf reached in each of the first `k` trees.
pub open spec fn leaf_indices(trees: Seq<Seq<XGBNode>>, feats: Seq<u32>, k: nat) -> Seq<int> {
    Seq::new(k, |i: int| leaf_from(trees[i], feats, 0))
}

/// The value of the leaf reached in each of the first `k` trees.
pub open spec fn leaf_values(trees: Seq<Seq<XGBNode>>, feats: Seq<u32>, k: nat) -> Seq<u32> {
    Seq::new(k, |i: int| leaf_value(trees[i], leaf_from(trees[i], feats, 0)))
}

/// `preds` with its first `k` slots holding the leaf reached in each of the first `k` trees.
pub open spec fn with_leaf_indices(
    preds: Seq<u32>,
    trees: Seq<Seq<XGBNode>>,
    feats: Seq<u32>,
    k: nat,
) -> Seq<u32> {
    Seq::new(
        preds.len(),
        |i: int| if i < k { leaf_from(trees[i], feats, 0) as u32 } else { preds[i] },
    )
}

/// A loaded model: the number of features it was trained on, and its trees in
/// boosting order.
pub struct XGBModel {
    num_features: usize,
    trees: Vec<XGBTree>,
}

impl View for XGBModel {
    type V = ModelView;

    closed spec fn view(&self) -> ModelView {
        ModelView { num_features: self.num_features as nat, trees: self.trees@.map_values(|t: XGBTree| t@) }
    }
}

impl XGBNode {
    /// Whether the node is a leaf.
    pub fn is_leaf(&self) -> (r: bool)
        ensures
            r == (*self is Leaf),
    {
        match self {
            XGBNode::Leaf { .. } => true,
            XGBNode::Split { .. } => false,
        }
    }

    /// The child that this internal node sends `feats` to.
    pub fn next(&self, feats: &FVec) -> (r: usize)
        requires
            *self is Split,
            (self->feature as nat) < feats@.len(),
        ensures
            r as int == next_node(*self, feats@),
    {
        match *self {
            XGBNode::Leaf { .. } => 0,
            XGBNode::Split { feature, threshold, left, right, default } => {
                let f = feature as usize;
                if feats.is_missing(f) {
                    default
                } else if lt_bits(feats.fvalue(f), threshold) {
                    left
                } else {
                    right
                }
            },
        }
    }
}

impl XGBTree {
    pub(crate) fn from_nodes(nodes: Vec<XGBNode>) -> (r: XGBTree)
        ensures
            r@ == nodes@,
    {
        XGBTree { nodes }
    }

    /// The leaf that `feats` reaches from the root.
    pub fn get_leaf_index(&self, feats: &FVec) -> (r: usize)
        requires
            tree_wf(self@),
            tree_fits(self@, feats@.len()),
        ensures
            r as int == leaf_from(self@, feats@, 0),
            r < self@.len(),
            self@[r as int] is Leaf,
    {
        let mut nid: usize = 0;
        while !self.nodes[nid].is_leaf()
            invariant
                tree_wf(self@),
                tree_fits(self@, feats@.len()),
                nid < self@.len(),
                leaf_from(self@, feats@, nid as int) == leaf_from(self@, feats@, 0),
            decreases self@.len() - nid,
        {
            let node = self.nodes[nid];
            assert(node_wf(self@[nid as int], nid as int, self@.len() as int));
            assert(match self@[nid as int] {
                XGBNode::Leaf { .. } => true,
                XGBNode::Split { feature, .. } => (feature as nat) < feats@.len(),
            });
            nid = node.next(feats);
        }
        nid
    }

    /// The value of leaf `nid`.
    pub fn get_leaf_value(&self, nid: usize) -> (r: u32)
        requires
            nid < self@.len(),
        ensures
            r == leaf_value(self@, nid as int),
    {
        match self.nodes[nid] {
            XGBNode::Leaf { value } => value,
            XGBNode::Split { .. } => 0,
        }
    }

    fn fits(&self, n: usize) -> (r: bool)
        ensures
            r == tree_fits(self@, n as nat),
    {
        let mut i: usize = 0;
        while i < self.nodes.len()
            invariant
                i <= self@.len(),
                forall|j: int|
                    0 <= j < i ==> match #[trigger] self@[j] {
                        XGBNode::Leaf { .. } => true,
                        XGBNode::Split { feature, .. } => (feature as nat) < n,
                    },
            decreases self@.len() - i,
        {
            match self.nodes[i] {
                XGBNode::Leaf { .. } => {},
                XGBNode::Split { feature, .. } => {
                    if feature as usize >= n {
                        assert(!tree_fits(self@, n as nat)) by {
                            assert(match self@[i as int] {
                                XGBNode::Leaf { .. } => true,
                                XGBNode::Split { feature, .. } => (feature as nat) < n,
                            } == false);
                        }
                        return false;
                    }
                },
            }
            i = i + 1;
        }
        true
    }
}

impl XGBModel {
    pub(crate) fn from_parts(num_features: usize, trees: Vec<XGBTree>) -> (r: XGBModel)
        ensures
            r@.num_features == num_features as nat,
            r@.trees == trees@.map_values(|t: XGBTree| t@),
    {
        XGBModel { num_features, trees }
    }

    /// The number of trees.
    pub fn num_trees(&self) -> (r: usize)
        ensures
            r == self@.trees.len(),
    {
        self.trees.len()
    }

    /// The number of features the model was trained on.
    pub fn num_features(&self) -> (r: usize)
        ensures
            r == self@.num_features,
    {
        self.num_features
    }

    /// Whether every split feature of the model is a position of `feats`,
    /// which the predictions require.
    pub fn supports(&self, feats: &FVec) -> (r: bool)
        ensures
            r == model_fits(self@, feats@.len()),
    {
        let n = feats.len();
        let mut i: usize = 0;
        while i < self.trees.len()
            invariant
                i <= self.trees@.len(),
                n == feats@.len(),
                forall|j: int| 0 <= j < i ==> tree_fits(#[trigger] self@.trees[j], n as nat),
            decreases self.trees@.len() - i,
        {
            if !self.trees[i].fits(n) {
                assert(!tree_fits(self@.trees[i as int], n as nat));
                return false;
            }
            i = i + 1;
        }
        true
    }

    /// Writes into `preds[i]` the leaf that `feats` reaches in tree `i`, for
    /// each of the first `tree_limit` trees (all of them when `tree_limit` is 0).
    pub fn predict_leaf(&self, feats: &FVec, tree_limit: usize, preds: &mut [u32])
        requires
            model_wf(self@),
            model_fits(self@, feats@.len()),
            tree_limit <= self@.trees.len(),
            effective_limit(self@.trees.len(), tree_limit as nat) <= old(preds)@.len(),
        ensures
            final(preds)@ == with_leaf_indices(
                old(preds)@,
                self@.trees,
                feats@,
                effective_limit(self@.trees.len(), tree_limit as nat),
            ),
    {
        let limit = if tree_limit == 0 {
            self.trees.len()
        } else {
            tree_limit
        };
        let mut i: usize = 0;
        while i < limit
            invariant
                model_wf(self@),
                model_fits(self@, feats@.len()),
                limit == effective_limit(self@.trees.len(), tree_limit as nat),
                limit <= self@.trees.len(),
                limit <= preds@.len(),
                i <= limit,
                preds@ == with_leaf_indices(old(preds)@, self@.trees, feats@, i as nat),
            decreases limit - i,
        {
            let tree = &self.trees[i];
            assert(self@.trees[i as int] == tree@);
            assert(tree_wf(self@.trees[i as int]));
            assert(tree_fits(self@.trees[i as int], feats@.len()));
            let nid = tree.get_leaf_index(feats);
            preds[i] = nid as u32;
            assert(preds@ =~= with_leaf_indices(old(preds)@, self@.trees, feats@, (i + 1) as nat));
            i = i + 1;
        }
    }

    /// The bit patterns of the values of the leaves that `feats` reaches in
    /// the first `tree_limit` trees (all of them when `tree_limit` is 0), in
    /// tree order. Their sum is the raw margin score.
    pub fn predict_leaf_values(&self, feats: &FVec, tree_limit: usize) -> (r: Vec<u32>)
        requires
            model_wf(self@),
            model_fits(self@, feats@.len()),
            tree_limit <= self@.trees.len(),
        ensures
            r@ == leaf_values(
                self@.trees,
                feats@,
                effective_limit(self@.trees.len(), tree_limit as nat),
            ),
    {
        let limit = if tree_limit == 0 {
            self.trees.len()
        } else {
            tree_limit
        };
        let mut values: Vec<u32> = Vec::with_capacity(limit);
        let mut i: usize = 0;
        while i < limit
            invariant
                model_wf(self@),
                model_fits(self@, feats@.len()),
                limit == effective_limit(self@.trees.len(), tree_limit as nat),
                limit <= self@.trees.len(),
                i <= limit,
                values@ == leaf_values(self@.trees, feats@, i as nat),
            decreases limit - i,
        {
            let tree = &self.trees[i];
            assert(self@.trees[i as int] == tree@);
            assert(tree_wf(self@.trees[i as int]));
            assert(tree_fits(self@.trees[i as int], feats@.len()));
            let nid = tree.get_leaf_index(feats);
            values.push(tree.get_leaf_value(nid));
            assert(values@ =~= leaf_values(self@.trees, feats@, (i + 1) as nat));
            i = i + 1;
        }
        values
    }
}

/// A node whose split feature is missing sends the vector to its default
/// child, whatever its threshold.
pub proof fn lemma_missing_goes_default(
    feature: u32,
    threshold: u32,
    left: usize,
    right: usize,
    default: usize,
    feats: Seq<u32>,
)
    requires
        (feature as nat) < feats.len(),
        is_zero(feats[feature as int]),
    ensures
        next_node(XGBNode::Split { feature, threshold, left, right, default }, feats)
            == default as int,
{
}

/// In a well-formed tree, the walk through a node whose split feature is
/// missing continues from that node's default child.
pub proof fn lemma_missing_walks_default(nodes: Seq<XGBNode>, feats: Seq<u32>, nid: int)
    requires
        tree_wf(nodes),
        0 <= nid < nodes.len(),
        nodes[nid] is Split,
        (nodes[nid]->feature as nat) < feats.len(),
        is_zero(feats[nodes[nid]->feature as int]),
    ensures
        leaf_from(nodes, feats, nid) == leaf_from(nodes, feats, nodes[nid]->default as int),
{
    assert(node_wf(nodes[nid], nid, nodes.len() as int));
}

/// Visiting the first `k` trees gives the leaves of the first `k` trees of a
/// full visit, in order; a limit of 0 is a full visit.
pub proof fn lemma_tree_limit_prefix(m: ModelView, feats: Seq<u32>, k: nat)
    requires
        k <= m.trees.len(),
    ensures
        leaf_values(m.trees, feats, effective_limit(m.trees.len(), k)) == leaf_values(
            m.trees,
            feats,
            m.trees.len(),
        ).take(effective_limit(m.trees.len(), k) as int),
        leaf_indices(m.trees, feats, effective_limit(m.trees.len(), k)) == leaf_indices(
            m.trees,
            feats,
            m.trees.len(),
        ).take(effective_limit(m.trees.len(), k) as int),
        leaf_values(m.trees, feats, effective_limit(m.trees.len(), 0)) == leaf_values(
            m.trees,
            feats,
            m.trees.len(),
        ),
        k < m.trees.len() ==> leaf_values(m.trees, feats, (k + 1) as nat) == leaf_values(
            m.trees,
            feats,
            k,
        ).push(leaf_value(m.trees[k as int], leaf_from(m.trees[k as int], feats, 0))),
{
    let e = effective_limit(m.trees.len(), k);
    assert(leaf_values(m.trees, feats, e) =~= leaf_values(m.trees, feats, m.trees.len()).take(
        e as int,
    ));
    assert(leaf_indices(m.trees, feats, e) =~= leaf_indices(m.trees, feats, m.trees.len()).take(
        e as int,
    ));
    if k < m.trees.len() {
        assert(leaf_values(m.trees, feats, (k + 1) as nat) =~= leaf_values(m.trees, feats, k).push(
            leaf_value(m.trees[k as int], leaf_from(m.trees[k as int], feats, 0)),
        ));
    }
}

} // verus!

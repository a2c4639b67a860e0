use vstd::prelude::*;

verus! {

/// Largest number of items that a leaf holds under the default build policy.
pub const LEAF_SIZE: usize = 10;

/// One node of a hierarchy over the items `start..end` of a sorted item array.
/// A branch names its two children by their index in the node array.
#[derive(Clone, Copy, Debug, PartialEq, Eq, Structural)]
pub enum BvhNode {
    Leaf { start: usize, end: usize },
    Branch { start: usize, end: usize, left: usize, right: usize },
}

/// Why a hierarchy cannot be built.
#[derive(Clone, Copy, Debug, PartialEq, Eq, Structural)]
pub enum BuildError {
    /// The scene holds no item.
    EmptyScene,
}

impl BvhNode {
    pub open spec fn lo(self) -> int {
        match self {
            BvhNode::Leaf { start, .. } => start as int,
            BvhNode::Branch { start, .. } => start as int,
        }
    }

    pub open spec fn hi(self) -> int {
        match self {
            BvhNode::Leaf { end, .. } => end as int,
            BvhNode::Branch { end, .. } => end as int,
        }
    }

    /// First item of the node's range.
    pub fn start(&self) -> (r: usize)
        ensures
            r == self.lo(),
    {
        match self {
            BvhNode::Leaf { start, .. } => *start,
            BvhNode::Branch { start, .. } => *start,
        }
    }

    /// One past the last item of the node's range.
    pub fn end(&self) -> (r: usize)
        ensures
            r == self.hi(),
    {
        match self {
            BvhNode::Leaf { end, .. } => *end,
            BvhNode::Branch { end, .. } => *end,
        }
    }
}

/// Where a range of items is cut in two: its middle, rounded down.
pub open spec fn split_mid(start: int, end: int) -> int {
    start + (end - start) / 2
}

/// Node `i` of `s` covers a non-empty range; it is a leaf exactly when the range
/// holds at most `leaf_size` items, and a branch's children stand before it and
/// cover the two halves of its range.
pub open spec fn node_wf(s: Seq<BvhNode>, i: int, leaf_size: int) -> bool {
    match s[i] {
        BvhNode::Leaf { start, end } => start < end && end - start <= leaf_size,
        BvhNode::Branch { start, end, left, right } => {
            &&& start < end
            &&& end - start > leaf_size
            &&& left < i
            &&& right < i
            &&& s[left as int].lo() == start
            &&& s[left as int].hi() == split_mid(start as int, end as int)
            &&& s[right as int].lo() == split_mid(start as int, end as int)
            &&& s[right as int].hi() == end
        },
    }
}

/// Node `j` is a branch with node `i` as a child.
pub open spec fn is_parent(s: Seq<BvhNode>, j: int, i: int) -> bool {
    match s[j] {
        BvhNode::Leaf { .. } => false,
        BvhNode::Branch { left, right, .. } => left == i || right == i,
    }
}

/// Node `i` is the child of some node after it.
pub open spec fn has_parent(s: Seq<BvhNode>, i: int) -> bool {
    exists|j: int| i < j < s.len() && #[trigger] is_parent(s, j, i)
}

pub open spec fn nodes_wf(s: Seq<BvhNode>, leaf_size: int) -> bool {
    forall|i: int| 0 <= i < s.len() ==> #[trigger] node_wf(s, i, leaf_size)
}

/// The node reached from node `i` by descending, at each branch, into the child
/// whose range holds item `k`.
pub open spec fn descend(s: Seq<BvhNode>, i: int, k: int) -> int
    decreases i,
{
    if 0 <= i < s.len() {
        match s[i] {
            BvhNode::Leaf { .. } => i,
            BvhNode::Branch { start, end, left, right } => {
                if left < i && right < i {
                    if k < split_mid(start as int, end as int) {
                        descend(s, left as int, k)
                    } else {
                        descend(s, right as int, k)
                    }
                } else {
                    i
                }
            },
        }
    } else {
        i
    }
}

/// The leaves under node `i`, left to right.
pub open spec fn leaves(s: Seq<BvhNode>, i: int) -> Seq<int>
    decreases i,
{
    if 0 <= i < s.len() {
        match s[i] {
            BvhNode::Leaf { .. } => seq![i],
            BvhNode::Branch { left, right, .. } => {
                if left < i && right < i {
                    leaves(s, left as int) + leaves(s, right as int)
                } else {
                    seq![i]
                }
            },
        }
    } else {
        seq![i]
    }
}

/// The nodes `ls` are leaves of `s` whose non-empty ranges follow one another
/// without gap or overlap from `lo` to `hi`.
pub open spec fn tiles(s: Seq<BvhNode>, ls: Seq<int>, lo: int, hi: int) -> bool {
    &&& ls.len() > 0
    &&& forall|q: int| 0 <= q < ls.len() ==> 0 <= #[trigger] ls[q] < s.len()
    &&& forall|q: int| 0 <= q < ls.len() ==> s[#[trigger] ls[q]] is Leaf
    &&& forall|q: int| 0 <= q < ls.len() ==> s[#[trigger] ls[q]].lo() < s[ls[q]].hi()
    &&& s[ls[0]].lo() == lo
    &&& s[ls.last()].hi() == hi
    &&& forall|q: int| 0 <= q < ls.len() - 1 ==> s[#[trigger] ls[q]].hi() == s[ls[q + 1]].lo()
}

/// The shape of a bounding-volume hierarchy over `n` items: which ranges of the
/// sorted item array become leaves and how branches split them. Children stand
/// before their parent; the root is the last node and covers `0..n`.
pub struct BvhTree {
    nodes: Vec<BvhNode>,
    leaf_size: usize,
    count: usize,
}

impl View for BvhTree {
    type V = Seq<BvhNode>;

    closed spec fn view(&self) -> Seq<BvhNode> {
        self.nodes@
    }
}

impl BvhTree {
    pub closed spec fn spec_leaf_size(&self) -> nat {
        self.leaf_size as nat
    }

    pub closed spec fn spec_item_count(&self) -> nat {
        self.count as nat
    }

    pub open spec fn spec_root(&self) -> int {
        self@.len() - 1
    }

    pub open spec fn wf(&self) -> bool {
        &&& self.spec_leaf_size() >= 1
        &&& self@.len() >= 1
        &&& nodes_wf(self@, self.spec_leaf_size() as int)
        &&& forall|i: int| 0 <= i < self.spec_root() ==> #[trigger] has_parent(self@, i)
        &&& self@[self.spec_root()].lo() == 0
        &&& self@[self.spec_root()].hi() == self.spec_item_count()
    }

    /// Plans the hierarchy over `count` items, with at most `leaf_size` items per leaf.
    /// An empty scene cannot be built.
    pub fn build(count: usize, leaf_size: usize) -> (r: Result<BvhTree, BuildError>)
        requires
            leaf_size >= 1,
        ensures
            count == 0 ==> r == Err::<BvhTree, BuildError>(BuildError::EmptyScene),
            count > 0 ==> r is Ok && r->Ok_0.wf() && r->Ok_0.spec_item_count() == count
                && r->Ok_0.spec_leaf_size() == leaf_size,
    {
        if count == 0 {
            return Err(BuildError::EmptyScene);
        }
        let mut nodes: Vec<BvhNode> = Vec::new();
        build_range(&mut nodes, 0, count, leaf_size);
        Ok(BvhTree { nodes, leaf_size, count })
    }

    /// Index of the root node.
    pub fn root(&self) -> (r: usize)
        requires
            self.wf(),
        ensures
            r == self.spec_root(),
    {
        self.nodes.len() - 1
    }

    /// Node `i`.
    pub fn node(&self, i: usize) -> (r: BvhNode)
        requires
            i < self@.len(),
        ensures
            r == self@[i as int],
    {
        self.nodes[i]
    }

    /// Number of nodes.
    pub fn node_count(&self) -> (r: usize)
        ensures
            r == self@.len(),
    {
        self.nodes.len()
    }

    /// Number of items the hierarchy was planned over.
    pub fn item_count(&self) -> (r: usize)
        ensures
            r == self.spec_item_count(),
    {
        self.count
    }

    /// Largest number of items in a leaf.
    pub fn leaf_size(&self) -> (r: usize)
        ensures
            r == self.spec_leaf_size(),
    {
        self.leaf_size
    }
}

proof fn lemma_wf_prefix(s: Seq<BvhNode>, t: Seq<BvhNode>, leaf_size: int)
    requires
        nodes_wf(s, leaf_size),
        s.len() <= t.len(),
        t.subrange(0, s.len() as int) == s,
    ensures
        forall|i: int| 0 <= i < s.len() ==> #[trigger] node_wf(t, i, leaf_size),
{
    assert forall|i: int| 0 <= i < s.len() implies #[trigger] node_wf(t, i, leaf_size) by {
        assert(node_wf(s, i, leaf_size));
        assert(t[i] == s[i]);
        match s[i] {
            BvhNode::Leaf { .. } => {},
            BvhNode::Branch { left, right, .. } => {
                assert(t[left as int] == s[left as int]);
                assert(t[right as int] == s[right as int]);
            },
        }
    }
}

proof fn lemma_parent_prefix(s: Seq<BvhNode>, t: Seq<BvhNode>, lo: int)
    requires
        s.len() <= t.len(),
        t.subrange(0, s.len() as int) == s,
        forall|i: int| lo <= i < s.len() - 1 ==> #[trigger] has_parent(s, i),
    ensures
        forall|i: int| lo <= i < s.len() - 1 ==> #[trigger] has_parent(t, i),
{
    assert forall|i: int| lo <= i < s.len() - 1 implies #[trigger] has_parent(t, i) by {
        assert(has_parent(s, i));
        let j = choose|j: int| i < j < s.len() && #[trigger] is_parent(s, j, i);
        assert(t.subrange(0, s.len() as int)[j] == t[j]);
        assert(t[j] == s[j]);
        assert(is_parent(t, j, i));
    }
}

/// Appends the nodes for items `start..end` and returns the index of their root.
fn build_range(nodes: &mut Vec<BvhNode>, start: usize, end: usize, leaf_size: usize) -> (root: usize)
    requires
        start < end,
        leaf_size >= 1,
        nodes_wf(old(nodes)@, leaf_size as int),
    ensures
        final(nodes)@.len() > old(nodes)@.len(),
        final(nodes)@.subrange(0, old(nodes)@.len() as int) == old(nodes)@,
        nodes_wf(final(nodes)@, leaf_size as int),
        root == final(nodes)@.len() - 1,
        forall|i: int| old(nodes)@.len() <= i < root ==> #[trigger] has_parent(final(nodes)@, i),
        final(nodes)@[root as int].lo() == start,
        final(nodes)@[root as int].hi() == end,
    decreases end - start,
{
    let ghost s0 = nodes@;
    if end - start <= leaf_size {
        nodes.push(BvhNode::Leaf { start, end });
        proof {
            assert(nodes@.subrange(0, s0.len() as int) =~= s0);
            lemma_wf_prefix(s0, nodes@, leaf_size as int);
            assert(node_wf(nodes@, s0.len() as int, leaf_size as int));
        }
        nodes.len() - 1
    } else {
        let mid = start + (end - start) / 2;
        let left = build_range(nodes, start, mid, leaf_size);
        let ghost s1 = nodes@;
        let right = build_range(nodes, mid, end, leaf_size);
        let ghost s2 = nodes@;
        nodes.push(BvhNode::Branch { start, end, left, right });
        proof {
            assert(s2.subrange(0, s1.len() as int) == s1);
            assert(s2[left as int] == s1[left as int]);
            assert(nodes@.subrange(0, s2.len() as int) =~= s2);
            lemma_wf_prefix(s2, nodes@, leaf_size as int);
            let s3 = nodes@;
            let top = s2.len() as int;
            assert(is_parent(s3, top, left as int));
            assert(is_parent(s3, top, right as int));
            assert(s3.subrange(0, s1.len() as int) =~= s1) by {
                assert forall|i: int| 0 <= i < s1.len() implies s3[i] == s1[i] by {
                    assert(s2.subrange(0, s1.len() as int)[i] == s2[i]);
                    assert(s3.subrange(0, s2.len() as int)[i] == s3[i]);
                }
            }
            lemma_parent_prefix(s1, s3, s0.len() as int);
            lemma_parent_prefix(s2, s3, s1.len() as int);
            assert forall|i: int| s0.len() <= i < top implies #[trigger] has_parent(s3, i) by {
                if i == left as int || i == right as int {
                    assert(is_parent(s3, top, i));
                } else if i < left as int {
                    assert(has_parent(s1, i));
                } else {
                    assert(has_parent(s2, i));
                }
            }
            assert(nodes@[left as int] == s2[left as int]);
            assert(nodes@[right as int] == s2[right as int]);
            assert(node_wf(nodes@, s2.len() as int, leaf_size as int));
            assert(nodes@.subrange(0, s0.len() as int) =~= s0) by {
                assert(s1.subrange(0, s0.len() as int) == s0);
                assert forall|i: int| 0 <= i < s0.len() implies nodes@[i] == s0[i] by {
                    assert(s1[i] == s0[i]);
                    assert(s2[i] == s1[i]);
                }
            }
        }
        nodes.len() - 1
    }
}

proof fn lemma_descend_leaf(s: Seq<BvhNode>, leaf_size: int, i: int, k: int)
    requires
        nodes_wf(s, leaf_size),
        0 <= i < s.len(),
        s[i].lo() <= k < s[i].hi(),
    ensures
        0 <= descend(s, i, k) < s.len(),
        s[descend(s, i, k)] is Leaf,
        s[descend(s, i, k)].lo() <= k < s[descend(s, i, k)].hi(),
    decreases i,
{
    assert(node_wf(s, i, leaf_size));
    match s[i] {
        BvhNode::Leaf { .. } => {},
        BvhNode::Branch { start, end, left, right } => {
            if k < split_mid(start as int, end as int) {
                lemma_descend_leaf(s, leaf_size, left as int, k);
            } else {
                lemma_descend_leaf(s, leaf_size, right as int, k);
            }
        },
    }
}

/// Every item of a planned hierarchy lies in a leaf: descending from the root
/// toward item `k` ends at a leaf whose range holds `k`.
pub proof fn lemma_every_item_in_a_leaf(t: &BvhTree, k: int)
    requires
        t.wf(),
        0 <= k < t.spec_item_count(),
    ensures
        0 <= descend(t@, t.spec_root(), k) < t@.len(),
        t@[descend(t@, t.spec_root(), k)] is Leaf,
        t@[descend(t@, t.spec_root(), k)].lo() <= k,
        k < t@[descend(t@, t.spec_root(), k)].hi(),
{
    lemma_descend_leaf(t@, t.spec_leaf_size() as int, t.spec_root(), k);
}

proof fn lemma_leaves_tile(s: Seq<BvhNode>, leaf_size: int, i: int)
    requires
        nodes_wf(s, leaf_size),
        0 <= i < s.len(),
    ensures
        tiles(s, leaves(s, i), s[i].lo(), s[i].hi()),
    decreases i,
{
    assert(node_wf(s, i, leaf_size));
    match s[i] {
        BvhNode::Leaf { .. } => {},
        BvhNode::Branch { start, end, left, right } => {
            lemma_leaves_tile(s, leaf_size, left as int);
            lemma_leaves_tile(s, leaf_size, right as int);
            let a = leaves(s, left as int);
            let b = leaves(s, right as int);
            let ls = a + b;
            assert(ls == leaves(s, i));
            assert forall|q: int| 0 <= q < ls.len() - 1 implies s[#[trigger] ls[q]].hi() == s[ls[q + 1]].lo() by {
                if q < a.len() - 1 {
                    assert(ls[q] == a[q] && ls[q + 1] == a[q + 1]);
                } else if q == a.len() - 1 {
                    assert(ls[q] == a.last() && ls[q + 1] == b[0]);
                } else {
                    assert(ls[q] == b[q - a.len()] && ls[q + 1] == b[q - a.len() + 1]);
                }
            }
            assert forall|q: int| 0 <= q < ls.len() implies 0 <= #[trigger] ls[q] < s.len() && s[ls[q]] is Leaf
                && s[ls[q]].lo() < s[ls[q]].hi() by {
                if q < a.len() {
                    assert(ls[q] == a[q]);
                } else {
                    assert(ls[q] == b[q - a.len()]);
                }
            }
            assert(ls[0] == a[0]);
            assert(ls.last() == b.last());
        },
    }
}

/// Every item of a planned hierarchy lies in exactly one leaf: read left to
/// right, the leaves under the root cover `0..n` end to end, each with a
/// non-empty range of at most `leaf_size` items.
pub proof fn lemma_leaves_partition_items(t: &BvhTree)
    requires
        t.wf(),
    ensures
        tiles(t@, leaves(t@, t.spec_root()), 0, t.spec_item_count() as int),
        forall|q: int| 0 <= q < leaves(t@, t.spec_root()).len() ==>
            t@[#[trigger] leaves(t@, t.spec_root())[q]].hi() - t@[leaves(t@, t.spec_root())[q]].lo()
                <= t.spec_leaf_size(),
{
    let s = t@;
    let ls = leaves(s, t.spec_root());
    lemma_leaves_tile(s, t.spec_leaf_size() as int, t.spec_root());
    assert forall|q: int| 0 <= q < ls.len() implies s[#[trigger] ls[q]].hi() - s[ls[q]].lo() <= t.spec_leaf_size() by {
        assert(node_wf(s, ls[q], t.spec_leaf_size() as int));
    }
}

} // verus!

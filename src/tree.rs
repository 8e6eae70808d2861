use vstd::prelude::*;

verus! {

/// One node of a capture history tree: a history-capturing group, the span
/// it matched, and the history groups nested in it, in order.
#[derive(Debug)]
pub struct CaptureTreeNode {
    group: usize,
    beg: usize,
    end: usize,
    children: Vec<CaptureTreeNode>,
}

/// Whether two nodes hold the same groups and spans, all the way down.
pub open spec fn same_tree(a: CaptureTreeNode, b: CaptureTreeNode) -> bool
    decreases a,
{
    &&& a.group_spec() == b.group_spec()
    &&& a.pos_spec() == b.pos_spec()
    &&& a.children_spec().len() == b.children_spec().len()
    &&& forall|i: int|
        0 <= i < a.children_spec().len() ==> same_tree(
            #[trigger] a.children_spec()[i],
            b.children_spec()[i],
        )
}

/// Whether two optional trees are both absent or hold the same groups and
/// spans.
pub open spec fn same_tree_opt(a: Option<CaptureTreeNode>, b: Option<CaptureTreeNode>) -> bool {
    match (a, b) {
        (Some(x), Some(y)) => same_tree(x, y),
        (None, None) => true,
        _ => false,
    }
}

impl CaptureTreeNode {
    pub closed spec fn group_spec(&self) -> usize {
        self.group
    }

    pub closed spec fn pos_spec(&self) -> (usize, usize) {
        (self.beg, self.end)
    }

    pub closed spec fn children_spec(&self) -> Seq<CaptureTreeNode> {
        self.children@
    }

    /// A node for `group` spanning `[beg, end)` with the given children.
    pub fn new(group: usize, beg: usize, end: usize, children: Vec<CaptureTreeNode>) -> (r:
        CaptureTreeNode)
        ensures
            r.group_spec() == group,
            r.pos_spec() == (beg, end),
            r.children_spec() == children@,
    {
        CaptureTreeNode { group, beg, end, children }
    }

    /// A copy of the node and everything under it.
    pub fn duplicate(&self) -> (r: CaptureTreeNode)
        ensures
            same_tree(r, *self),
        decreases self,
    {
        let mut children: Vec<CaptureTreeNode> = Vec::new();
        let mut i: usize = 0;
        while i < self.children.len()
            invariant
                i <= self.children@.len(),
                children@.len() == i,
                forall|k: int| 0 <= k < i ==> same_tree(#[trigger] children@[k], self.children@[k]),
            decreases self.children@.len() - i,
        {
            proof {
                assert(self.children@[i as int] == self.children[i as int]);
            }
            let child = self.children[i].duplicate();
            children.push(child);
            i = i + 1;
        }
        let r = CaptureTreeNode { group: self.group, beg: self.beg, end: self.end, children };
        proof {
            assert(r.children_spec() == children@);
        }
        r
    }

    /// The group number of this node; the root is group 0.
    pub fn group(&self) -> (r: usize)
        ensures
            r == self.group_spec(),
    {
        self.group
    }

    /// The byte span that the group matched.
    pub fn pos(&self) -> (r: (usize, usize))
        ensures
            r == self.pos_spec(),
    {
        (self.beg, self.end)
    }

    /// The number of direct children.
    pub fn len(&self) -> (r: usize)
        ensures
            r == self.children_spec().len(),
    {
        self.children.len()
    }

    /// Whether the node has no children.
    pub fn is_empty(&self) -> (r: bool)
        ensures
            r == (self.children_spec().len() == 0),
    {
        self.children.len() == 0
    }

    /// The child at `index`, which must be below `len()`.
    pub fn child(&self, index: usize) -> (r: &CaptureTreeNode)
        requires
            index < self.children_spec().len(),
        ensures
            *r == self.children_spec()[index as int],
    {
        &self.children[index]
    }

    /// The child at `index`, or `None` past the last child.
    pub fn get(&self, index: usize) -> (r: Option<&CaptureTreeNode>)
        ensures
            index < self.children_spec().len() ==> r == Some(&self.children_spec()[index as int]),
            index >= self.children_spec().len() ==> r.is_none(),
    {
        if index < self.children.len() {
            Some(&self.children[index])
        } else {
            None
        }
    }

    /// A forward cursor over the direct children.
    pub fn children(&self) -> (r: CaptureTreeNodeIter<'_>)
        ensures
            r.node_spec() == *self,
            r.index_spec() == 0,
    {
        CaptureTreeNodeIter { idx: 0, node: self }
    }
}

/// A forward cursor over the children of one node.
#[derive(Debug)]
pub struct CaptureTreeNodeIter<'t> {
    idx: usize,
    node: &'t CaptureTreeNode,
}

impl<'t> CaptureTreeNodeIter<'t> {
    pub closed spec fn node_spec(&self) -> CaptureTreeNode {
        *self.node
    }

    pub closed spec fn index_spec(&self) -> usize {
        self.idx
    }

    /// The next child, or `None` once all have been handed out.
    pub fn next(&mut self) -> (r: Option<&'t CaptureTreeNode>)
        ensures
            final(self).node_spec() == old(self).node_spec(),
            old(self).index_spec() < old(self).node_spec().children_spec().len() ==> (r == Some(
                &old(self).node_spec().children_spec()[old(self).index_spec() as int],
            ) && final(self).index_spec() == old(self).index_spec() + 1),
            old(self).index_spec() >= old(self).node_spec().children_spec().len() ==> (r.is_none()
                && final(self).index_spec() == old(self).index_spec()),
    {
        if self.idx < self.node.children.len() {
            let r = &self.node.children[self.idx];
            self.idx = self.idx + 1;
            Some(r)
        } else {
            None
        }
    }

    /// The number of children not yet handed out.
    pub fn remaining(&self) -> (r: usize)
        ensures
            r == if self.index_spec() < self.node_spec().children_spec().len() {
                self.node_spec().children_spec().len() - self.index_spec()
            } else {
                0
            },
    {
        if self.idx < self.node.children.len() {
            self.node.children.len() - self.idx
        } else {
            0
        }
    }
}

} // verus!

use vstd::prelude::*;

use crate::tree::{same_tree_opt, CaptureTreeNode};

verus! {

/// The span of group `i` in a sequence of slots: `None` past the end or
/// where the group took no part in the match.
pub open spec fn slot_at(slots: Seq<Option<(usize, usize)>>, i: int) -> Option<(usize, usize)> {
    if 0 <= i < slots.len() {
        slots[i]
    } else {
        None
    }
}

/// Whether a span, if any, begins no later than it ends.
pub open spec fn span_ordered(span: Option<(usize, usize)>) -> bool {
    match span {
        Some((b, e)) => b <= e,
        None => true,
    }
}

/// Whether every span of `slots` begins no later than it ends.
pub open spec fn spans_ordered(slots: Seq<Option<(usize, usize)>>) -> bool {
    forall|i: int| 0 <= i < slots.len() ==> span_ordered(#[trigger] slots[i])
}

/// The (begin, end) byte offsets of each group of one match, with the room
/// reserved for them and the capture history tree of the match, if any.
#[derive(Debug)]
pub struct Region {
    slots: Vec<Option<(usize, usize)>>,
    allocated: usize,
    history: Option<CaptureTreeNode>,
}

impl View for Region {
    type V = Seq<Option<(usize, usize)>>;

    closed spec fn view(&self) -> Seq<Option<(usize, usize)>> {
        self.slots@
    }
}

impl Region {
    #[verifier::type_invariant]
    spec fn inv(&self) -> bool {
        self.slots@.len() <= self.allocated && spans_ordered(self.slots@)
    }

    pub closed spec fn capacity_spec(&self) -> usize {
        self.allocated
    }

    pub closed spec fn tree_spec(&self) -> Option<CaptureTreeNode> {
        self.history
    }

    /// An empty region with no room reserved.
    pub fn new() -> (r: Region)
        ensures
            r@ == Seq::<Option<(usize, usize)>>::empty(),
            r.capacity_spec() == 0,
            r.tree_spec().is_none(),
    {
        Region { slots: Vec::new(), allocated: 0, history: None }
    }

    /// An empty region with room for `capacity` groups.
    pub fn with_capacity(capacity: usize) -> (r: Region)
        ensures
            r@ == Seq::<Option<(usize, usize)>>::empty(),
            r.capacity_spec() == capacity,
            r.tree_spec().is_none(),
    {
        let mut region = Region::new();
        region.reserve(capacity);
        region
    }

    /// Empties the region, keeping the room reserved.
    pub fn clear(&mut self)
        ensures
            final(self)@ == Seq::<Option<(usize, usize)>>::empty(),
            final(self).capacity_spec() == old(self).capacity_spec(),
            final(self).tree_spec().is_none(),
    {
        self.slots = Vec::new();
        self.history = None;
    }

    /// The number of groups the region can hold without growing.
    pub fn capacity(&self) -> (r: usize)
        ensures
            r == self.capacity_spec(),
            self@.len() <= r,
    {
        proof {
            use_type_invariant(self);
        }
        self.allocated
    }

    /// Grows the room to at least `new_capacity` groups; the groups held
    /// are kept.
    pub fn reserve(&mut self, new_capacity: usize)
        ensures
            final(self)@ == old(self)@,
            final(self).tree_spec() == old(self).tree_spec(),
            final(self).capacity_spec() == if old(self).capacity_spec() < new_capacity {
                new_capacity
            } else {
                old(self).capacity_spec()
            },
    {
        proof {
            use_type_invariant(&*self);
        }
        if self.allocated < new_capacity {
            self.allocated = new_capacity;
        }
    }

    /// The number of groups held.
    pub fn len(&self) -> (r: usize)
        ensures
            r == self@.len(),
    {
        self.slots.len()
    }

    /// Whether the region holds no group.
    pub fn is_empty(&self) -> (r: bool)
        ensures
            r == (self@.len() == 0),
    {
        self.slots.len() == 0
    }

    /// The span of group `pos`; `None` if `pos >= len()` or the group took
    /// no part in the match.
    pub fn pos(&self, pos: usize) -> (r: Option<(usize, usize)>)
        ensures
            r == slot_at(self@, pos as int),
            r matches Some((b, e)) ==> b <= e,
    {
        proof {
            use_type_invariant(self);
        }
        if pos < self.slots.len() {
            self.slots[pos]
        } else {
            None
        }
    }

    /// The capture history tree of the last match, if history was captured.
    pub fn tree(&self) -> (r: Option<&CaptureTreeNode>)
        ensures
            r == match self.tree_spec() {
                Some(t) => Some(&t),
                None => None,
            },
    {
        match &self.history {
            Some(t) => Some(t),
            None => None,
        }
    }

    /// A copy of the region that shares nothing with it.
    pub fn duplicate(&self) -> (r: Region)
        ensures
            r@ == self@,
            r.capacity_spec() == self.capacity_spec(),
            same_tree_opt(r.tree_spec(), self.tree_spec()),
    {
        proof {
            use_type_invariant(self);
        }
        let mut slots: Vec<Option<(usize, usize)>> = Vec::new();
        let mut i: usize = 0;
        while i < self.slots.len()
            invariant
                i <= self.slots@.len(),
                slots@ == self.slots@.subrange(0, i as int),
            decreases self.slots@.len() - i,
        {
            slots.push(self.slots[i]);
            i = i + 1;
        }
        proof {
            assert(self.slots@.subrange(0, self.slots@.len() as int) == self.slots@);
        }
        let history = match &self.history {
            Some(t) => Some(t.duplicate()),
            None => None,
        };
        Region { slots, allocated: self.allocated, history }
    }

    /// Replaces the groups held with `slots` and the tree with `history`,
    /// growing the room where needed.
    pub fn fill(&mut self, slots: Vec<Option<(usize, usize)>>, history: Option<CaptureTreeNode>)
        requires
            spans_ordered(slots@),
        ensures
            final(self)@ == slots@,
            final(self).tree_spec() == history,
            final(self).capacity_spec() == if old(self).capacity_spec() < slots@.len() {
                slots@.len() as usize
            } else {
                old(self).capacity_spec()
            },
    {
        proof {
            use_type_invariant(&*self);
        }
        if self.allocated < slots.len() {
            self.allocated = slots.len();
        }
        self.slots = slots;
        self.history = history;
    }
}

impl Clone for Region {
    fn clone(&self) -> (r: Region)
        ensures
            r@ == self@,
            r.capacity_spec() == self.capacity_spec(),
            same_tree_opt(r.tree_spec(), self.tree_spec()),
    {
        self.duplicate()
    }
}

} // verus!

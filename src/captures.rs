use vstd::prelude::*;
use vstd::string::*;
use vstd::utf8::*;

use crate::pattern::{fit_groups, span_ok, spans_ok, Regex};
use crate::region::{slot_at, Region};

verus! {

/// The text of a span of `text`: `None` for an unmatched group.
pub open spec fn span_text(text: &str, span: Option<(usize, usize)>) -> Option<Seq<u8>> {
    match span {
        Some((b, e)) => Some(text.spec_bytes().subrange(b as int, e as int)),
        None => None,
    }
}

pub open spec fn bytes_of(s: Option<&str>) -> Option<Seq<u8>> {
    match s {
        Some(t) => Some(t.spec_bytes()),
        None => None,
    }
}

proof fn lemma_boundary_in_prefix(bytes: Seq<u8>, b: int, e: int)
    requires
        valid_utf8(bytes),
        0 <= b <= e <= bytes.len(),
        is_char_boundary(bytes, b),
        is_char_boundary(bytes, e),
    ensures
        valid_utf8(bytes.subrange(0, e)),
        is_char_boundary(bytes.subrange(0, e), b),
{
    valid_utf8_split(bytes, e);
    let head = bytes.subrange(0, e);
    is_char_boundary_start_end_of_seq(head);
    if b < e {
        is_char_boundary_iff_not_is_continuation_byte(bytes, b);
        is_char_boundary_iff_not_is_continuation_byte(head, b);
    }
}

/// The slice of `text` between two character boundaries.
fn slice_between<'t>(text: &'t str, b: usize, e: usize) -> (r: &'t str)
    requires
        span_ok(text.spec_bytes(), Some((b, e))),
    ensures
        r.spec_bytes() == text.spec_bytes().subrange(b as int, e as int),
{
    proof {
        encode_utf8_valid_utf8(text@);
        lemma_boundary_in_prefix(text.spec_bytes(), b as int, e as int);
    }
    let (head, _) = text.split_at(e);
    let (_, tail) = head.split_at(b);
    proof {
        assert(tail.spec_bytes() =~= text.spec_bytes().subrange(b as int, e as int));
    }
    tail
}

/// The groups of one match together with the text they were found in.
#[derive(Debug)]
pub struct Captures<'t> {
    text: &'t str,
    region: Region,
}

impl<'t> Captures<'t> {
    #[verifier::type_invariant]
    spec fn inv(&self) -> bool {
        spans_ok(self.text.spec_bytes(), self.region@)
    }

    pub closed spec fn text_spec(&self) -> &'t str {
        self.text
    }

    /// The span of each group.
    pub closed spec fn groups_spec(&self) -> Seq<Option<(usize, usize)>> {
        self.region@
    }

    /// Joins a text and a region filled by a search of that text.
    pub fn new(text: &'t str, region: Region) -> (r: Captures<'t>)
        requires
            spans_ok(text.spec_bytes(), region@),
        ensures
            r.text_spec() == text,
            r.groups_spec() == region@,
    {
        Captures { text, region }
    }

    /// The span of group `pos`; `None` if there is no such group or it took
    /// no part in the match.
    pub fn pos(&self, pos: usize) -> (r: Option<(usize, usize)>)
        ensures
            r == slot_at(self.groups_spec(), pos as int),
    {
        self.region.pos(pos)
    }

    /// The text of group `pos`; `None` if there is no such group or it took
    /// no part in the match.
    pub fn at(&self, pos: usize) -> (r: Option<&'t str>)
        ensures
            bytes_of(r) == span_text(self.text_spec(), slot_at(self.groups_spec(), pos as int)),
    {
        proof {
            use_type_invariant(self);
        }
        match self.region.pos(pos) {
            Some((b, e)) => {
                proof {
                    assert(span_ok(self.text.spec_bytes(), self.region@[pos as int]));
                }
                Some(slice_between(self.text, b, e))
            },
            None => None,
        }
    }

    /// The number of groups, the whole match included.
    pub fn len(&self) -> (r: usize)
        ensures
            r == self.groups_spec().len(),
    {
        self.region.len()
    }

    /// Whether there is no group at all.
    pub fn is_empty(&self) -> (r: bool)
        ensures
            r == (self.groups_spec().len() == 0),
    {
        self.region.len() == 0
    }

    /// A forward cursor over the text of each group, in order.
    pub fn iter(&'t self) -> (r: SubCaptures<'t>)
        ensures
            r.captures_spec() == *self,
            r.index_spec() == 0,
    {
        SubCaptures { idx: 0, caps: self }
    }

    /// A forward cursor over the span of each group, in order.
    pub fn iter_pos(&'t self) -> (r: SubCapturesPos<'t>)
        ensures
            r.captures_spec() == *self,
            r.index_spec() == 0,
    {
        SubCapturesPos { idx: 0, caps: self }
    }
}

/// A forward cursor over the text of each group of a match.
pub struct SubCaptures<'t> {
    idx: usize,
    caps: &'t Captures<'t>,
}

impl<'t> SubCaptures<'t> {
    pub closed spec fn captures_spec(&self) -> Captures<'t> {
        *self.caps
    }

    pub closed spec fn index_spec(&self) -> usize {
        self.idx
    }

    /// The text of the next group (itself `None` for an unmatched group), or
    /// `None` once every group has been handed out.
    pub fn next(&mut self) -> (r: Option<Option<&'t str>>)
        ensures
            final(self).captures_spec() == old(self).captures_spec(),
            old(self).index_spec() < old(self).captures_spec().groups_spec().len() ==> (r
                matches Some(t) && bytes_of(t) == span_text(
                old(self).captures_spec().text_spec(),
                old(self).captures_spec().groups_spec()[old(self).index_spec() as int],
            ) && final(self).index_spec() == old(self).index_spec() + 1),
            old(self).index_spec() >= old(self).captures_spec().groups_spec().len() ==> (r.is_none()
                && final(self).index_spec() == old(self).index_spec()),
    {
        if self.idx < self.caps.len() {
            let t = self.caps.at(self.idx);
            self.idx = self.idx + 1;
            Some(t)
        } else {
            None
        }
    }
}

/// A forward cursor over the span of each group of a match.
pub struct SubCapturesPos<'t> {
    idx: usize,
    caps: &'t Captures<'t>,
}

impl<'t> SubCapturesPos<'t> {
    pub closed spec fn captures_spec(&self) -> Captures<'t> {
        *self.caps
    }

    pub closed spec fn index_spec(&self) -> usize {
        self.idx
    }

    /// The span of the next group (itself `None` for an unmatched group), or
    /// `None` once every group has been handed out.
    pub fn next(&mut self) -> (r: Option<Option<(usize, usize)>>)
        ensures
            final(self).captures_spec() == old(self).captures_spec(),
            old(self).index_spec() < old(self).captures_spec().groups_spec().len() ==> (r == Some(
                old(self).captures_spec().groups_spec()[old(self).index_spec() as int],
            ) && final(self).index_spec() == old(self).index_spec() + 1),
            old(self).index_spec() >= old(self).captures_spec().groups_spec().len() ==> (r.is_none()
                && final(self).index_spec() == old(self).index_spec()),
    {
        if self.idx < self.caps.len() {
            let p = self.caps.pos(self.idx);
            self.idx = self.idx + 1;
            Some(p)
        } else {
            None
        }
    }
}

impl Regex {
    /// The groups of the leftmost match in `text`; group 0 is the whole
    /// match. `None` when nothing matches.
    pub fn captures<'t>(&self, text: &'t str) -> (r: Option<Captures<'t>>)
        ensures
            r matches Some(c) ==> c.groups_spec().len() == self.slots_spec(),
            match self.search_spec(text, 0, text.spec_bytes().len() as int) {
                Some(g) => r matches Some(c) && c.text_spec() == text && c.groups_spec() == fit_groups(
                    g,
                    self.slots_spec(),
                ),
                None => r.is_none(),
            },
    {
        let len = text.as_bytes().len();
        match self.search_groups(text, 0, len) {
            Some(g) => {
                let slots = self.fit(&g);
                proof {
                    crate::pattern::lemma_fit_spans(text.spec_bytes(), g@, self.slots_spec());
                    crate::pattern::lemma_spans_ordered(text.spec_bytes(), slots@);
                }
                let mut region = Region::new();
                region.fill(slots, None);
                Some(Captures::new(text, region))
            },
            None => None,
        }
    }
}

} // verus!

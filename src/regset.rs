use vstd::prelude::*;
use vstd::string::*;

use crate::captures::Captures;
use crate::error::{Error, ErrorKind, ERROR_INVALID_ARGUMENT};
use crate::flags::{
    engine_flags_spec, RegexOptions, SearchOptions, REGEX_OPTION_NONE, SEARCH_OPTION_NONE,
};
use crate::pattern::{group_names, plain_ok, plain_source, ENGINE_OPTIONS};
use crate::pattern::{compiles, fit_groups, start_of, span_ok, whole, Regex};
use crate::region::{slot_at, Region};
use crate::syntax::Syntax;

verus! {

/// Which match wins when several patterns of a set match.
#[derive(Clone, Copy, Debug, PartialEq, Eq, Structural)]
pub enum RegSetLead {
    /// The match that starts first in the text; among equal starts, the
    /// pattern added first.
    Position,
    /// The same winner as `Position`.
    Regex,
    /// The pattern added first among those that match anywhere.
    PriorityToRegexOrder,
}

/// The winner among per-pattern match starts that starts first, the lowest
/// index winning ties.
pub open spec fn earliest(starts: Seq<Option<usize>>) -> Option<(usize, usize)>
    decreases starts.len(),
{
    if starts.len() == 0 {
        None
    } else {
        let k = starts.len() - 1;
        let prev = earliest(starts.drop_last());
        match starts[k] {
            None => prev,
            Some(s) => match prev {
                None => Some((k as usize, s)),
                Some((j, t)) => if s < t {
                    Some((k as usize, s))
                } else {
                    prev
                },
            },
        }
    }
}

/// The lowest index among per-pattern match starts that matched.
pub open spec fn first_listed(starts: Seq<Option<usize>>) -> Option<(usize, usize)>
    decreases starts.len(),
{
    if starts.len() == 0 {
        None
    } else {
        let k = starts.len() - 1;
        match first_listed(starts.drop_last()) {
            Some(x) => Some(x),
            None => match starts[k] {
                Some(s) => Some((k as usize, s)),
                None => None,
            },
        }
    }
}

/// The (pattern index, match start) that `lead` picks.
pub open spec fn pick(starts: Seq<Option<usize>>, lead: RegSetLead) -> Option<(usize, usize)> {
    match lead {
        RegSetLead::PriorityToRegexOrder => first_listed(starts),
        _ => earliest(starts),
    }
}

/// Where each member's first match in `[from, to)` of `text` starts.
pub open spec fn starts_spec(regs: Seq<Regex>, text: &str, from: int, to: int) -> Seq<Option<usize>> {
    Seq::new(
        regs.len(),
        |i: int|
            match regs[i].search_spec(text, from, to) {
                Some(g) => Some(whole(g).0),
                None => None,
            },
    )
}

/// The start of the winning match; 0 when there is none.
pub open spec fn winner_start(w: Option<(usize, usize)>) -> usize {
    match w {
        Some((_, s)) => s,
        None => 0,
    }
}

/// What a search of the set finds in `[from, to)` of `text`.
pub open spec fn set_search_spec(regs: Seq<Regex>, text: &str, from: int, to: int, lead: RegSetLead) -> Option<
    (usize, usize),
> {
    if from > to || to > text.spec_bytes().len() {
        None
    } else {
        pick(starts_spec(regs, text, from, to), lead)
    }
}

proof fn lemma_earliest_in(starts: Seq<Option<usize>>)
    requires
        starts.len() <= usize::MAX,
    ensures
        earliest(starts) matches Some((i, s)) ==> i < starts.len() && starts[i as int] == Some(s),
    decreases starts.len(),
{
    if starts.len() > 0 {
        lemma_earliest_in(starts.drop_last());
    }
}

proof fn lemma_first_listed_in(starts: Seq<Option<usize>>)
    requires
        starts.len() <= usize::MAX,
    ensures
        first_listed(starts) matches Some((i, s)) ==> i < starts.len() && starts[i as int] == Some(s),
    decreases starts.len(),
{
    if starts.len() > 0 {
        lemma_first_listed_in(starts.drop_last());
    }
}

/// The winner that a lead picks is a pattern that matched, at its start.
pub proof fn lemma_pick_in(starts: Seq<Option<usize>>, lead: RegSetLead)
    requires
        starts.len() <= usize::MAX,
    ensures
        pick(starts, lead) matches Some((i, s)) ==> i < starts.len() && starts[i as int] == Some(s),
{
    lemma_earliest_in(starts);
    lemma_first_listed_in(starts);
}

/// A member that is replaced is seen by later searches of the set as the
/// new pattern, every other member as before, and the set keeps its size.
pub proof fn lemma_replace_changes_one_member(
    before: Seq<Regex>,
    after: Seq<Regex>,
    index: int,
    text: &str,
    from: int,
    to: int,
)
    requires
        0 <= index < before.len(),
        after.len() == before.len(),
        forall|j: int| 0 <= j < before.len() && j != index ==> #[trigger] after[j] == before[j],
    ensures
        starts_spec(after, text, from, to).len() == starts_spec(before, text, from, to).len(),
        starts_spec(after, text, from, to)[index] == match after[index].search_spec(text, from, to) {
            Some(g) => Some(whole(g).0),
            None => None,
        },
        forall|j: int|
            0 <= j < before.len() && j != index ==> #[trigger] starts_spec(after, text, from, to)[j]
                == starts_spec(before, text, from, to)[j],
{
}

/// A set whose members are unchanged, as after a failed `replace_pattern`,
/// gives every search the same result.
pub proof fn lemma_same_members_same_results(a: &RegSet, b: &RegSet, text: &str, from: int, to: int, lead: RegSetLead)
    requires
        a.regs_spec() == b.regs_spec(),
    ensures
        set_search_spec(a.regs_spec(), text, from, to, lead) == set_search_spec(b.regs_spec(), text, from, to, lead),
{
}

/// Picks the winner among per-pattern match starts (`None` for a pattern
/// that did not match) by the rule `lead`.
pub fn pick_winner(starts: &Vec<Option<usize>>, lead: RegSetLead) -> (r: Option<(usize, usize)>)
    ensures
        r == pick(starts@, lead),
{
    let mut best: Option<(usize, usize)> = None;
    let mut k: usize = 0;
    while k < starts.len()
        invariant
            k <= starts@.len(),
            best == pick(starts@.subrange(0, k as int), lead),
        decreases starts@.len() - k,
    {
        proof {
            assert(starts@.subrange(0, k + 1).drop_last() =~= starts@.subrange(0, k as int));
        }
        match starts[k] {
            Some(s) => {
                match lead {
                    RegSetLead::PriorityToRegexOrder => {
                        if best.is_none() {
                            best = Some((k, s));
                        }
                    },
                    _ => {
                        match best {
                            Some((_, t)) => {
                                if s < t {
                                    best = Some((k, s));
                                }
                            },
                            None => {
                                best = Some((k, s));
                            },
                        }
                    },
                }
            },
            None => {},
        }
        k = k + 1;
    }
    proof {
        assert(starts@.subrange(0, starts@.len() as int) =~= starts@);
    }
    best
}

/// Patterns compiled with one set of options and searched together. The
/// engine has no multi-pattern search: a search of the set runs each member
/// once over the text and picks the winner from their results. It has no
/// per-search options either: the `options` arguments have no effect.
#[derive(Debug)]
pub struct RegSet {
    regs: Vec<Regex>,
    options: RegexOptions,
}

impl RegSet {
    /// Every member was compiled with the set's options in the default
    /// syntax.
    pub closed spec fn wf(&self) -> bool {
        forall|i: int|
            0 <= i < self.regs@.len() ==> (#[trigger] self.regs@[i]).options_spec() == self.options
                && self.regs@[i].flags_spec() == engine_flags_spec(self.options, Syntax::default_operators())
    }

    /// The members, in the order of their indices.
    pub closed spec fn regs_spec(&self) -> Seq<Regex> {
        self.regs@
    }

    /// The options every member was compiled with.
    pub closed spec fn options_spec(&self) -> RegexOptions {
        self.options
    }

    /// The pattern text of each member.
    pub open spec fn sources_spec(&self) -> Seq<Seq<char>> {
        self.regs_spec().map_values(|re: Regex| re.source_spec())
    }

    /// A set of the given patterns, compiled with no options.
    pub fn new(patterns: &[&str]) -> (r: Result<RegSet, Error>)
        ensures
            r.is_ok() == (forall|i: int| 0 <= i < patterns@.len() ==> plain_ok(#[trigger] patterns@[i], REGEX_OPTION_NONE)),
            r matches Ok(set) ==> set.wf() && set.sources_spec() == patterns@.map_values(|p: &str| plain_source(p))
                && set.options_spec() == REGEX_OPTION_NONE,
    {
        proof {
            crate::pattern::lemma_default_syntax_bits(REGEX_OPTION_NONE);
        }
        RegSet::with_options(patterns, REGEX_OPTION_NONE)
    }

    /// A set of the given patterns, each compiled with `options`.
    pub fn with_options(patterns: &[&str], options: RegexOptions) -> (r: Result<RegSet, Error>)
        ensures
            r.is_ok() == (options & !ENGINE_OPTIONS == 0 && forall|i: int| 0 <= i < patterns@.len() ==> plain_ok(
                #[trigger] patterns@[i],
                options,
            )),
            r matches Ok(set) ==> set.wf() && set.sources_spec() == patterns@.map_values(|p: &str| plain_source(p))
                && set.options_spec() == options,
    {
        if options & !ENGINE_OPTIONS != 0 {
            return Err(Error::new(ErrorKind::Unsupported, ERROR_INVALID_ARGUMENT, "option not supported by the engine"));
        }
        let mut set = RegSet::empty_with_options(options);
        let mut i: usize = 0;
        while i < patterns.len()
            invariant
                i <= patterns@.len(),
                set.options_spec() == options,
                set.wf(),
                set.sources_spec() == patterns@.subrange(0, i as int).map_values(|p: &str| plain_source(p)),
                options & !ENGINE_OPTIONS == 0,
                forall|j: int| 0 <= j < i ==> plain_ok(#[trigger] patterns@[j], options),
            decreases patterns@.len() - i,
        {
            let added = set.add_pattern(patterns[i]);
            match added {
                Ok(_) => {},
                Err(e) => {
                    proof {
                        assert(!plain_ok(patterns@[i as int], options));
                    }
                    return Err(e);
                },
            }
            proof {
                assert(patterns@.subrange(0, i + 1).map_values(|p: &str| plain_source(p)) =~= patterns@.subrange(
                    0,
                    i as int,
                ).map_values(|p: &str| plain_source(p)).push(plain_source(patterns@[i as int])));
            }
            i = i + 1;
        }
        proof {
            assert(patterns@.subrange(0, patterns@.len() as int) =~= patterns@);
        }
        Ok(set)
    }

    /// An empty set whose patterns will be compiled with no options.
    pub fn empty() -> (r: Result<RegSet, Error>)
        ensures
            (r matches Ok(set) && set.wf() && set.regs_spec().len() == 0 && set.options_spec() == REGEX_OPTION_NONE),
    {
        Ok(RegSet::empty_with_options(REGEX_OPTION_NONE))
    }

    /// An empty set whose patterns will be compiled with `options`.
    pub fn empty_with_options(options: RegexOptions) -> (r: RegSet)
        ensures
            r.wf(),
            r.regs_spec().len() == 0,
            r.options_spec() == options,
    {
        RegSet { regs: Vec::new(), options }
    }

    /// Compiles `pattern` with the set's options and adds it at the next
    /// index, which is returned. On a compile error the set is unchanged.
    pub fn add_pattern(&mut self, pattern: &str) -> (r: Result<usize, Error>)
        requires
            old(self).wf(),
        ensures
            final(self).wf(),
            final(self).options_spec() == old(self).options_spec(),
            r.is_ok() == (old(self).options_spec() & !ENGINE_OPTIONS == 0 && plain_ok(pattern, old(self).options_spec())),
            r.is_ok() ==> r == Ok::<usize, Error>(old(self).regs_spec().len() as usize)
                && final(self).sources_spec() == old(self).sources_spec().push(plain_source(pattern))
                && final(self).regs_spec().drop_last() == old(self).regs_spec(),
            r.is_err() ==> final(self).regs_spec() == old(self).regs_spec(),
    {
        let syntax = Syntax::default();
        let compiled = Regex::with_options(pattern, self.options, &syntax);
        proof {
            crate::pattern::lemma_default_syntax_bits(self.options);
        }
        match compiled {
            Ok(re) => {
                let index = self.regs.len();
                self.regs.push(re);
                proof {
                    assert(self.sources_spec() =~= old(self).sources_spec().push(plain_source(pattern)));
                    assert(self.regs_spec().drop_last() =~= old(self).regs_spec());
                }
                Ok(index)
            },
            Err(e) => Err(e),
        }
    }

    /// Compiles `pattern` and, if that succeeds, puts it in place of the
    /// member at `index`. Fails, leaving the set unchanged, when `index` is
    /// not below `len()` or the pattern does not compile.
    pub fn replace_pattern(&mut self, index: usize, pattern: &str) -> (r: Result<(), Error>)
        requires
            old(self).wf(),
        ensures
            final(self).wf(),
            final(self).options_spec() == old(self).options_spec(),
            index >= old(self).regs_spec().len() ==> (r matches Err(e) && e.kind_spec()
                == ErrorKind::OutOfRange),
            index < old(self).regs_spec().len() ==> r.is_ok() == (old(self).options_spec() & !ENGINE_OPTIONS == 0
                && plain_ok(pattern, old(self).options_spec())),
            r.is_ok() ==> final(self).sources_spec() == old(self).sources_spec().update(
                index as int,
                plain_source(pattern),
            ) && final(self).regs_spec().len() == old(self).regs_spec().len()
                && (forall|j: int| 0 <= j < old(self).regs_spec().len() && j != index ==>
                    #[trigger] final(self).regs_spec()[j] == old(self).regs_spec()[j])
                && final(self).regs_spec()[index as int].source_spec() == plain_source(pattern),
            r.is_err() ==> final(self).regs_spec() == old(self).regs_spec(),
    {
        if index >= self.regs.len() {
            return Err(Error::new(ErrorKind::OutOfRange, ERROR_INVALID_ARGUMENT, "index out of bounds for the pattern set"));
        }
        let syntax = Syntax::default();
        let compiled = Regex::with_options(pattern, self.options, &syntax);
        proof {
            crate::pattern::lemma_default_syntax_bits(self.options);
        }
        match compiled {
            Ok(re) => {
                self.regs.set(index, re);
                proof {
                    assert(self.sources_spec() =~= old(self).sources_spec().update(index as int, plain_source(pattern)));
                }
                Ok(())
            },
            Err(e) => Err(e),
        }
    }

    /// The number of members.
    pub fn len(&self) -> (r: usize)
        ensures
            r == self.regs_spec().len(),
    {
        self.regs.len()
    }

    /// Whether the set has no member.
    pub fn is_empty(&self) -> (r: bool)
        ensures
            r == (self.regs_spec().len() == 0),
    {
        self.regs.len() == 0
    }

    /// The (member index, match start) of the first match in `text`, by
    /// position.
    pub fn find(&self, text: &str) -> (r: Option<(usize, usize)>)
        ensures
            r == set_search_spec(self.regs_spec(), text, 0, text.spec_bytes().len() as int, RegSetLead::Position),
            r matches Some((i, s)) ==> i < self.regs_spec().len() && s < text.spec_bytes().len(),
    {
        self.find_with_options(text, RegSetLead::Position, SEARCH_OPTION_NONE)
    }

    /// The (member index, match start) of the match in `text` that `lead`
    /// picks.
    pub fn find_with_options(&self, text: &str, lead: RegSetLead, options: SearchOptions) -> (r:
        Option<(usize, usize)>)
        ensures
            r == set_search_spec(self.regs_spec(), text, 0, text.spec_bytes().len() as int, lead),
            r matches Some((i, s)) ==> i < self.regs_spec().len() && s < text.spec_bytes().len(),
    {
        let len = text.as_bytes().len();
        self.search_with_encoding(text, 0, len, lead, options)
    }

    /// The (member index, match start) of the match that `lead` picks among
    /// those that start in `[from, to)`; `None` when `from > to` or `to` is
    /// past the end of the text.
    pub fn search_with_encoding(
        &self,
        text: &str,
        from: usize,
        to: usize,
        lead: RegSetLead,
        options: SearchOptions,
    ) -> (r: Option<(usize, usize)>)
        ensures
            r == set_search_spec(self.regs_spec(), text, from as int, to as int, lead),
            r matches Some((i, s)) ==> i < self.regs_spec().len() && from <= s < to,
    {
        let len = text.as_bytes().len();
        if from > to || to > len {
            return None;
        }
        let starts = self.member_starts(text, from, to);
        let members = self.regs.len();
        proof {
            lemma_pick_in(starts@, lead);
            assert(starts@.len() == members);
        }
        let r = pick_winner(&starts, lead);
        proof {
            if let Some((i, s)) = r {
                assert(starts@[i as int] == Some(s));
                let g = self.regs@[i as int].search_spec(text, from as int, to as int)->0;
                assert(start_of(g[0]) == whole(g).0);
            }
        }
        r
    }

    /// Where each member's first match in `[from, to)` starts.
    fn member_starts(&self, text: &str, from: usize, to: usize) -> (r: Vec<Option<usize>>)
        ensures
            r@ == starts_spec(self.regs_spec(), text, from as int, to as int),
    {
        let mut starts: Vec<Option<usize>> = Vec::new();
        let mut i: usize = 0;
        while i < self.regs.len()
            invariant
                i <= self.regs@.len(),
                starts@ == starts_spec(self.regs@.subrange(0, i as int), text, from as int, to as int),
            decreases self.regs@.len() - i,
        {
            let s = match self.regs[i].search_groups(text, from, to) {
                Some(g) => Some(g[0].unwrap().0),
                None => None,
            };
            starts.push(s);
            proof {
                assert(starts@ =~= starts_spec(self.regs@.subrange(0, i + 1), text, from as int, to as int));
            }
            i = i + 1;
        }
        proof {
            assert(self.regs@.subrange(0, self.regs@.len() as int) =~= self.regs@);
        }
        starts
    }

    /// The member index and the groups of the first match in `text`, by
    /// position.
    pub fn captures<'t>(&self, text: &'t str) -> (r: Option<(usize, Captures<'t>)>)
        ensures
            match set_search_spec(self.regs_spec(), text, 0, text.spec_bytes().len() as int, RegSetLead::Position) {
                Some((i, _)) => (r matches Some((j, c)) && j == i && c.text_spec() == text
                    && c.groups_spec().len() == self.regs_spec()[i as int].slots_spec()
                    && c.groups_spec().len() == group_names(
                        self.regs_spec()[i as int].source_spec(),
                        self.regs_spec()[i as int].flags_spec(),
                    ).len()
                    && c.groups_spec().len() >= 1 && slot_at(c.groups_spec(), 0) == Some(whole(c.groups_spec()))
                    && whole(c.groups_spec()).0 == winner_start(
                        set_search_spec(self.regs_spec(), text, 0, text.spec_bytes().len() as int, RegSetLead::Position),
                    ) && whole(c.groups_spec()).0 <= whole(c.groups_spec()).1 <= text.spec_bytes().len()
                    && c.groups_spec() == fit_groups(
                    self.regs_spec()[i as int].search_spec(text, 0, text.spec_bytes().len() as int)->0,
                    self.regs_spec()[i as int].slots_spec(),
                )),
                None => r.is_none(),
            },
    {
        let len = text.as_bytes().len();
        self.captures_with_encoding(text, 0, len, RegSetLead::Position, SEARCH_OPTION_NONE)
    }

    /// The member index and the groups of the match that `lead` picks among
    /// those that start in `[from, to)`, copied out of the search.
    pub fn captures_with_encoding<'t>(
        &self,
        text: &'t str,
        from: usize,
        to: usize,
        lead: RegSetLead,
        options: SearchOptions,
    ) -> (r: Option<(usize, Captures<'t>)>)
        ensures
            match set_search_spec(self.regs_spec(), text, from as int, to as int, lead) {
                Some((i, _)) => (r matches Some((j, c)) && j == i && c.text_spec() == text
                    && c.groups_spec().len() == self.regs_spec()[i as int].slots_spec()
                    && c.groups_spec().len() == group_names(
                        self.regs_spec()[i as int].source_spec(),
                        self.regs_spec()[i as int].flags_spec(),
                    ).len()
                    && c.groups_spec().len() >= 1 && slot_at(c.groups_spec(), 0) == Some(whole(c.groups_spec()))
                    && whole(c.groups_spec()).0 == winner_start(
                        set_search_spec(self.regs_spec(), text, from as int, to as int, lead),
                    ) && whole(c.groups_spec()).0 <= whole(c.groups_spec()).1 <= text.spec_bytes().len()
                    && c.groups_spec() == fit_groups(
                    self.regs_spec()[i as int].search_spec(text, from as int, to as int)->0,
                    self.regs_spec()[i as int].slots_spec(),
                )),
                None => r.is_none(),
            },
    {
        let winner = self.search_with_encoding(text, from, to, lead, options);
        match winner {
            Some((i, _)) => {
                let members = self.regs.len();
                proof {
                    assert(starts_spec(self.regs@, text, from as int, to as int).len() == members);
                    lemma_pick_in(starts_spec(self.regs@, text, from as int, to as int), lead);
                }
                let re = &self.regs[i];
                match re.search_groups(text, from, to) {
                    Some(g) => {
                        let slots = re.fit(&g);
                        proof {
                            assert(span_ok(text.spec_bytes(), g@[0]));
                            assert(slots@[0] == g@[0]);
                        }
                        proof {
                            crate::pattern::lemma_fit_spans(text.spec_bytes(), g@, re.slots_spec());
                            crate::pattern::lemma_spans_ordered(text.spec_bytes(), slots@);
                        }
                        let mut region = Region::new();
                        region.fill(slots, None);
                        Some((i, Captures::new(text, region)))
                    },
                    None => None,
                }
            },
            None => None,
        }
    }
}

} // verus!

use vstd::prelude::*;
use vstd::string::*;
use vstd::utf8::*;

use crate::error::{
    Error, ErrorKind, ERROR_INVALID_ARGUMENT, ERROR_PATTERN_SYNTAX, ERROR_PATTERN_TOO_BIG,
};
use crate::flags::{
    engine_flags, engine_flags_spec, EngineFlags, RegexOptions, SearchOptions,
    REGEX_OPTION_EXTEND, REGEX_OPTION_IGNORECASE, REGEX_OPTION_MULTILINE, REGEX_OPTION_NONE,
    SYNTAX_OPERATORS_RUBY, SYNTAX_OPERATOR_ATMARK_CAPTURE_HISTORY,
};
use crate::history::{
    engine_source, group_names_of, history_children, history_ok, named_groups, names_valid, scan_history, scan_spec,
    tree_ok,
};
use crate::tree::CaptureTreeNode;
use crate::region::{slot_at, span_ordered, spans_ordered, Region};
use crate::syntax::{Dialect, Syntax};
use regex::Error as BuildError;
use regex::Regex as Program;
use regex::RegexBuilder as ProgramBuilder;

verus! {

#[verifier::external_type_specification]
#[verifier::external_body]
pub struct ExProgram(Program);

#[verifier::external_type_specification]
#[verifier::external_body]
pub struct ExBuildError(BuildError);

/// Whether the engine accepts the pattern `source` under `flags`.
pub uninterp spec fn compiles(source: Seq<char>, flags: EngineFlags) -> bool;

/// The engine's leftmost-first match of `source` (under `flags`) in `text`
/// among those that start at byte `start` or later: the byte span of each
/// group, group 0 first.
pub uninterp spec fn leftmost_match(
    source: Seq<char>,
    flags: EngineFlags,
    text: Seq<char>,
    start: int,
) -> Option<Seq<Option<(usize, usize)>>>;

/// The name of each group of `source` (under `flags`), group 0 first.
pub uninterp spec fn group_names(source: Seq<char>, flags: EngineFlags) -> Seq<Option<Seq<char>>>;

/// The name of each group, as text.
pub open spec fn names_view(names: Seq<Option<String>>) -> Seq<Option<Seq<char>>> {
    names.map_values(|n: Option<String>| match n {
        Some(s) => Some(s@),
        None => None,
    })
}

/// The compile options the engine honours.
pub const ENGINE_OPTIONS: RegexOptions = REGEX_OPTION_IGNORECASE | REGEX_OPTION_EXTEND | REGEX_OPTION_MULTILINE;

/// Whether the engine can honour `options` and `syntax`: only the options in
/// `ENGINE_OPTIONS`, and the Ruby dialect's operators, with or without the
/// capture-history operator, and no behaviour flags.
pub open spec fn engine_supports(options: RegexOptions, syntax: Syntax) -> bool {
    &&& syntax.dialect_spec() == Dialect::Ruby
    &&& options & !ENGINE_OPTIONS == 0
    &&& syntax.operators_spec() & !SYNTAX_OPERATOR_ATMARK_CAPTURE_HISTORY == SYNTAX_OPERATORS_RUBY
    &&& syntax.behavior_spec() == 0
}

/// Whether `syntax` has the capture-history operator.
pub open spec fn marks_in(syntax: Syntax) -> bool {
    syntax.operators_spec() & SYNTAX_OPERATOR_ATMARK_CAPTURE_HISTORY != 0
}

/// The pattern text the engine is given for `pattern` in `syntax`: the
/// pattern with its group names and, with the capture-history operator, its
/// history marks removed (`None` if that is not valid text).
pub open spec fn source_for(pattern: &str, syntax: Syntax) -> Option<Seq<char>> {
    let bytes = scan_spec(pattern.spec_bytes(), marks_in(syntax)).0;
    if valid_utf8(bytes) {
        Some(decode_utf8(bytes))
    } else {
        None
    }
}

/// The history groups of `pattern` in `syntax`.
pub open spec fn history_for(pattern: &str, syntax: Syntax) -> Seq<(usize, usize)> {
    scan_spec(pattern.spec_bytes(), marks_in(syntax)).1
}

/// The text the engine compiles for `pattern` in the Ruby syntax: the
/// pattern with its group names removed.
pub open spec fn plain_source(pattern: &str) -> Seq<char> {
    decode_utf8(scan_spec(pattern.spec_bytes(), false).0)
}

/// Whether `pattern`, in the Ruby syntax with `options`, compiles: what is
/// left once its group names are removed is valid text the engine accepts,
/// and every group name is valid text.
pub open spec fn plain_ok(pattern: &str, options: RegexOptions) -> bool {
    let flags = engine_flags_spec(options, SYNTAX_OPERATORS_RUBY);
    &&& valid_utf8(scan_spec(pattern.spec_bytes(), false).0)
    &&& compiles(plain_source(pattern), flags)
    &&& names_valid(scan_spec(pattern.spec_bytes(), false).2, group_names(plain_source(pattern), flags).len())
}

/// The named groups of `pattern` in `syntax`, as (group number, name).
pub open spec fn names_for(pattern: &str, syntax: Syntax) -> Seq<(usize, Seq<u8>)> {
    scan_spec(pattern.spec_bytes(), marks_in(syntax)).2
}

/// Whether a group span lies within `bytes`, on character boundaries.
pub open spec fn span_ok(bytes: Seq<u8>, span: Option<(usize, usize)>) -> bool {
    match span {
        Some((b, e)) => b <= e <= bytes.len() && is_char_boundary(bytes, b as int)
            && is_char_boundary(bytes, e as int),
        None => true,
    }
}

/// Whether every group span lies within `bytes`, on character boundaries.
pub open spec fn spans_ok(bytes: Seq<u8>, groups: Seq<Option<(usize, usize)>>) -> bool {
    forall|i: int| 0 <= i < groups.len() ==> span_ok(bytes, #[trigger] groups[i])
}

/// Whether `groups` is a match in `bytes` whose whole span starts at `start`
/// or later.
pub open spec fn match_ok(bytes: Seq<u8>, groups: Seq<Option<(usize, usize)>>, start: int) -> bool {
    &&& groups.len() >= 1
    &&& groups[0] is Some
    &&& start <= start_of(groups[0])
    &&& spans_ok(bytes, groups)
}

/// Where a span starts; 0 for an unmatched group.
pub open spec fn start_of(span: Option<(usize, usize)>) -> usize {
    match span {
        Some((b, _)) => b,
        None => 0,
    }
}

/// The span of the whole match.
pub open spec fn whole(groups: Seq<Option<(usize, usize)>>) -> (usize, usize) {
    match slot_at(groups, 0) {
        Some(p) => p,
        None => (0, 0),
    }
}

pub open spec fn seq_of(r: Option<Vec<Option<(usize, usize)>>>) -> Option<Seq<Option<(usize, usize)>>> {
    match r {
        Some(v) => Some(v@),
        None => None,
    }
}

/// Whether `reg` holds what a search that found `found` leaves in it: the
/// span of each group of `re` and, for a pattern with history groups, a
/// capture tree rooted at the whole match; nothing when nothing was found.
pub open spec fn holds_match(reg: Region, found: Option<Seq<Option<(usize, usize)>>>, re: &Regex) -> bool {
    match found {
        Some(g) => reg@ == fit_groups(g, re.slots_spec()) && reg@.len() >= 1 && reg@[0] == Some(whole(g))
            && (reg.tree_spec() is Some <==> re.history_spec().len() > 0)
            && (reg.tree_spec() matches Some(t) ==> t.group_spec() == 0 && t.pos_spec() == whole(g)
                && tree_ok(t.children_spec(), re.history_spec(), reg@, 0)),
        None => reg@ == Seq::<Option<(usize, usize)>>::empty() && reg.tree_spec() is None,
    }
}

/// `n` slots, the first taken from `groups`, the rest unmatched.
pub open spec fn fit_groups(groups: Seq<Option<(usize, usize)>>, n: nat) -> Seq<
    Option<(usize, usize)>,
> {
    Seq::new(n, |i: int| slot_at(groups, i))
}

/// A match of a pattern with `k` groups, as a search reports it, has
/// exactly `k + 1` groups: the whole match, then each group in order.
pub proof fn lemma_match_has_all_groups(re: &Regex, text: &str, from: int, to: int)
    ensures
        re.search_spec(text, from, to) matches Some(g) ==> fit_groups(g, re.slots_spec()).len()
            == re.slots_spec(),
{
}

/// Padding or cutting a set of well-placed spans keeps them well placed.
pub proof fn lemma_fit_spans(bytes: Seq<u8>, groups: Seq<Option<(usize, usize)>>, n: nat)
    requires
        spans_ok(bytes, groups),
    ensures
        spans_ok(bytes, fit_groups(groups, n)),
{
    assert forall|i: int| 0 <= i < fit_groups(groups, n).len() implies span_ok(
        bytes,
        #[trigger] fit_groups(groups, n)[i],
    ) by {
        if i < groups.len() {
            assert(span_ok(bytes, groups[i]));
        }
    }
}

/// The Ruby syntax has no capture-history operator, the default options are
/// ones the engine honours, and a syntax without options of its own leaves
/// `options` as they are.
pub proof fn lemma_default_syntax_bits(options: RegexOptions)
    ensures
        options | 0u32 == options,
        SYNTAX_OPERATORS_RUBY & SYNTAX_OPERATOR_ATMARK_CAPTURE_HISTORY == 0,
        SYNTAX_OPERATORS_RUBY & !SYNTAX_OPERATOR_ATMARK_CAPTURE_HISTORY == SYNTAX_OPERATORS_RUBY,
        REGEX_OPTION_NONE & !ENGINE_OPTIONS == 0,
{
    assert(options | 0u32 == options) by (bit_vector);
    assert(SYNTAX_OPERATORS_RUBY & SYNTAX_OPERATOR_ATMARK_CAPTURE_HISTORY == 0) by (bit_vector);
    assert(SYNTAX_OPERATORS_RUBY & !SYNTAX_OPERATOR_ATMARK_CAPTURE_HISTORY == SYNTAX_OPERATORS_RUBY) by (bit_vector);
    assert(REGEX_OPTION_NONE & !ENGINE_OPTIONS == 0) by (bit_vector);
}

/// Spans that lie within some bytes begin no later than they end.
pub proof fn lemma_spans_ordered(bytes: Seq<u8>, groups: Seq<Option<(usize, usize)>>)
    requires
        spans_ok(bytes, groups),
    ensures
        spans_ordered(groups),
{
    assert forall|i: int| 0 <= i < groups.len() implies span_ordered(#[trigger] groups[i]) by {
        assert(span_ok(bytes, groups[i]));
    }
}

/// Relies on regex::RegexBuilder::build: compiles `source` with the given
/// settings; whether it succeeds depends on the source and settings alone.
#[verifier::external_body]
fn compile(source: &str, flags: EngineFlags) -> (r: Result<Program, BuildError>)
    ensures
        r.is_ok() == compiles(source@, flags),
{
    ProgramBuilder::new(source)
        .case_insensitive(flags.ignore_case)
        .dot_matches_new_line(flags.dot_matches_newline)
        .ignore_whitespace(flags.extended)
        .multi_line(flags.line_anchors)
        .build()
}

/// A compiled program with the source and settings it was compiled from.
#[derive(Debug)]
struct Compiled {
    raw: Program,
    source: String,
    flags: EngineFlags,
}

/// Relies on regex::Regex::capture_names: one entry per group, in the order
/// of the groups' opening parentheses; the first, for the whole match, is
/// always there and unnamed; the names depend on the compiled source and its
/// settings alone.
#[verifier::external_body]
fn engine_group_names(c: &Compiled) -> (r: Vec<Option<String>>)
    ensures
        names_view(r@) == group_names(c.source@, c.flags),
        r@.len() >= 1,
        r@[0] is None,
{
    c.raw.capture_names().map(|n| n.map(|s| s.to_string())).collect()
}

/// Relies on regex::Error's variants: whether compiling stopped at the
/// size limit rather than at a syntax error.
#[verifier::external_body]
fn engine_error_is_size_limit(e: &BuildError) -> (r: bool) {
    match e {
        BuildError::CompiledTooBig(_) => true,
        _ => false,
    }
}

/// Relies on regex::Error's `Display`: the engine's diagnostic text.
#[verifier::external_body]
fn engine_error_text(e: &BuildError) -> (r: String) {
    e.to_string()
}

/// A compiled pattern, with the source and settings it was compiled from
/// and the name of each of its groups.
#[derive(Debug)]
pub struct Regex {
    compiled: Compiled,
    options: RegexOptions,
    names: Vec<Option<String>>,
    history: Vec<(usize, usize)>,
}

/// Relies on regex::Regex::captures_at: the leftmost-first match that
/// starts at byte `start` or later, each group as its byte span, one entry
/// per group of the program (`Captures::iter`); the spans lie on character
/// boundaries of `text`, and the result depends on the compiled source, its
/// settings, the text and `start` alone. It panics when `start` is past the
/// end of the text.
#[verifier::external_body]
fn engine_captures_at(c: &Compiled, text: &str, start: usize) -> (r: Option<
    Vec<Option<(usize, usize)>>,
>)
    requires
        start <= text.spec_bytes().len(),
    ensures
        seq_of(r) == leftmost_match(c.source@, c.flags, text@, start as int),
        r matches Some(g) ==> match_ok(text.spec_bytes(), g@, start as int)
            && g@.len() == group_names(c.source@, c.flags).len(),
{
    c.raw.captures_at(text, start).map(|c| c.iter().map(|m| m.map(|m| (m.start(), m.end()))).collect())
}

impl Regex {
    #[verifier::type_invariant]
    spec fn inv(&self) -> bool {
        &&& self.names@.len() >= 1
        &&& self.names@[0] is None
        &&& self.names@.len() == group_names(self.compiled.source@, self.compiled.flags).len()
        &&& history_ok(self.history@)
    }

    /// The history groups: (group number, enclosing history group), the
    /// latter 0 for the whole match or `j + 1` for history group `j`.
    pub closed spec fn history_spec(&self) -> Seq<(usize, usize)> {
        self.history@
    }

    /// The pattern text the engine compiled.
    pub closed spec fn source_spec(&self) -> Seq<char> {
        self.compiled.source@
    }

    pub closed spec fn flags_spec(&self) -> EngineFlags {
        self.compiled.flags
    }

    pub closed spec fn options_spec(&self) -> RegexOptions {
        self.options
    }

    /// The name of each group, group 0 first.
    pub closed spec fn names_spec(&self) -> Seq<Option<String>> {
        self.names@
    }

    /// The number of groups, not counting the whole match.
    pub open spec fn captures_len_spec(&self) -> int {
        self.slots_spec() - 1
    }

    /// The number of groups, the whole match included.
    pub closed spec fn slots_spec(&self) -> nat {
        self.names@.len()
    }

    /// The match that starts at exactly `at`, if the engine's preferred
    /// match from `at` starts there.
    pub open spec fn anchored_spec(&self, text: &str, at: int) -> Option<Seq<Option<(usize, usize)>>> {
        match leftmost_match(self.source_spec(), self.flags_spec(), text@, at) {
            Some(g) => if g.len() >= 1 && g[0] is Some && start_of(g[0]) == at {
                Some(g)
            } else {
                None
            },
            None => None,
        }
    }

    /// The first anchored match found scanning start positions from
    /// `hi - 1` down to `lo`.
    pub open spec fn backward_spec(&self, text: &str, hi: int, lo: int) -> Option<
        Seq<Option<(usize, usize)>>,
    >
        decreases hi - lo,
    {
        if hi <= lo {
            None
        } else {
            match self.anchored_spec(text, hi - 1) {
                Some(g) => Some(g),
                None => self.backward_spec(text, hi - 1, lo),
            }
        }
    }

    /// The match that a search of `text` from `from` to `to` finds: forward,
    /// the leftmost match that starts in `[from, to)`; backward (`from > to`),
    /// the match that starts at the greatest position in `[to, from)`.
    pub open spec fn search_spec(&self, text: &str, from: int, to: int) -> Option<
        Seq<Option<(usize, usize)>>,
    > {
        if from > text.spec_bytes().len() || to > text.spec_bytes().len() {
            None
        } else if from <= to {
            match leftmost_match(self.source_spec(), self.flags_spec(), text@, from) {
                Some(g) => if g.len() >= 1 && g[0] is Some && from <= start_of(g[0]) < to {
                    Some(g)
                } else {
                    None
                },
                None => None,
            }
        } else {
            self.backward_spec(text, from, to)
        }
    }

    /// Compiles `pattern` with no options in the default syntax.
    pub fn new(pattern: &str) -> (r: Result<Regex, Error>)
        ensures
            r.is_ok() == plain_ok(pattern, REGEX_OPTION_NONE),
            r matches Ok(re) ==> re.source_spec() == plain_source(pattern) && re.options_spec() == REGEX_OPTION_NONE
                && re.flags_spec() == engine_flags_spec(REGEX_OPTION_NONE, SYNTAX_OPERATORS_RUBY)
                && re.history_spec().len() == 0
                && names_view(re.names_spec()) == named_groups(
                    scan_spec(pattern.spec_bytes(), false).2,
                    group_names(re.source_spec(), re.flags_spec()).len(),
                ),
            r matches Err(e) ==> (e.kind_spec() == ErrorKind::Compile && e.code_spec() == ERROR_PATTERN_SYNTAX)
                || (e.kind_spec() == ErrorKind::Resource && e.code_spec() == ERROR_PATTERN_TOO_BIG),
    {
        let syntax = Syntax::default();
        proof {
            lemma_default_syntax_bits(REGEX_OPTION_NONE);
            crate::history::lemma_no_marks_no_history(pattern.spec_bytes(), 0, Seq::empty(), 0, 0, Seq::empty(), Seq::empty(), Seq::empty());
        }
        Regex::with_options(pattern, REGEX_OPTION_NONE, &syntax)
    }

    /// Compiles `pattern` with `option` in `syntax`; the syntax's own options
    /// are added to `option`. Where the syntax has the capture-history
    /// operator, groups written `(?@...)` are numbered groups whose history is
    /// recorded. The engine honours only the options in `ENGINE_OPTIONS` and
    /// reads only the Ruby syntax (with or without the capture-history
    /// operator, with no behaviour flags): anything else is refused with an
    /// `Unsupported` error rather than ignored. Group names are kept by the
    /// library, not the engine, so a name may be bound to several groups;
    /// unnamed groups keep their numbers beside named ones.
    pub fn with_options(pattern: &str, option: RegexOptions, syntax: &Syntax) -> (r: Result<Regex, Error>)
        ensures
            r.is_ok() == (engine_supports(option | syntax.options_spec(), *syntax) && source_for(pattern, *syntax) is Some
                && compiles(source_for(pattern, *syntax)->0, engine_flags_spec(option | syntax.options_spec(), syntax.operators_spec()))
                && names_valid(names_for(pattern, *syntax), group_names(
                    source_for(pattern, *syntax)->0,
                    engine_flags_spec(option | syntax.options_spec(), syntax.operators_spec()),
                ).len())),
            r matches Ok(re) ==> names_view(re.names_spec()) == named_groups(
                names_for(pattern, *syntax),
                group_names(re.source_spec(), re.flags_spec()).len(),
            ),
            r matches Ok(re) ==> re.source_spec() == source_for(pattern, *syntax)->0
                && re.history_spec() == history_for(pattern, *syntax)
                && re.options_spec() == option | syntax.options_spec()
                && re.flags_spec() == engine_flags_spec(option | syntax.options_spec(), syntax.operators_spec()),
            r matches Err(e) ==> if !engine_supports(option | syntax.options_spec(), *syntax) {
                e.kind_spec() == ErrorKind::Unsupported && e.code_spec() == ERROR_INVALID_ARGUMENT
            } else {
                (e.kind_spec() == ErrorKind::Compile && e.code_spec() == ERROR_PATTERN_SYNTAX)
                    || (e.kind_spec() == ErrorKind::Resource && e.code_spec() == ERROR_PATTERN_TOO_BIG)
            },
    {
        let options = option | syntax.options();
        let operators = syntax.operators();
        if syntax.dialect() != Dialect::Ruby || options & !ENGINE_OPTIONS != 0 || operators & !SYNTAX_OPERATOR_ATMARK_CAPTURE_HISTORY != SYNTAX_OPERATORS_RUBY
            || syntax.behavior() != 0 {
            return Err(Error::new(ErrorKind::Unsupported, ERROR_INVALID_ARGUMENT, "option or syntax not supported by the engine"));
        }
        let flags = engine_flags(options, operators);
        let marks = operators & SYNTAX_OPERATOR_ATMARK_CAPTURE_HISTORY != 0;
        let scanned = scan_history(pattern.as_bytes(), marks);
        let source = match engine_source(&scanned) {
            Some(text) => text,
            None => {
                return Err(Error::new(ErrorKind::Compile, ERROR_PATTERN_SYNTAX, "pattern is not valid text"));
            },
        };
        match compile(source.as_str(), flags) {
            Ok(raw) => {
                let compiled = Compiled { raw, source, flags };
                let engine_names = engine_group_names(&compiled);
                match group_names_of(&scanned, engine_names.len()) {
                    Some(names) => {
                        proof {
                            assert(names_view(names@).len() == names@.len());
                        }
                        Ok(Regex { compiled, options, names, history: scanned.history })
                    },
                    None => Err(Error::new(ErrorKind::Compile, ERROR_PATTERN_SYNTAX, "group name is not valid text")),
                }
            },
            Err(e) => Err(refused_pattern_error(&e)),
        }
    }

    /// Searches `text` from `from` to `to` (backward when `from > to`).
    /// Returns the end offset of the match found. The engine has no
    /// per-search options: `options` is accepted and has no effect. The region, if given,
    /// receives the span of each group, or is emptied when nothing matched.
    pub fn search_with_options(
        &self,
        text: &str,
        from: usize,
        to: usize,
        options: SearchOptions,
        region: Option<&mut Region>,
    ) -> (r: Option<usize>)
        ensures
            r == match self.search_spec(text, from as int, to as int) {
                Some(g) => Some(whole(g).1),
                None => None,
            },
            match region {
                Some(reg) => holds_match(*final(reg), self.search_spec(text, from as int, to as int), self),
                None => true,
            },
            r matches Some(e) ==> e <= text.spec_bytes().len(),
    {
        let found = self.search_groups(text, from, to);
        proof {
            if seq_of(found) is Some {
                assert(span_ok(text.spec_bytes(), seq_of(found)->0[0]));
                lemma_spans_ordered(text.spec_bytes(), seq_of(found)->0);
            }
        }
        self.report(found, region)
    }

    /// Matches at exactly `at`. Returns the length of the match; `options`
    /// has no effect. The region,
    /// if given, receives the span of each group, or is emptied when nothing
    /// matched.
    pub fn match_with_options(
        &self,
        text: &str,
        at: usize,
        options: SearchOptions,
        region: Option<&mut Region>,
    ) -> (r: Option<usize>)
        ensures
            at > text.spec_bytes().len() ==> r.is_none(),
            at <= text.spec_bytes().len() ==> r == match self.anchored_spec(text, at as int) {
                Some(g) => Some((whole(g).1 - at) as usize),
                None => None,
            },
            match region {
                Some(reg) => holds_match(
                    *final(reg),
                    if at <= text.spec_bytes().len() {
                        self.anchored_spec(text, at as int)
                    } else {
                        None
                    },
                    self,
                ),
                None => true,
            },
            r matches Some(n) ==> at + n <= text.spec_bytes().len(),
            match region {
                Some(reg) => r matches Some(n) ==> slot_at(final(reg)@, 0) == Some((at, (at + n) as usize)),
                None => true,
            },
    {
        let len = text.as_bytes().len();
        let found = if at <= len {
            self.anchored_groups(text, at)
        } else {
            None
        };
        proof {
            if seq_of(found) is Some {
                assert(span_ok(text.spec_bytes(), seq_of(found)->0[0]));
                lemma_spans_ordered(text.spec_bytes(), seq_of(found)->0);
            }
        }
        match self.report(found, region) {
            Some(end) => Some(end - at),
            None => None,
        }
    }

    /// Whether the whole of `text` is the match that starts at its beginning.
    pub fn is_match(&self, text: &str) -> (r: bool)
        ensures
            r == match self.anchored_spec(text, 0) {
                Some(g) => whole(g).1 == text.spec_bytes().len(),
                None => false,
            },
    {
        let len = text.as_bytes().len();
        match self.match_with_options(text, 0, crate::flags::SEARCH_OPTION_NONE, None) {
            Some(n) => n == len,
            None => false,
        }
    }

    /// The span of the leftmost match in `text`.
    pub fn find(&self, text: &str) -> (r: Option<(usize, usize)>)
        ensures
            r == match self.search_spec(text, 0, text.spec_bytes().len() as int) {
                Some(g) => Some(whole(g)),
                None => None,
            },
            r matches Some((s, e)) ==> s <= e <= text.spec_bytes().len(),
    {
        let len = text.as_bytes().len();
        match self.search_groups(text, 0, len) {
            Some(g) => {
                proof {
                    assert(span_ok(text.spec_bytes(), g@[0]));
                }
                Some(g[0].unwrap())
            },
            None => None,
        }
    }

    /// The name of each group, group 0 first.
    pub fn group_names(&self) -> (r: &Vec<Option<String>>)
        ensures
            r@ == self.names_spec(),
            r@.len() == self.slots_spec(),
            r@.len() >= 1,
            r@[0] is None,
            r@.len() == group_names(self.source_spec(), self.flags_spec()).len(),
    {
        proof {
            use_type_invariant(self);
        }
        &self.names
    }

    /// The number of groups, not counting the whole match.
    pub fn captures_len(&self) -> (r: usize)
        ensures
            r == self.slots_spec() - 1,
            r + 1 == self.slots_spec(),
            r + 1 == group_names(self.source_spec(), self.flags_spec()).len(),
    {
        proof {
            use_type_invariant(self);
        }
        self.names.len() - 1
    }

    /// The match of a search, with each group's span; `None` when nothing
    /// matched.
    pub(crate) fn search_groups(&self, text: &str, from: usize, to: usize) -> (r: Option<
        Vec<Option<(usize, usize)>>,
    >)
        ensures
            seq_of(r) == self.search_spec(text, from as int, to as int),
            r matches Some(g) ==> match_ok(text.spec_bytes(), g@, 0) && g@.len() == self.slots_spec()
                && g@.len() == group_names(self.source_spec(), self.flags_spec()).len(),
    {
        proof {
            use_type_invariant(self);
        }
        let len = text.as_bytes().len();
        if from > len || to > len {
            return None;
        }
        if from <= to {
            let m = engine_captures_at(&self.compiled, text, from);
            match m {
                Some(g) => {
                    if g[0].unwrap().0 < to {
                        Some(g)
                    } else {
                        None
                    }
                },
                None => None,
            }
        } else {
            let mut p: usize = from;
            while p > to
                invariant
                    to <= p <= from <= len,
                    len == text.spec_bytes().len(),
                    self.backward_spec(text, from as int, to as int) == self.backward_spec(
                        text,
                        p as int,
                        to as int,
                    ),
                decreases p,
            {
                let m = self.anchored_groups(text, p - 1);
                if m.is_some() {
                    return m;
                }
                p = p - 1;
            }
            None
        }
    }

    /// The match that starts at exactly `at`.
    fn anchored_groups(&self, text: &str, at: usize) -> (r: Option<Vec<Option<(usize, usize)>>>)
        requires
            at <= text.spec_bytes().len(),
        ensures
            seq_of(r) == self.anchored_spec(text, at as int),
            r matches Some(g) ==> match_ok(text.spec_bytes(), g@, 0) && g@.len() == self.slots_spec()
                && g@.len() == group_names(self.source_spec(), self.flags_spec()).len(),
    {
        proof {
            use_type_invariant(self);
        }
        let m = engine_captures_at(&self.compiled, text, at);
        match m {
            Some(g) => {
                if g[0].unwrap().0 == at {
                    Some(g)
                } else {
                    None
                }
            },
            None => None,
        }
    }

    /// Stores a match in the region, if one is given, and returns the end
    /// of the whole match.
    fn report(&self, found: Option<Vec<Option<(usize, usize)>>>, region: Option<&mut Region>) -> (r:
        Option<usize>)
        requires
            found matches Some(g) ==> g@.len() >= 1 && g@[0] is Some && spans_ordered(g@),
        ensures
            r == match seq_of(found) {
                Some(g) => Some(whole(g).1),
                None => None,
            },
            match region {
                Some(reg) => holds_match(*final(reg), seq_of(found), self),
                None => true,
            },
    {
        match found {
            Some(g) => {
                let end = g[0].unwrap().1;
                match region {
                    Some(reg) => {
                        let slots = self.fit(&g);
                        proof {
                            assert forall|i: int| 0 <= i < slots@.len() implies span_ordered(#[trigger] slots@[i]) by {
                                if i < g@.len() {
                                    assert(span_ordered(g@[i]));
                                }
                            }
                            use_type_invariant(self);
                            assert(slots@[0] == g@[0]);
                        }
                        let tree = self.history_tree(&slots);
                        reg.fill(slots, tree);
                        proof {
                            assert(slots@[0] == g@[0]);
                        }
                    },
                    None => {},
                }
                Some(end)
            },
            None => {
                match region {
                    Some(reg) => reg.clear(),
                    None => {},
                }
                None
            },
        }
    }

    /// The capture history tree of a match whose group spans are `slots`:
    /// `None` for a pattern without history groups.
    pub(crate) fn history_tree(&self, slots: &Vec<Option<(usize, usize)>>) -> (r: Option<CaptureTreeNode>)
        requires
            slot_at(slots@, 0) is Some,
        ensures
            self.history_spec().len() == 0 ==> r.is_none(),
            self.history_spec().len() > 0 ==> (r matches Some(t) && t.group_spec() == 0
                && Some(t.pos_spec()) == slot_at(slots@, 0) && tree_ok(t.children_spec(), self.history_spec(), slots@, 0)),
    {
        proof {
            use_type_invariant(self);
        }
        if self.history.len() == 0 {
            return None;
        }
        let whole_span = if slots.len() > 0 {
            slots[0]
        } else {
            None
        };
        match whole_span {
            Some((b, e)) => Some(CaptureTreeNode::new(0, b, e, history_children(&self.history, slots, 0))),
            None => None,
        }
    }

    /// The number of groups whose capture history is recorded.
    pub fn capture_histories_len(&self) -> (r: usize)
        ensures
            r == self.history_spec().len(),
    {
        self.history.len()
    }

    /// One slot per group of this pattern, taken from `groups`.
    pub(crate) fn fit(&self, groups: &Vec<Option<(usize, usize)>>) -> (r: Vec<Option<(usize, usize)>>)
        ensures
            r@ == fit_groups(groups@, self.slots_spec()),
    {
        let n = self.names.len();
        let mut out: Vec<Option<(usize, usize)>> = Vec::new();
        let mut i: usize = 0;
        while i < n
            invariant
                i <= n,
                n == self.slots_spec(),
                out@ == fit_groups(groups@, i as nat),
            decreases n - i,
        {
            let slot = if i < groups.len() {
                groups[i]
            } else {
                None
            };
            out.push(slot);
            proof {
                assert(out@ =~= fit_groups(groups@, (i + 1) as nat));
            }
            i = i + 1;
        }
        out
    }
}

/// The library's error for a pattern the engine refused.
fn refused_pattern_error(e: &BuildError) -> (r: Error)
    ensures
        (r.kind_spec() == ErrorKind::Compile && r.code_spec() == ERROR_PATTERN_SYNTAX)
            || (r.kind_spec() == ErrorKind::Resource && r.code_spec() == ERROR_PATTERN_TOO_BIG),
{
    let text = engine_error_text(e);
    if engine_error_is_size_limit(e) {
        Error::new(ErrorKind::Resource, ERROR_PATTERN_TOO_BIG, text.as_str())
    } else {
        Error::new(ErrorKind::Compile, ERROR_PATTERN_SYNTAX, text.as_str())
    }
}

} // verus!

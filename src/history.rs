use vstd::prelude::*;
use vstd::string::*;
use vstd::utf8::*;

use crate::region::slot_at;
use crate::pattern::names_view;
use crate::tree::CaptureTreeNode;

verus! {

/// Whether each history group comes after the group it is nested in: entry
/// `k` is (group number, parent), the parent being 0 for the whole match or
/// `j + 1` for entry `j < k`.
pub open spec fn history_ok(history: Seq<(usize, usize)>) -> bool {
    &&& forall|k: int| 0 <= k < history.len() ==> (#[trigger] history[k]).1 <= k && history[k].0 >= 1
    &&& forall|a: int, b: int| 0 <= a < b < history.len() ==> (#[trigger] history[a]).0 < (#[trigger] history[b]).0
}

/// Whether `nodes` are exactly the history nodes nested directly in node
/// `parent` (0 for the whole match, `j + 1` for history group `j`) for the
/// groups that took part in the match, in increasing group order, each with
/// the span of its group and with its own children likewise, all the way
/// down.
pub open spec fn tree_ok(
    nodes: Seq<CaptureTreeNode>,
    history: Seq<(usize, usize)>,
    slots: Seq<Option<(usize, usize)>>,
    parent: int,
) -> bool
    decreases history.len() - parent,
{
    &&& forall|k: int| 0 <= k < nodes.len() ==> slot_at(slots, (#[trigger] nodes[k]).group_spec() as int) == Some(nodes[k].pos_spec())
    &&& forall|m: int| parent <= m < history.len() && (#[trigger] history[m]).1 == parent && slot_at(slots, history[m].0 as int) is Some
            ==> listed(nodes, history[m].0)
    &&& forall|a: int, b: int| 0 <= a < b < nodes.len() ==> (#[trigger] nodes[a]).group_spec() < (#[trigger] nodes[b]).group_spec()
    &&& forall|k: int| 0 <= k < nodes.len() ==> exists|j: int| parent <= j < history.len() && history[j] == ((#[trigger] nodes[k]).group_spec(), parent as usize)
            && tree_ok(nodes[k].children_spec(), history, slots, j + 1)
}

/// Whether `group` is a history group nested directly in node `parent`,
/// among the first `upto` history groups.
pub open spec fn nested_in(history: Seq<(usize, usize)>, group: usize, parent: usize, upto: int) -> bool {
    exists|j: int| parent <= j < upto && history[j] == (group, parent)
}

/// Whether some node of `nodes` is for `group`.
pub open spec fn listed(nodes: Seq<CaptureTreeNode>, group: usize) -> bool {
    exists|k: int| 0 <= k < nodes.len() && nodes[k].group_spec() == group
}

/// The position of the first `>` at or after `k` in `p`; `p.len()` when
/// there is none.
pub open spec fn name_end(p: Seq<u8>, k: int) -> int
    decreases p.len() - k,
{
    if k < 0 || k >= p.len() {
        p.len() as int
    } else if p[k] == 62u8 {
        k
    } else {
        name_end(p, k + 1)
    }
}

/// Reads `p` from byte `i` on, given the groups still open (each with the
/// history node new groups nest in), the number of groups seen, the depth of
/// bracketed classes, and what was produced so far: the bytes for the
/// engine, the history groups, and the named groups. `\\` escapes the next
/// byte; inside brackets only `[` and `]` count; with `marks`, `(?@` opens a
/// history group and loses its `?@`; `(?<name>` and `(?P<name>` open a
/// numbered group whose name is recorded and removed; `(` opens a numbered
/// group unless followed by `?`; `)` closes a group.
pub open spec fn scan_rest(
    p: Seq<u8>,
    marks: bool,
    i: int,
    open: Seq<usize>,
    groups: int,
    depth: int,
    out: Seq<u8>,
    hist: Seq<(usize, usize)>,
    names: Seq<(usize, Seq<u8>)>,
) -> (Seq<u8>, Seq<(usize, usize)>, Seq<(usize, Seq<u8>)>)
    decreases p.len() - i,
{
    if i < 0 || i >= p.len() {
        (out, hist, names)
    } else {
        let c = p[i];
        if c == 92u8 {
            if i + 1 < p.len() {
                scan_rest(p, marks, i + 2, open, groups, depth, out.push(c).push(p[i + 1]), hist, names)
            } else {
                scan_rest(p, marks, i + 1, open, groups, depth, out.push(c), hist, names)
            }
        } else if depth > 0 {
            let d = if c == 91u8 {
                depth + 1
            } else if c == 93u8 {
                depth - 1
            } else {
                depth
            };
            scan_rest(p, marks, i + 1, open, groups, d, out.push(c), hist, names)
        } else if c == 91u8 {
            scan_rest(p, marks, i + 1, open, groups, 1, out.push(c), hist, names)
        } else if c == 40u8 {
            let parent: usize = if open.len() > 0 {
                open.last()
            } else {
                0
            };
            let question = i + 1 < p.len() && p[i + 1] == 63u8;
            let at_mark = marks && question && i + 2 < p.len() && p[i + 2] == 64u8;
            let named_lt = question && i + 3 < p.len() && p[i + 2] == 60u8 && p[i + 3] != 61u8
                && p[i + 3] != 33u8;
            let named_p = question && i + 3 < p.len() && p[i + 2] == 80u8 && p[i + 3] == 60u8;
            let start = if named_lt {
                i + 3
            } else {
                i + 4
            };
            let end = name_end(p, start);
            if at_mark {
                let h = hist.push(((groups + 1) as usize, parent));
                scan_rest(p, marks, i + 3, open.push(h.len() as usize), groups + 1, depth, out.push(c), h, names)
            } else if (named_lt || named_p) && i < end < p.len() {
                scan_rest(
                    p,
                    marks,
                    end + 1,
                    open.push(parent),
                    groups + 1,
                    depth,
                    out.push(c),
                    hist,
                    names.push(((groups + 1) as usize, p.subrange(start, end))),
                )
            } else {
                let g = if !question || named_lt || named_p {
                    groups + 1
                } else {
                    groups
                };
                scan_rest(p, marks, i + 1, open.push(parent), g, depth, out.push(c), hist, names)
            }
        } else {
            let o = if c == 41u8 && open.len() > 0 {
                open.drop_last()
            } else {
                open
            };
            scan_rest(p, marks, i + 1, o, groups, depth, out.push(c), hist, names)
        }
    }
}

/// Without `marks` the scan records no history group.
pub proof fn lemma_no_marks_no_history(
    p: Seq<u8>,
    i: int,
    open: Seq<usize>,
    groups: int,
    depth: int,
    out: Seq<u8>,
    hist: Seq<(usize, usize)>,
    names: Seq<(usize, Seq<u8>)>,
)
    ensures
        scan_rest(p, false, i, open, groups, depth, out, hist, names).1 == hist,
    decreases p.len() - i,
{
    if 0 <= i < p.len() {
        let c = p[i];
        if c == 92u8 {
            if i + 1 < p.len() {
                lemma_no_marks_no_history(p, i + 2, open, groups, depth, out.push(c).push(p[i + 1]), hist, names);
            } else {
                lemma_no_marks_no_history(p, i + 1, open, groups, depth, out.push(c), hist, names);
            }
        } else if depth > 0 {
            let d = if c == 91u8 {
                depth + 1
            } else if c == 93u8 {
                depth - 1
            } else {
                depth
            };
            lemma_no_marks_no_history(p, i + 1, open, groups, d, out.push(c), hist, names);
        } else if c == 91u8 {
            lemma_no_marks_no_history(p, i + 1, open, groups, 1, out.push(c), hist, names);
        } else if c == 40u8 {
            let parent: usize = if open.len() > 0 {
                open.last()
            } else {
                0
            };
            let question = i + 1 < p.len() && p[i + 1] == 63u8;
            let named_lt = question && i + 3 < p.len() && p[i + 2] == 60u8 && p[i + 3] != 61u8
                && p[i + 3] != 33u8;
            let named_p = question && i + 3 < p.len() && p[i + 2] == 80u8 && p[i + 3] == 60u8;
            let start = if named_lt {
                i + 3
            } else {
                i + 4
            };
            let end = name_end(p, start);
            if (named_lt || named_p) && i < end < p.len() {
                lemma_no_marks_no_history(p, end + 1, open.push(parent), groups + 1, depth, out.push(c), hist,
                    names.push(((groups + 1) as usize, p.subrange(start, end))));
            } else {
                let g = if !question || named_lt || named_p {
                    groups + 1
                } else {
                    groups
                };
                lemma_no_marks_no_history(p, i + 1, open.push(parent), g, depth, out.push(c), hist, names);
            }
        } else {
            let o = if c == 41u8 && open.len() > 0 {
                open.drop_last()
            } else {
                open
            };
            lemma_no_marks_no_history(p, i + 1, o, groups, depth, out.push(c), hist, names);
        }
    }
}

/// What `scan_history` makes of `pattern`.
pub open spec fn scan_spec(pattern: Seq<u8>, marks: bool) -> (Seq<u8>, Seq<(usize, usize)>, Seq<(usize, Seq<u8>)>) {
    scan_rest(pattern, marks, 0, Seq::empty(), 0, 0, Seq::empty(), Seq::empty(), Seq::empty())
}

/// The name recorded first for group `g`, as bytes.
pub open spec fn name_of(names: Seq<(usize, Seq<u8>)>, g: usize) -> Option<Seq<u8>>
    decreases names.len(),
{
    if names.len() == 0 {
        None
    } else {
        match name_of(names.drop_last(), g) {
            Some(b) => Some(b),
            None => if names.last().0 == g {
                Some(names.last().1)
            } else {
                None
            },
        }
    }
}

/// Whether every name recorded for the first `count` groups is valid text.
pub open spec fn names_valid(names: Seq<(usize, Seq<u8>)>, count: nat) -> bool {
    forall|g: int| 0 <= g < count ==> (#[trigger] name_of(names, g as usize) matches Some(b) ==> valid_utf8(b))
}

/// The name of each of the first `count` groups, as text.
pub open spec fn named_groups(names: Seq<(usize, Seq<u8>)>, count: nat) -> Seq<Option<Seq<char>>> {
    Seq::new(count, |g: int| match name_of(names, g as usize) {
        Some(b) => Some(decode_utf8(b)),
        None => None,
    })
}

proof fn lemma_name_of_zero(names: Seq<(usize, Seq<u8>)>)
    requires
        forall|k: int| 0 <= k < names.len() ==> (#[trigger] names[k]).0 >= 1,
    ensures
        name_of(names, 0) is None,
    decreases names.len(),
{
    if names.len() > 0 {
        let prefix = names.drop_last();
        assert forall|k: int| 0 <= k < prefix.len() implies (#[trigger] prefix[k]).0 >= 1 by {
            assert(prefix[k] == names[k]);
        }
        lemma_name_of_zero(prefix);
        assert(names.last() == names[names.len() - 1]);
    }
}

/// The name of each of the first `count` groups of a scanned pattern;
/// `None` if one of them is not valid text. Group 0 is never named.
pub fn group_names_of(scanned: &Scanned, count: usize) -> (r: Option<Vec<Option<String>>>)
    requires
        forall|k: int| 0 <= k < scanned.names@.len() ==> (#[trigger] scanned.names@[k]).0 >= 1,
    ensures
        r.is_some() == names_valid(names_seen(scanned.names@), count as nat),
        r matches Some(v) ==> names_view(v@) == named_groups(names_seen(scanned.names@), count as nat)
            && (count >= 1 ==> v@[0] is None),
{
    let ghost seen = names_seen(scanned.names@);
    let mut out: Vec<Option<String>> = Vec::new();
    let mut g: usize = 0;
    while g < count
        invariant
            g <= count,
            seen == names_seen(scanned.names@),
            names_valid(seen, g as nat),
            names_view(out@) == named_groups(seen, g as nat),
            out@.len() == g,
            g >= 1 ==> out@[0] is None,
            forall|k: int| 0 <= k < scanned.names@.len() ==> (#[trigger] scanned.names@[k]).0 >= 1,
        decreases count - g,
    {
        let mut found: Option<&Vec<u8>> = None;
        let mut k: usize = 0;
        while k < scanned.names.len()
            invariant
                k <= scanned.names@.len(),
                seen == names_seen(scanned.names@),
                match found {
                    Some(b) => name_of(seen.subrange(0, k as int), g) == Some(b@),
                    None => name_of(seen.subrange(0, k as int), g) is None,
                },
            decreases scanned.names@.len() - k,
        {
            proof {
                assert(seen.subrange(0, k + 1).drop_last() =~= seen.subrange(0, k as int));
            }
            if found.is_none() && scanned.names[k].0 == g {
                found = Some(&scanned.names[k].1);
            }
            k = k + 1;
        }
        proof {
            assert(seen.subrange(0, seen.len() as int) =~= seen);
            if g == 0 {
                lemma_name_of_zero(seen);
            }
        }
        let name = match found {
            Some(bytes) => match text_of_bytes(bytes.as_slice()) {
                Some(text) => Some(text),
                None => {
                    proof {
                        assert(name_of(seen, g) == Some(bytes@));
                        assert(!(name_of(seen, g as int as usize) matches Some(b) ==> valid_utf8(b)));
                    }
                    return None;
                },
            },
            None => None,
        };
        let ghost before = out@;
        out.push(name);
        proof {
            assert forall|h: int| 0 <= h < g + 1 implies #[trigger] names_view(out@)[h] == named_groups(seen, (g + 1) as nat)[h] by {
                if h < g {
                    assert(out@[h] == before[h]);
                    assert(names_view(before)[h] == named_groups(seen, g as nat)[h]);
                } else {
                    assert(out@[h] == name);
                }
            }
            assert(names_view(out@) =~= named_groups(seen, (g + 1) as nat));
            assert forall|h: int| 0 <= h < g + 1 implies (#[trigger] name_of(seen, h as usize) matches Some(b) ==> valid_utf8(b)) by {
                if h < g {
                    assert(names_valid(seen, g as nat));
                }
            }
        }
        g = g + 1;
    }
    Some(out)
}

/// The names recorded as (group number, name bytes).
pub open spec fn names_seen(names: Seq<(usize, Vec<u8>)>) -> Seq<(usize, Seq<u8>)> {
    names.map_values(|e: (usize, Vec<u8>)| (e.0, e.1@))
}

/// The pattern with its history marks and group names removed, its history
/// groups, and the name of each named group.
pub struct Scanned {
    pub bytes: Vec<u8>,
    pub history: Vec<(usize, usize)>,
    pub names: Vec<(usize, Vec<u8>)>,
}

/// Capture history for an engine that records one span per group: a
/// history node holds the last span its group matched, not one node per
/// repetition. Group names are kept by the library, not by the engine, so
/// that a name may be bound to several groups.
///
/// Reads `pattern`: returns it with each group name removed (`(?<name>` and
/// `(?P<name>` become `(`) and, with `marks`, with the `?@` of each history
/// group `(?@...)` removed; for each history group in order, its group number
/// and the history group it is nested in; and for each named group, its
/// number and name. Escapes (`\\x`) and bracketed classes are skipped over;
/// `(` opens a numbered group unless it is followed by `?`.
pub fn scan_history(pattern: &[u8], marks: bool) -> (r: Scanned)
    ensures
        (r.bytes@, r.history@, names_seen(r.names@)) == scan_spec(pattern@, marks),
        history_ok(r.history@),
        forall|k: int| 0 <= k < r.names@.len() ==> (#[trigger] r.names@[k]).0 >= 1,
        r.bytes@.len() <= pattern@.len(),
{
    let n = pattern.len();
    let mut out: Vec<u8> = Vec::new();
    let mut history: Vec<(usize, usize)> = Vec::new();
    let mut names: Vec<(usize, Vec<u8>)> = Vec::new();
    let mut open: Vec<usize> = Vec::new();
    let mut groups: usize = 0;
    let mut class_depth: usize = 0;
    let mut i: usize = 0;
    proof {
        assert(names_seen(names@) =~= Seq::<(usize, Seq<u8>)>::empty());
    }
    while i < n
        invariant
            i <= n,
            n == pattern@.len(),
            out@.len() <= i,
            history_ok(history@),
            forall|k: int| 0 <= k < history@.len() ==> (#[trigger] history@[k]).0 <= groups,
            forall|k: int| 0 <= k < names@.len() ==> (#[trigger] names@[k]).0 >= 1,
            history@.len() <= i,
            groups <= i,
            class_depth <= i,
            forall|k: int| 0 <= k < open@.len() ==> #[trigger] open@[k] <= history@.len(),
            scan_rest(pattern@, marks, i as int, open@, groups as int, class_depth as int, out@, history@, names_seen(names@))
                == scan_spec(pattern@, marks),
        decreases n - i,
    {
        let c = pattern[i];
        if c == 92u8 {
            // a backslash escapes the byte after it
            out.push(c);
            if i + 1 < n {
                out.push(pattern[i + 1]);
                i = i + 2;
            } else {
                i = i + 1;
            }
        } else if class_depth > 0 {
            if c == 91u8 {
                class_depth = class_depth + 1;
            } else if c == 93u8 {
                class_depth = class_depth - 1;
            }
            out.push(c);
            i = i + 1;
        } else if c == 91u8 {
            class_depth = 1;
            out.push(c);
            i = i + 1;
        } else if c == 40u8 {
            let parent: usize = if open.len() > 0 {
                open[open.len() - 1]
            } else {
                0
            };
            let question = i + 1 < n && pattern[i + 1] == 63u8;
            let at_mark = marks && question && i + 2 < n && pattern[i + 2] == 64u8;
            let named_lt = question && i + 2 < n && i + 3 < n && pattern[i + 2] == 60u8 && pattern[i + 3] != 61u8
                && pattern[i + 3] != 33u8;
            let named_p = question && i + 2 < n && i + 3 < n && pattern[i + 2] == 80u8 && pattern[i + 3] == 60u8;
            let start: usize = if named_lt {
                i + 3
            } else if named_p {
                i + 4
            } else {
                n
            };
            let mut end: usize = start;
            if named_lt || named_p {
                while end < n && pattern[end] != 62u8
                    invariant
                        start <= end <= n,
                        n == pattern@.len(),
                        name_end(pattern@, start as int) == name_end(pattern@, end as int),
                    decreases n - end,
                {
                    end = end + 1;
                }
            }
            if at_mark {
                groups = groups + 1;
                let ghost before = history@;
                history.push((groups, parent));
                proof {
                    assert forall|a: int, b: int| 0 <= a < b < history@.len() implies (#[trigger] history@[a]).0 < (#[trigger] history@[b]).0 by {
                        if b < before.len() {
                            assert(before[a].0 < before[b].0);
                        } else {
                            assert(history@[a] == before[a]);
                        }
                    }
                }
                open.push(history.len());
                out.push(c);
                i = i + 3;
            } else if (named_lt || named_p) && end < n {
                groups = groups + 1;
                let mut name: Vec<u8> = Vec::new();
                let mut k: usize = start;
                while k < end
                    invariant
                        start <= k <= end < n,
                        n == pattern@.len(),
                        name@ == pattern@.subrange(start as int, k as int),
                    decreases end - k,
                {
                    name.push(pattern[k]);
                    proof {
                        assert(name@ =~= pattern@.subrange(start as int, k + 1));
                    }
                    k = k + 1;
                }
                let ghost before = names@;
                names.push((groups, name));
                proof {
                    assert(names_seen(names@) =~= names_seen(before).push((groups, pattern@.subrange(start as int, end as int))));
                }
                open.push(parent);
                out.push(c);
                i = end + 1;
            } else {
                if !question || named_lt || named_p {
                    groups = groups + 1;
                }
                open.push(parent);
                out.push(c);
                i = i + 1;
            }
        } else {
            if c == 41u8 && open.len() > 0 {
                open.pop();
            }
            out.push(c);
            i = i + 1;
        }
    }
    Scanned { bytes: out, history, names }
}

/// The history nodes nested directly in node `parent` (0 for the whole
/// match, `j + 1` for history group `j`), each with the groups nested in it,
/// for the groups that took part in the match.
pub fn history_children(history: &Vec<(usize, usize)>, slots: &Vec<Option<(usize, usize)>>, parent: usize) -> (r: Vec<CaptureTreeNode>)
    requires
        history_ok(history@),
        parent <= history@.len(),
    ensures
        r@.len() <= history@.len() - parent,
        tree_ok(r@, history@, slots@, parent as int),
    decreases history@.len() - parent,
{
    let mut out: Vec<CaptureTreeNode> = Vec::new();
    let mut j: usize = parent;
    while j < history.len()
        invariant
            parent <= j <= history@.len(),
            history_ok(history@),
            out@.len() <= j - parent,
            forall|k: int| 0 <= k < out@.len() ==> slot_at(slots@, (#[trigger] out@[k]).group_spec() as int) == Some(out@[k].pos_spec()),
            forall|m: int| parent <= m < j && (#[trigger] history@[m]).1 == parent && slot_at(slots@, history@[m].0 as int) is Some
                ==> listed(out@, history@[m].0),
            forall|a: int, b: int| 0 <= a < b < out@.len() ==> (#[trigger] out@[a]).group_spec() < (#[trigger] out@[b]).group_spec(),
            forall|k: int| 0 <= k < out@.len() ==> exists|m: int| parent <= m < j && history@[m] == ((#[trigger] out@[k]).group_spec(), parent)
                && tree_ok(out@[k].children_spec(), history@, slots@, m + 1),
        decreases history@.len() - j,
    {
        let (group, up) = history[j];
        if up == parent {
            if let Some((b, e)) = slot_of(slots, group) {
                let children = history_children(history, slots, j + 1);
                let ghost before = out@;
                let node = CaptureTreeNode::new(group, b, e, children);
                out.push(node);
                proof {
                    let last = out@.len() - 1;
                    assert(out@[last] == node);
                    assert(forall|k: int| 0 <= k < last ==> out@[k] == before[k]);
                    assert forall|k: int| 0 <= k < out@.len() implies exists|m: int| parent <= m < j + 1 && history@[m] == ((#[trigger] out@[k]).group_spec(), parent)
                        && tree_ok(out@[k].children_spec(), history@, slots@, m + 1) by {
                        if k == last {
                            assert(history@[j as int] == (out@[k].group_spec(), parent));
                        } else {
                            assert(before[k] == out@[k]);
                        }
                    }
                    assert forall|a: int, bb: int| 0 <= a < bb < out@.len() implies (#[trigger] out@[a]).group_spec() < (#[trigger] out@[bb]).group_spec() by {
                        if bb == last {
                            assert(before[a] == out@[a]);
                            let m = choose|m: int| parent <= m < j && history@[m] == (before[a].group_spec(), parent)
                                && tree_ok(before[a].children_spec(), history@, slots@, m + 1);
                            assert(history@[m].0 < history@[j as int].0);
                        } else {
                            assert(before[a] == out@[a]);
                            assert(before[bb] == out@[bb]);
                        }
                    }
                    assert forall|m: int| parent <= m < j + 1 && (#[trigger] history@[m]).1 == parent && slot_at(slots@, history@[m].0 as int) is Some
                        implies listed(out@, history@[m].0) by {
                        if m < j {
                            assert(listed(before, history@[m].0));
                            let k = choose|k: int| 0 <= k < before.len() && before[k].group_spec() == history@[m].0;
                            assert(out@[k] == before[k]);
                        } else {
                            assert(out@[last].group_spec() == history@[m].0);
                        }
                    }
                }
            }
        }
        j = j + 1;
    }
    proof {
        assert forall|k: int| 0 <= k < out@.len() implies exists|m: int| parent <= m < history@.len() && history@[m] == ((#[trigger] out@[k]).group_spec(), (parent as int) as usize)
            && tree_ok(out@[k].children_spec(), history@, slots@, m + 1) by {
            let m = choose|m: int| parent <= m < j && history@[m] == (out@[k].group_spec(), parent)
                && tree_ok(out@[k].children_spec(), history@, slots@, m + 1);
        }
    }
    out
}

/// The span of group `i` in `slots`.
fn slot_of(slots: &Vec<Option<(usize, usize)>>, i: usize) -> (r: Option<(usize, usize)>)
    ensures
        r == slot_at(slots@, i as int),
{
    if i < slots.len() {
        slots[i]
    } else {
        None
    }
}

/// Relies on std::str::from_utf8: text for bytes that are valid UTF-8, and
/// nothing for bytes that are not.
#[verifier::external_body]
fn text_of_bytes(bytes: &[u8]) -> (r: Option<String>)
    ensures
        r.is_some() == valid_utf8(bytes@),
        r matches Some(s) ==> s@ == decode_utf8(bytes@),
{
    std::str::from_utf8(bytes).ok().map(|s| s.to_string())
}

/// The pattern text the engine compiles for `pattern` once its history
/// marks are removed; `None` if what is left is not valid text.
pub fn engine_source(scanned: &Scanned) -> (r: Option<String>)
    ensures
        r.is_some() == valid_utf8(scanned.bytes@),
        r matches Some(s) ==> s@ == decode_utf8(scanned.bytes@),
{
    text_of_bytes(scanned.bytes.as_slice())
}

} // verus!

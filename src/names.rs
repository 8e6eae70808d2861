use vstd::prelude::*;

use crate::pattern::{names_view, Regex};

verus! {

pub open spec fn keys_view(keys: Seq<String>) -> Seq<Seq<char>> {
    keys.map_values(|s: String| s@)
}

pub open spec fn groups_view(groups: Seq<Vec<usize>>) -> Seq<Seq<usize>> {
    groups.map_values(|g: Vec<usize>| g@)
}

/// Whether `f` was called with `name` and `groups` and answered `answer`.
pub open spec fn called_with<F: FnMut(&str, &[usize]) -> bool>(
    f: F,
    name: Seq<char>,
    groups: Seq<usize>,
    answer: bool,
) -> bool {
    exists|n: &str, g: &[usize]| n@ == name && g@ == groups && call_ensures(f, (n, g), answer)
}

/// Whether `f` answered `true` for each of the first `upto` entries.
pub open spec fn answered_true<F: FnMut(&str, &[usize]) -> bool>(
    f: F,
    keys: Seq<Seq<char>>,
    groups: Seq<Seq<usize>>,
    upto: int,
) -> bool {
    forall|k: int| 0 <= k < upto ==> called_with(f, #[trigger] keys[k], groups[k], true)
}

/// The position of the entry for `name` in `keys`, or `keys.len()` when
/// there is none.
pub open spec fn entry_of(keys: Seq<Seq<char>>, name: Seq<char>) -> int
    decreases keys.len(),
{
    if keys.len() == 0 {
        0
    } else if entry_of(keys.drop_last(), name) < keys.len() - 1 {
        entry_of(keys.drop_last(), name)
    } else if keys.last() == name {
        keys.len() - 1
    } else {
        keys.len() as int
    }
}

/// The named-group index of the first `k` groups: each distinct name, in
/// the order it first appears, with every group number bound to it in
/// increasing order.
pub open spec fn name_index(names: Seq<Option<Seq<char>>>, k: int) -> (Seq<Seq<char>>, Seq<Seq<usize>>)
    decreases k,
{
    if k <= 0 {
        (Seq::empty(), Seq::empty())
    } else {
        let (keys, groups) = name_index(names, k - 1);
        match names[k - 1] {
            Some(n) => {
                let e = entry_of(keys, n);
                if e < keys.len() {
                    (keys, groups.update(e, groups[e].push((k - 1) as usize)))
                } else {
                    (keys.push(n), groups.push(seq![(k - 1) as usize]))
                }
            },
            None => (keys, groups),
        }
    }
}

proof fn lemma_name_index_lens(names: Seq<Option<Seq<char>>>, k: int)
    ensures
        name_index(names, k).0.len() == name_index(names, k).1.len(),
        k >= 0 ==> name_index(names, k).0.len() <= k,
    decreases k,
{
    if k > 0 {
        lemma_name_index_lens(names, k - 1);
        let (keys, groups) = name_index(names, k - 1);
        if let Some(n) = names[k - 1] {
            lemma_entry_of_range(keys, n);
        }
    }
}

/// Every group number in the index of the first `k` groups is a named
/// group, so at least 1 when group 0 is unnamed, and below `k`.
proof fn lemma_name_index_groups(names: Seq<Option<Seq<char>>>, k: int)
    requires
        0 <= k <= names.len(),
        names.len() >= 1,
        names.len() <= usize::MAX,
        names[0] is None,
    ensures
        forall|i: int, j: int|
            0 <= i < name_index(names, k).1.len() && 0 <= j < name_index(names, k).1[i].len() ==> 1
                <= #[trigger] name_index(names, k).1[i][j] < k,
    decreases k,
{
    if k > 0 {
        lemma_name_index_groups(names, k - 1);
        lemma_name_index_lens(names, k - 1);
        let (keys, groups) = name_index(names, k - 1);
        if let Some(n) = names[k - 1] {
            lemma_entry_of_range(keys, n);
            let e = entry_of(keys, n);
            assert(k - 1 >= 1);
            if e < keys.len() {
                let g2 = groups.update(e, groups[e].push((k - 1) as usize));
                assert forall|i: int, j: int| 0 <= i < g2.len() && 0 <= j < g2[i].len() implies 1 <= #[trigger] g2[i][j] < k by {
                    if i == e {
                        if j < groups[e].len() {
                            assert(g2[i][j] == groups[e][j]);
                        }
                    } else {
                        assert(g2[i][j] == groups[i][j]);
                    }
                }
            } else {
                let g2 = groups.push(seq![(k - 1) as usize]);
                assert forall|i: int, j: int| 0 <= i < g2.len() && 0 <= j < g2[i].len() implies 1 <= #[trigger] g2[i][j] < k by {
                    if i < groups.len() {
                        assert(g2[i][j] == groups[i][j]);
                    }
                }
            }
        }
    }
}

proof fn lemma_entry_of_range(keys: Seq<Seq<char>>, name: Seq<char>)
    ensures
        0 <= entry_of(keys, name) <= keys.len(),
        entry_of(keys, name) < keys.len() ==> keys[entry_of(keys, name)] == name,
        entry_of(keys, name) == keys.len() ==> forall|i: int| 0 <= i < keys.len() ==> keys[i] != name,
    decreases keys.len(),
{
    if keys.len() > 0 {
        lemma_entry_of_range(keys.drop_last(), name);
        let prefix = keys.drop_last();
        if entry_of(prefix, name) == prefix.len() && keys.last() != name {
            assert forall|i: int| 0 <= i < keys.len() implies keys[i] != name by {
                if i < prefix.len() {
                    assert(prefix[i] == keys[i]);
                }
            }
        }
    }
}

/// A forward cursor over the named-group index of a pattern: each
/// distinct name with the numbers of the groups bound to it.
#[derive(Debug)]
pub struct CaptureNames {
    keys: Vec<String>,
    groups: Vec<Vec<usize>>,
    idx: usize,
}

impl CaptureNames {
    #[verifier::type_invariant]
    spec fn inv(&self) -> bool {
        self.keys@.len() == self.groups@.len()
    }

    pub closed spec fn keys_spec(&self) -> Seq<Seq<char>> {
        keys_view(self.keys@)
    }

    pub closed spec fn groups_spec(&self) -> Seq<Seq<usize>> {
        groups_view(self.groups@)
    }

    pub closed spec fn index_spec(&self) -> usize {
        self.idx
    }

    /// The number of entries not yet handed out.
    pub fn len(&self) -> (r: usize)
        ensures
            r == if self.index_spec() < self.keys_spec().len() {
                self.keys_spec().len() - self.index_spec()
            } else {
                0
            },
    {
        if self.idx < self.keys.len() {
            self.keys.len() - self.idx
        } else {
            0
        }
    }

    /// The next name with its group numbers, or `None` at the end.
    pub fn next(&mut self) -> (r: Option<(String, Vec<usize>)>)
        ensures
            final(self).keys_spec() == old(self).keys_spec(),
            final(self).groups_spec() == old(self).groups_spec(),
            old(self).index_spec() < old(self).keys_spec().len() ==> (r matches Some((k, g)) && k@
                == old(self).keys_spec()[old(self).index_spec() as int] && g@ == old(
                self,
            ).groups_spec()[old(self).index_spec() as int] && final(self).index_spec()
                == old(self).index_spec() + 1),
            old(self).index_spec() >= old(self).keys_spec().len() ==> (r.is_none()
                && final(self).index_spec() == old(self).index_spec()),
    {
        proof {
            use_type_invariant(&*self);
        }
        if self.idx < self.keys.len() {
            let k = self.keys[self.idx].clone();
            let g = copy_indices(&self.groups[self.idx]);
            self.idx = self.idx + 1;
            Some((k, g))
        } else {
            None
        }
    }
}

fn copy_indices(v: &Vec<usize>) -> (r: Vec<usize>)
    ensures
        r@ == v@,
{
    let mut out: Vec<usize> = Vec::new();
    let mut i: usize = 0;
    while i < v.len()
        invariant
            i <= v@.len(),
            out@ == v@.subrange(0, i as int),
        decreases v@.len() - i,
    {
        out.push(v[i]);
        proof {
            assert(out@ =~= v@.subrange(0, i + 1));
        }
        i = i + 1;
    }
    proof {
        assert(v@.subrange(0, v@.len() as int) =~= v@);
    }
    out
}

impl Regex {
    /// The named-group index of this pattern.
    pub open spec fn name_index_spec(&self) -> (Seq<Seq<char>>, Seq<Seq<usize>>) {
        name_index(names_view(self.names_spec()), self.names_spec().len() as int)
    }

    /// The number of distinct group names.
    pub fn capture_names_len(&self) -> (r: usize)
        ensures
            r == self.name_index_spec().0.len(),
    {
        let (keys, _) = self.build_name_index();
        keys.len()
    }

    /// The number of distinct group names.
    pub fn names_len(&self) -> (r: usize)
        ensures
            r == self.name_index_spec().0.len(),
    {
        self.capture_names_len()
    }

    /// The named-group index: each distinct name, in the order it first
    /// appears, with the numbers of all the groups bound to it.
    pub fn capture_names(&self) -> (r: CaptureNames)
        ensures
            r.keys_spec() == self.name_index_spec().0,
            r.groups_spec() == self.name_index_spec().1,
            r.keys_spec().len() == r.groups_spec().len(),
            r.index_spec() == 0,
            forall|i: int, j: int|
                0 <= i < r.groups_spec().len() && 0 <= j < r.groups_spec()[i].len() ==> 1
                    <= #[trigger] r.groups_spec()[i][j] <= self.captures_len_spec(),
    {
        let (keys, groups) = self.build_name_index();
        let names = self.group_names();
        let count = names.len();
        proof {
            assert(count == names@.len());
            let nv = names_view(self.names_spec());
            assert(nv[0] is None);
            assert(nv.len() == names@.len());
            assert(self.slots_spec() == names@.len());
            lemma_name_index_lens(nv, nv.len() as int);
            lemma_name_index_groups(nv, nv.len() as int);
            assert(keys_view(keys@).len() == keys@.len());
            assert(groups_view(groups@).len() == groups@.len());
        }
        CaptureNames { keys, groups, idx: 0 }
    }

    /// Calls `callback` with each name of the named-group index and the
    /// numbers of its groups, in the order of the index, until it returns
    /// `false`. Returns 0 when every call returned `true` (and so when there
    /// is no name), -1 when one returned `false`; no call follows that one.
    pub fn foreach_name<F>(&self, callback: F) -> (r: i32)
        where
            F: FnMut(&str, &[usize]) -> bool,
        requires
            forall|name: &str, groups: &[usize]| call_requires(callback, (name, groups)),
        ensures
            r == 0 || r == -1,
            r == 0 ==> answered_true(
                callback,
                self.name_index_spec().0,
                self.name_index_spec().1,
                self.name_index_spec().0.len() as int,
            ),
            r == -1 ==> exists|i: int|
                0 <= i < self.name_index_spec().0.len() && called_with(
                    callback,
                    #[trigger] self.name_index_spec().0[i],
                    self.name_index_spec().1[i],
                    false,
                ) && answered_true(callback, self.name_index_spec().0, self.name_index_spec().1, i),
            self.name_index_spec().0.len() == 0 ==> r == 0,
    {
        let (keys, groups) = self.build_name_index();
        let ghost kv = self.name_index_spec().0;
        let ghost gv = self.name_index_spec().1;
        proof {
            lemma_name_index_lens(names_view(self.names_spec()), self.names_spec().len() as int);
            assert(keys_view(keys@).len() == keys@.len());
            assert(groups_view(groups@).len() == groups@.len());
        }
        let ghost f = callback;
        let mut call = callback;
        let mut i: usize = 0;
        while i < keys.len()
            invariant
                forall|name: &str, groups: &[usize]| call_requires(call, (name, groups)),
                call == f,
                f == callback,
                kv == self.name_index_spec().0,
                gv == self.name_index_spec().1,
                i <= keys@.len(),
                keys@.len() == kv.len(),
                groups@.len() == kv.len(),
                keys_view(keys@) == kv,
                groups_view(groups@) == gv,
                answered_true(f, kv, gv, i as int),
            decreases keys@.len() - i,
        {
            let name = keys[i].as_str();
            let nums = groups[i].as_slice();
            let go_on = call(name, nums);
            proof {
                assert(kv[i as int] == keys@[i as int]@);
                assert(gv[i as int] == groups@[i as int]@);
                assert(called_with(f, kv[i as int], gv[i as int], go_on));
            }
            proof {
                assert(answered_true(f, kv, gv, i as int) && go_on ==> answered_true(f, kv, gv, i + 1));
            }
            if !go_on {
                proof {
                    assert(called_with(callback, self.name_index_spec().0[i as int], self.name_index_spec().1[i as int], false));
                    assert(answered_true(callback, self.name_index_spec().0, self.name_index_spec().1, i as int));
                    assert(0 <= i < kv.len() && called_with(f, kv[i as int], gv[i as int], false)
                        && forall|k: int| 0 <= k < i ==> called_with(f, #[trigger] kv[k], gv[k], true));
                }
                return -1;
            }
            i = i + 1;
        }
        0
    }

    fn build_name_index(&self) -> (r: (Vec<String>, Vec<Vec<usize>>))
        ensures
            keys_view(r.0@) == self.name_index_spec().0,
            groups_view(r.1@) == self.name_index_spec().1,
    {
        index_names(self.group_names())
    }
}

/// The named-group index of a pattern whose groups bear the names `names`,
/// group 0 first: each distinct name, in the order it first appears, with
/// the numbers of all the groups bound to it.
pub fn index_names(names: &Vec<Option<String>>) -> (r: (Vec<String>, Vec<Vec<usize>>))
    ensures
        keys_view(r.0@) == name_index(names_view(names@), names@.len() as int).0,
        groups_view(r.1@) == name_index(names_view(names@), names@.len() as int).1,
{
    let ghost nv = names_view(names@);
    let mut keys: Vec<String> = Vec::new();
    let mut groups: Vec<Vec<usize>> = Vec::new();
    let mut k: usize = 0;
    while k < names.len()
        invariant
            k <= names@.len(),
            nv == names_view(names@),
            keys_view(keys@) == name_index(nv, k as int).0,
            groups_view(groups@) == name_index(nv, k as int).1,
            keys@.len() == groups@.len(),
        decreases names@.len() - k,
    {
        proof {
            lemma_name_index_lens(nv, k as int);
        }
        match &names[k] {
            Some(n) => {
                let ghost kv = keys_view(keys@);
                let mut e: usize = 0;
                while e < keys.len() && keys[e] != *n
                    invariant
                        e <= keys@.len(),
                        kv == keys_view(keys@),
                        forall|i: int| 0 <= i < e ==> kv[i] != n@,
                    decreases keys@.len() - e,
                {
                    e = e + 1;
                }
                proof {
                    lemma_entry_of_range(kv, n@);
                    assert(nv[k as int] == Some(n@));
                }
                if e < keys.len() {
                    proof {
                        lemma_entry_first(kv, n@, e as int);
                    }
                    let mut g = copy_indices(&groups[e]);
                    g.push(k);
                    let ghost before = groups_view(groups@);
                    let ghost gv = g@;
                    proof {
                        assert(gv == before[e as int].push(k));
                    }
                    groups.set(e, g);
                    proof {
                        assert forall|i: int| 0 <= i < groups@.len() implies #[trigger] groups_view(groups@)[i] == before.update(e as int, gv)[i] by {
                            if i != e {
                                assert(groups_view(groups@)[i] == before[i]);
                            }
                        }
                        assert(entry_of(kv, n@) == e as int);
                        assert(name_index(nv, k + 1).1 == before.update(e as int, before[e as int].push(k)));
                        assert(groups_view(groups@) =~= name_index(nv, k + 1).1);
                    }
                } else {
                    let ghost before = groups_view(groups@);
                    keys.push(n.clone());
                    let mut fresh: Vec<usize> = Vec::new();
                    fresh.push(k);
                    proof {
                        assert(fresh@ =~= seq![k]);
                    }
                    groups.push(fresh);
                    proof {
                        assert(name_index(nv, k + 1).1 == before.push(seq![k]));
                        assert forall|i: int| 0 <= i < groups@.len() implies #[trigger] groups_view(groups@)[i] == before.push(seq![k])[i] by {
                            if i < before.len() {
                                assert(groups_view(groups@)[i] == before[i]);
                            }
                        }
                        assert(keys_view(keys@) =~= name_index(nv, k + 1).0);
                        assert(groups_view(groups@) =~= name_index(nv, k + 1).1);
                    }
                }
            },
            None => {},
        }
        k = k + 1;
    }
    (keys, groups)
}

proof fn lemma_entry_first(keys: Seq<Seq<char>>, name: Seq<char>, e: int)
    requires
        0 <= e < keys.len(),
        keys[e] == name,
        forall|i: int| 0 <= i < e ==> keys[i] != name,
    ensures
        entry_of(keys, name) == e,
    decreases keys.len(),
{
    if e < keys.len() - 1 {
        lemma_entry_first(keys.drop_last(), name, e);
    } else {
        lemma_entry_of_range(keys.drop_last(), name);
    }
}

} // verus!

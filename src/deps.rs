use vstd::prelude::*;

use crate::text::{copy_strings, is_prefix_of, starts_with, str_eq, views};

verus! {

/// A dependency graph as plain values: each participant with the peers it
/// must rendezvous with.
pub type DependencyMap = Map<Seq<char>, Seq<Seq<char>>>;

/// The entries of an uploaded graph, in the order they were sent.
pub open spec fn graph_view(g: Seq<(String, Vec<String>)>) -> Seq<(Seq<char>, Seq<Seq<char>>)> {
    g.map_values(|e: (String, Vec<String>)| (e.0@, views(e.1@)))
}

/// `m` after putting each entry of `g` in turn; a later entry overwrites an
/// earlier one with the same key.
pub open spec fn apply_graph(m: DependencyMap, g: Seq<(Seq<char>, Seq<Seq<char>>)>) -> DependencyMap
    decreases g.len(),
{
    if g.len() == 0 {
        m
    } else {
        apply_graph(m, g.drop_last()).insert(g.last().0, g.last().1)
    }
}

/// `k` is a key of `m`, a prefix of `id`, and no key of `m` that is a
/// prefix of `id` is longer. An exact match is the longest prefix.
pub open spec fn is_longest_match(m: DependencyMap, id: Seq<char>, k: Seq<char>) -> bool {
    &&& m.contains_key(k)
    &&& is_prefix_of(k, id)
    &&& forall|k2: Seq<char>| #[trigger] m.contains_key(k2) && is_prefix_of(k2, id) ==> k2.len() <= k.len()
}

/// The dependencies of `id`: those stored under the longest key of `m` that
/// is a prefix of `id`, or `None` where no key is.
pub open spec fn deps_lookup(m: DependencyMap, id: Seq<char>) -> Option<Seq<Seq<char>>> {
    if exists|k: Seq<char>| is_longest_match(m, id, k) {
        Some(m[choose|k: Seq<char>| is_longest_match(m, id, k)])
    } else {
        None
    }
}

/// The global store of declared dependencies. Entries are added or
/// overwritten, never removed.
pub struct DependencyStore {
    entries: Vec<(String, Vec<String>)>,
}

impl DependencyStore {
    pub closed spec fn entry_views(&self) -> Seq<(Seq<char>, Seq<Seq<char>>)> {
        graph_view(self.entries@)
    }

    /// Keys are unique.
    pub closed spec fn wf(&self) -> bool {
        forall|i: int, j: int|
            0 <= i < j < self.entries@.len() ==> #[trigger] self.entries@[i].0@ != #[trigger] self.entries@[j].0@
    }

    spec fn index_of(&self, k: Seq<char>) -> int {
        choose|i: int| 0 <= i < self.entries@.len() && self.entries@[i].0@ == k
    }

    /// The graph that the store holds.
    pub closed spec fn view(&self) -> DependencyMap {
        Map::new(
            |k: Seq<char>| exists|i: int| 0 <= i < self.entries@.len() && self.entries@[i].0@ == k,
            |k: Seq<char>| views(self.entries@[self.index_of(k)].1@),
        )
    }

    proof fn lemma_view_at(&self, i: int)
        requires
            self.wf(),
            0 <= i < self.entries@.len(),
        ensures
            self.view().contains_key(self.entries@[i].0@),
            self.view()[self.entries@[i].0@] == views(self.entries@[i].1@),
    {
        let k = self.entries@[i].0@;
        assert(self.view().contains_key(k));
        let j = self.index_of(k);
        assert(0 <= j < self.entries@.len() && self.entries@[j].0@ == k);
        if i < j {
            assert(self.entries@[i].0@ != self.entries@[j].0@);
        } else if j < i {
            assert(self.entries@[j].0@ != self.entries@[i].0@);
        }
    }

    /// An empty store.
    pub fn new() -> (r: Self)
        ensures
            r.wf(),
            r.view() == DependencyMap::empty(),
    {
        let r = DependencyStore { entries: Vec::new() };
        assert(r.view() =~= DependencyMap::empty());
        r
    }

    fn find(&self, id: &str) -> (r: Option<usize>)
        requires
            self.wf(),
        ensures
            match r {
                None => !self.view().contains_key(id@),
                Some(i) => i < self.entries@.len() && self.entries@[i as int].0@ == id@,
            },
    {
        let mut i: usize = 0;
        while i < self.entries.len()
            invariant
                i <= self.entries@.len(),
                forall|j: int| 0 <= j < i ==> self.entries@[j].0@ != id@,
            decreases self.entries.len() - i,
        {
            if str_eq(self.entries[i].0.as_str(), id) {
                return Some(i);
            }
            i = i + 1;
        }
        None
    }

    /// Declares the dependencies of `id`, overwriting any earlier declaration.
    pub fn put(&mut self, id: &str, deps: Vec<String>)
        requires
            old(self).wf(),
        ensures
            final(self).wf(),
            final(self).view() == old(self).view().insert(id@, views(deps@)),
    {
        let ghost before = self.view();
        let key = id.to_owned();
        match self.find(id) {
            Some(i) => {
                self.entries[i] = (key, deps);
                proof {
                    assert forall|k: Seq<char>| #[trigger] self.view().contains_key(k) == before.insert(id@, views(deps@)).contains_key(k) by {
                        if k != id@ && before.contains_key(k) {
                            let j = choose|j: int| 0 <= j < old(self).entries@.len() && old(self).entries@[j].0@ == k;
                            assert(self.entries@[j].0@ == k);
                        }
                        if k != id@ && self.view().contains_key(k) {
                            let j = choose|j: int| 0 <= j < self.entries@.len() && self.entries@[j].0@ == k;
                            assert(old(self).entries@[j].0@ == k);
                        }
                    }
                    assert forall|k: Seq<char>| #[trigger] self.view().contains_key(k) implies self.view()[k] == before.insert(id@, views(deps@))[k] by {
                        let j = choose|j: int| 0 <= j < self.entries@.len() && self.entries@[j].0@ == k;
                        self.lemma_view_at(j);
                        if j != i {
                            old(self).lemma_view_at(j);
                        }
                    }
                    assert(self.view() =~= before.insert(id@, views(deps@)));
                }
            },
            None => {
                self.entries.push((key, deps));
                proof {
                    let n = self.entries@.len() - 1;
                    assert forall|k: Seq<char>| #[trigger] self.view().contains_key(k) == before.insert(id@, views(deps@)).contains_key(k) by {
                        if k != id@ && before.contains_key(k) {
                            let j = choose|j: int| 0 <= j < old(self).entries@.len() && old(self).entries@[j].0@ == k;
                            assert(self.entries@[j].0@ == k);
                        }
                        if k != id@ && self.view().contains_key(k) {
                            let j = choose|j: int| 0 <= j < self.entries@.len() && self.entries@[j].0@ == k;
                            assert(old(self).entries@[j].0@ == k);
                        }
                        if k == id@ {
                            assert(self.entries@[n].0@ == k);
                        }
                    }
                    assert forall|k: Seq<char>| #[trigger] self.view().contains_key(k) implies self.view()[k] == before.insert(id@, views(deps@))[k] by {
                        let j = choose|j: int| 0 <= j < self.entries@.len() && self.entries@[j].0@ == k;
                        self.lemma_view_at(j);
                        if j != n {
                            old(self).lemma_view_at(j);
                        }
                    }
                    assert(self.view() =~= before.insert(id@, views(deps@)));
                }
            },
        }
    }

    /// Merges an uploaded graph into the store, entry by entry.
    pub fn add_graph(&mut self, graph: &Vec<(String, Vec<String>)>)
        requires
            old(self).wf(),
        ensures
            final(self).wf(),
            final(self).view() == apply_graph(old(self).view(), graph_view(graph@)),
    {
        let ghost g = graph_view(graph@);
        let mut i: usize = 0;
        while i < graph.len()
            invariant
                self.wf(),
                i <= graph@.len(),
                g == graph_view(graph@),
                self.view() == apply_graph(old(self).view(), g.subrange(0, i as int)),
            decreases graph.len() - i,
        {
            let deps = copy_strings(&graph[i].1);
            self.put(graph[i].0.as_str(), deps);
            assert(g.subrange(0, i + 1).drop_last() == g.subrange(0, i as int));
            i = i + 1;
        }
        assert(g.subrange(0, g.len() as int) == g);
    }

    /// The dependencies of `id`, looked up by longest matching prefix.
    pub fn deps_of(&self, id: &str) -> (r: Option<Vec<String>>)
        requires
            self.wf(),
        ensures
            match r {
                None => deps_lookup(self.view(), id@) is None,
                Some(v) => deps_lookup(self.view(), id@) == Some(views(v@)),
            },
    {
        let mut best: Option<usize> = None;
        let mut best_len: usize = 0;
        let mut i: usize = 0;
        while i < self.entries.len()
            invariant
                self.wf(),
                i <= self.entries@.len(),
                match best {
                    None => forall|j: int| 0 <= j < i ==> !is_prefix_of(#[trigger] self.entries@[j].0@, id@),
                    Some(b) => {
                        &&& b < i
                        &&& best_len == self.entries@[b as int].0@.len()
                        &&& is_prefix_of(self.entries@[b as int].0@, id@)
                        &&& forall|j: int| 0 <= j < i && is_prefix_of(#[trigger] self.entries@[j].0@, id@)
                            ==> self.entries@[j].0@.len() <= best_len
                    },
                },
            decreases self.entries.len() - i,
        {
            let key = self.entries[i].0.as_str();
            if starts_with(id, key) {
                let n = key.unicode_len();
                if best.is_none() || n > best_len {
                    best = Some(i);
                    best_len = n;
                }
            }
            i = i + 1;
        }
        let ghost m = self.view();
        match best {
            None => {
                assert forall|k: Seq<char>| !is_longest_match(m, id@, k) by {
                    if m.contains_key(k) {
                        let j = choose|j: int| 0 <= j < self.entries@.len() && self.entries@[j].0@ == k;
                        assert(!is_prefix_of(self.entries@[j].0@, id@));
                    }
                }
                None
            },
            Some(b) => {
                let ghost k = self.entries@[b as int].0@;
                proof {
                    self.lemma_view_at(b as int);
                    assert forall|k2: Seq<char>| #[trigger] m.contains_key(k2) && is_prefix_of(k2, id@) implies k2.len() <= k.len() by {
                        let j = choose|j: int| 0 <= j < self.entries@.len() && self.entries@[j].0@ == k2;
                        assert(is_prefix_of(self.entries@[j].0@, id@));
                    }
                    assert(is_longest_match(m, id@, k));
                    let c = choose|c: Seq<char>| is_longest_match(m, id@, c);
                    lemma_longest_match_unique(m, id@, k, c);
                }
                Some(copy_strings(&self.entries[b].1))
            },
        }
    }
}


/// Two longest matches of one identifier are the same key: the lookup
/// cannot depend on the order in which keys are examined.
pub proof fn lemma_longest_match_unique(m: DependencyMap, id: Seq<char>, k1: Seq<char>, k2: Seq<char>)
    requires
        is_longest_match(m, id, k1),
        is_longest_match(m, id, k2),
    ensures
        k1 == k2,
{
    assert(k1.len() == k2.len());
    assert(k1 =~= id.subrange(0, k1.len() as int));
    assert(k2 =~= id.subrange(0, k2.len() as int));
}

/// Looking an identifier up twice in the same graph gives the same
/// dependencies, and a key equal to the identifier is the one used.
pub proof fn lemma_lookup_deterministic(m: DependencyMap, id: Seq<char>)
    ensures
        forall|k: Seq<char>| is_longest_match(m, id, k) ==> deps_lookup(m, id) == Some(m[k]),
        m.contains_key(id) ==> deps_lookup(m, id) == Some(m[id]),
{
    assert forall|k: Seq<char>| is_longest_match(m, id, k) implies deps_lookup(m, id) == Some(m[k]) by {
        let c = choose|c: Seq<char>| is_longest_match(m, id, c);
        lemma_longest_match_unique(m, id, k, c);
    }
    if m.contains_key(id) {
        assert(id.subrange(0, id.len() as int) == id);
        assert(is_longest_match(m, id, id));
    }
}

proof fn lemma_apply_outside(m: DependencyMap, g: Seq<(Seq<char>, Seq<Seq<char>>)>, k: Seq<char>)
    requires
        forall|i: int| 0 <= i < g.len() ==> (#[trigger] g[i]).0 != k,
    ensures
        apply_graph(m, g).contains_key(k) == m.contains_key(k),
        apply_graph(m, g)[k] == m[k],
    decreases g.len(),
{
    if g.len() > 0 {
        assert(g.last() == g[g.len() - 1]);
        lemma_apply_outside(m, g.drop_last(), k);
    }
}

proof fn lemma_apply_inside(m1: DependencyMap, m2: DependencyMap, g: Seq<(Seq<char>, Seq<Seq<char>>)>, i: int)
    requires
        0 <= i < g.len(),
    ensures
        apply_graph(m1, g).contains_key(g[i].0),
        apply_graph(m2, g).contains_key(g[i].0),
        apply_graph(m1, g)[g[i].0] == apply_graph(m2, g)[g[i].0],
    decreases g.len(),
{
    if i < g.len() - 1 && g.last().0 != g[i].0 {
        lemma_apply_inside(m1, m2, g.drop_last(), i);
    }
}

/// Uploading the same graph a second time changes nothing.
pub proof fn lemma_upload_idempotent(m: DependencyMap, g: Seq<(Seq<char>, Seq<Seq<char>>)>)
    ensures
        apply_graph(apply_graph(m, g), g) == apply_graph(m, g),
{
    let once = apply_graph(m, g);
    let twice = apply_graph(once, g);
    assert forall|k: Seq<char>| #[trigger] twice.contains_key(k) == once.contains_key(k)
        && (once.contains_key(k) ==> twice[k] == once[k]) by {
        if exists|i: int| 0 <= i < g.len() && g[i].0 == k {
            let i = choose|i: int| 0 <= i < g.len() && g[i].0 == k;
            lemma_apply_inside(once, m, g, i);
        } else {
            lemma_apply_outside(once, g, k);
        }
    }
    assert(twice =~= once);
}

} // verus!

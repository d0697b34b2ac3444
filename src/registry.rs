use vstd::prelude::*;

use crate::client_status::{ClientStatus, ClientStatusView};
use crate::text::str_eq;

verus! {

/// The sessions by participant identifier, as plain values.
pub type SessionMap = Map<Seq<char>, ClientStatusView>;

/// The live sessions, one per participant identifier; a newer session for an
/// identifier replaces the older one.
pub struct SessionRegistry {
    sessions: Vec<(String, ClientStatus)>,
}

impl SessionRegistry {
    /// Identifiers are unique.
    pub closed spec fn wf(&self) -> bool {
        forall|i: int, j: int|
            0 <= i < j < self.sessions@.len() ==> #[trigger] self.sessions@[i].0@ != #[trigger] self.sessions@[j].0@
    }

    spec fn index_of(&self, k: Seq<char>) -> int {
        choose|i: int| 0 <= i < self.sessions@.len() && self.sessions@[i].0@ == k
    }

    /// The session of each identifier.
    pub closed spec fn view(&self) -> SessionMap {
        Map::new(
            |k: Seq<char>| exists|i: int| 0 <= i < self.sessions@.len() && self.sessions@[i].0@ == k,
            |k: Seq<char>| self.sessions@[self.index_of(k)].1@,
        )
    }

    proof fn lemma_view_at(&self, i: int)
        requires
            self.wf(),
            0 <= i < self.sessions@.len(),
        ensures
            self.view().contains_key(self.sessions@[i].0@),
            self.view()[self.sessions@[i].0@] == self.sessions@[i].1@,
    {
        let k = self.sessions@[i].0@;
        assert(self.view().contains_key(k));
        let j = self.index_of(k);
        assert(0 <= j < self.sessions@.len() && self.sessions@[j].0@ == k);
        if i < j {
            assert(self.sessions@[i].0@ != self.sessions@[j].0@);
        } else if j < i {
            assert(self.sessions@[j].0@ != self.sessions@[i].0@);
        }
    }

    /// A registry without sessions.
    pub fn new() -> (r: Self)
        ensures
            r.wf(),
            r.view() == SessionMap::empty(),
    {
        let r = SessionRegistry { sessions: Vec::new() };
        assert(r.view() =~= SessionMap::empty());
        r
    }

    fn find(&self, id: &str) -> (r: Option<usize>)
        requires
            self.wf(),
        ensures
            match r {
                None => !self.view().contains_key(id@),
                Some(i) => i < self.sessions@.len() && self.sessions@[i as int].0@ == id@,
            },
    {
        let mut i: usize = 0;
        while i < self.sessions.len()
            invariant
                i <= self.sessions@.len(),
                forall|j: int| 0 <= j < i ==> self.sessions@[j].0@ != id@,
            decreases self.sessions.len() - i,
        {
            if str_eq(self.sessions[i].0.as_str(), id) {
                return Some(i);
            }
            i = i + 1;
        }
        None
    }

    /// The session of `id`, if there is one.
    pub fn get(&self, id: &str) -> (r: Option<&ClientStatus>)
        requires
            self.wf(),
        ensures
            match r {
                None => !self.view().contains_key(id@),
                Some(s) => self.view().contains_key(id@) && self.view()[id@] == s@,
            },
    {
        match self.find(id) {
            Some(i) => {
                proof {
                    self.lemma_view_at(i as int);
                }
                Some(&self.sessions[i].1)
            },
            None => None,
        }
    }

    /// Makes `status` the session of `id`, replacing any earlier one.
    pub fn insert(&mut self, id: &str, status: ClientStatus)
        requires
            old(self).wf(),
        ensures
            final(self).wf(),
            final(self).view() == old(self).view().insert(id@, status@),
    {
        let ghost before = self.view();
        let ghost sv = status@;
        let key = id.to_owned();
        match self.find(id) {
            Some(i) => {
                self.sessions[i] = (key, status);
                proof {
                    assert forall|k: Seq<char>| #[trigger] self.view().contains_key(k) == before.insert(id@, sv).contains_key(k) by {
                        if k != id@ && before.contains_key(k) {
                            let j = choose|j: int| 0 <= j < old(self).sessions@.len() && old(self).sessions@[j].0@ == k;
                            assert(self.sessions@[j].0@ == k);
                        }
                        if k != id@ && self.view().contains_key(k) {
                            let j = choose|j: int| 0 <= j < self.sessions@.len() && self.sessions@[j].0@ == k;
                            assert(old(self).sessions@[j].0@ == k);
                        }
                    }
                    assert forall|k: Seq<char>| #[trigger] self.view().contains_key(k) implies self.view()[k] == before.insert(id@, sv)[k] by {
                        let j = choose|j: int| 0 <= j < self.sessions@.len() && self.sessions@[j].0@ == k;
                        self.lemma_view_at(j);
                        if j != i {
                            old(self).lemma_view_at(j);
                        }
                    }
                    assert(self.view() =~= before.insert(id@, sv));
                }
            },
            None => {
                self.sessions.push((key, status));
                proof {
                    let n = self.sessions@.len() - 1;
                    assert forall|k: Seq<char>| #[trigger] self.view().contains_key(k) == before.insert(id@, sv).contains_key(k) by {
                        if k != id@ && before.contains_key(k) {
                            let j = choose|j: int| 0 <= j < old(self).sessions@.len() && old(self).sessions@[j].0@ == k;
                            assert(self.sessions@[j].0@ == k);
                        }
                        if k != id@ && self.view().contains_key(k) {
                            let j = choose|j: int| 0 <= j < self.sessions@.len() && self.sessions@[j].0@ == k;
                            assert(old(self).sessions@[j].0@ == k);
                        }
                        if k == id@ {
                            assert(self.sessions@[n].0@ == k);
                        }
                    }
                    assert forall|k: Seq<char>| #[trigger] self.view().contains_key(k) implies self.view()[k] == before.insert(id@, sv)[k] by {
                        let j = choose|j: int| 0 <= j < self.sessions@.len() && self.sessions@[j].0@ == k;
                        self.lemma_view_at(j);
                        if j != n {
                            old(self).lemma_view_at(j);
                        }
                    }
                    assert(self.view() =~= before.insert(id@, sv));
                }
            },
        }
    }
}

} // verus!

//! The table of live sessions, keyed by session name.

use vstd::prelude::*;

verus! {

/// No two entries share a name.
pub open spec fn names_distinct<T>(s: Seq<(String, T)>) -> bool {
    forall|i: int, j: int| 0 <= i < j < s.len() ==> (#[trigger] s[i]).0@ != (#[trigger] s[j]).0@
}

/// The map from name to entry that a list of entries stands for.
pub open spec fn entries_map<T>(s: Seq<(String, T)>) -> Map<Seq<char>, T>
    decreases s.len(),
{
    if s.len() == 0 {
        Map::empty()
    } else {
        entries_map(s.drop_last()).insert(s.last().0@, s.last().1)
    }
}

proof fn lemma_entries_dom<T>(s: Seq<(String, T)>, k: Seq<char>)
    ensures
        entries_map(s).dom().contains(k) <==> exists|i: int| 0 <= i < s.len() && (#[trigger] s[i]).0@ == k,
    decreases s.len(),
{
    if s.len() > 0 {
        let d = s.drop_last();
        lemma_entries_dom(d, k);
        if entries_map(s).dom().contains(k) {
            if k == s.last().0@ {
                assert(s[s.len() - 1].0@ == k);
            } else {
                let i = choose|i: int| 0 <= i < d.len() && (#[trigger] d[i]).0@ == k;
                assert(s[i] == d[i]);
            }
        }
        if exists|i: int| 0 <= i < s.len() && (#[trigger] s[i]).0@ == k {
            let i = choose|i: int| 0 <= i < s.len() && (#[trigger] s[i]).0@ == k;
            if i < s.len() - 1 {
                assert(d[i] == s[i]);
            }
        }
    }
}

proof fn lemma_entries_value<T>(s: Seq<(String, T)>, i: int)
    requires
        names_distinct(s),
        0 <= i < s.len(),
    ensures
        entries_map(s).dom().contains(s[i].0@),
        entries_map(s)[s[i].0@] == s[i].1,
    decreases s.len(),
{
    let d = s.drop_last();
    if i < s.len() - 1 {
        assert(d[i] == s[i]);
        assert(names_distinct(d));
        lemma_entries_value(d, i);
        assert(s[i].0@ != s[s.len() - 1].0@);
    }
}

proof fn lemma_entries_update<T>(s: Seq<(String, T)>, i: int, e: (String, T))
    requires
        names_distinct(s),
        0 <= i < s.len(),
        e.0@ == s[i].0@,
    ensures
        entries_map(s.update(i, e)) =~= entries_map(s).insert(e.0@, e.1),
        names_distinct(s.update(i, e)),
    decreases s.len(),
{
    let d = s.drop_last();
    let u = s.update(i, e);
    assert forall|a: int, b: int| 0 <= a < b < u.len() implies (#[trigger] u[a]).0@ != (#[trigger] u[b]).0@ by {
        assert(s[a].0@ != s[b].0@);
    }
    if i == s.len() - 1 {
        assert(u.drop_last() =~= d);
    } else {
        assert(u.drop_last() =~= d.update(i, e));
        assert(names_distinct(d));
        lemma_entries_update(d, i, e);
        assert(s[i].0@ != s[s.len() - 1].0@);
    }
}

proof fn lemma_entries_remove<T>(s: Seq<(String, T)>, i: int)
    requires
        names_distinct(s),
        0 <= i < s.len(),
    ensures
        entries_map(s.remove(i)) =~= entries_map(s).remove(s[i].0@),
        names_distinct(s.remove(i)),
    decreases s.len(),
{
    let d = s.drop_last();
    let r = s.remove(i);
    let k = s[i].0@;
    assert forall|a: int, b: int| 0 <= a < b < r.len() implies (#[trigger] r[a]).0@ != (#[trigger] r[b]).0@ by {
        let a2 = if a < i { a } else { a + 1 };
        let b2 = if b < i { b } else { b + 1 };
        assert(r[a] == s[a2]);
        assert(r[b] == s[b2]);
        assert(s[a2].0@ != s[b2].0@);
    }
    assert(names_distinct(d));
    if i == s.len() - 1 {
        assert(r =~= d);
        lemma_entries_dom(d, k);
        assert(!entries_map(d).dom().contains(k)) by {
            if entries_map(d).dom().contains(k) {
                let j = choose|j: int| 0 <= j < d.len() && (#[trigger] d[j]).0@ == k;
                assert(s[j].0@ == k);
            }
        }
    } else {
        assert(r.drop_last() =~= d.remove(i));
        assert(r.last() == s.last());
        lemma_entries_remove(d, i);
        assert(d[i] == s[i]);
        assert(s[i].0@ != s[s.len() - 1].0@);
    }
}

/// Live sessions by name (at most one entry per name).
pub struct SessionTable<T> {
    entries: Vec<(String, T)>,
}

impl<T> SessionTable<T> {
    #[verifier::type_invariant]
    spec fn inv(self) -> bool {
        names_distinct(self.entries@)
    }

    /// The sessions, by name.
    pub closed spec fn sessions(&self) -> Map<Seq<char>, T> {
        entries_map(self.entries@)
    }

    /// An empty table.
    pub fn new() -> (t: Self)
        ensures
            t.sessions() == Map::<Seq<char>, T>::empty(),
    {
        SessionTable { entries: Vec::new() }
    }

    fn position(&self, name: &str) -> (r: Option<usize>)
        ensures
            match r {
                Some(i) => i < self.entries@.len() && self.entries@[i as int].0@ == name@,
                None => forall|j: int| 0 <= j < self.entries@.len() ==> (#[trigger] self.entries@[j]).0@
                    != name@,
            },
    {
        let wanted = name.to_owned();
        let mut i: usize = 0;
        while i < self.entries.len()
            invariant
                i <= self.entries@.len(),
                wanted@ == name@,
                forall|j: int| 0 <= j < i ==> (#[trigger] self.entries@[j]).0@ != name@,
            decreases self.entries@.len() - i,
        {
            if self.entries[i].0 == wanted {
                return Some(i);
            }
            i = i + 1;
        }
        None
    }

    /// The entry of a session, when there is one.
    pub fn get(&self, name: &str) -> (r: Option<&T>)
        ensures
            match r {
                Some(e) => self.sessions().contains_key(name@) && *e == self.sessions()[name@],
                None => !self.sessions().contains_key(name@),
            },
    {
        proof {
            use_type_invariant(self);
        }
        match self.position(name) {
            Some(i) => {
                proof {
                    lemma_entries_value(self.entries@, i as int);
                }
                Some(&self.entries[i].1)
            },
            None => {
                proof {
                    lemma_entries_dom(self.entries@, name@);
                }
                None
            },
        }
    }

    /// The names of all sessions, each once, in no particular order.
    pub fn names(&self) -> (r: Vec<String>)
        ensures
            forall|i: int| 0 <= i < r@.len() ==> self.sessions().contains_key(#[trigger] r@[i]@),
            forall|k: Seq<char>| self.sessions().contains_key(k) ==> exists|i: int| 0 <= i < r@.len() && (#[trigger] r@[i])@ == k,
            forall|i: int, j: int| 0 <= i < j < r@.len() ==> (#[trigger] r@[i])@ != (#[trigger] r@[j])@,
    {
        proof {
            use_type_invariant(self);
        }
        let mut r: Vec<String> = Vec::new();
        let mut i: usize = 0;
        while i < self.entries.len()
            invariant
                i <= self.entries@.len(),
                names_distinct(self.entries@),
                r@.len() == i,
                forall|j: int| 0 <= j < i ==> (#[trigger] r@[j])@ == self.entries@[j].0@,
            decreases self.entries@.len() - i,
        {
            r.push(self.entries[i].0.clone());
            i = i + 1;
        }
        proof {
            assert forall|j: int| 0 <= j < r@.len() implies self.sessions().contains_key(#[trigger] r@[j]@) by {
                lemma_entries_value(self.entries@, j);
            }
            assert forall|k: Seq<char>| self.sessions().contains_key(k) implies exists|j: int|
                0 <= j < r@.len() && (#[trigger] r@[j])@ == k by {
                lemma_entries_dom(self.entries@, k);
                let j = choose|j: int| 0 <= j < self.entries@.len() && (#[trigger] self.entries@[j]).0@ == k;
                assert(r@[j]@ == k);
            }
            assert forall|a: int, b: int| 0 <= a < b < r@.len() implies (#[trigger] r@[a])@ != (#[trigger] r@[b])@ by {
                assert(self.entries@[a].0@ != self.entries@[b].0@);
            }
        }
        r
    }

    /// Puts an entry under a name, replacing the one there was.
    pub fn insert(&mut self, name: String, entry: T)
        ensures
            final(self).sessions() == old(self).sessions().insert(name@, entry),
    {
        proof {
            use_type_invariant(&*self);
        }
        let pos = self.position(name.as_str());
        let mut entries: Vec<(String, T)> = Vec::new();
        std::mem::swap(&mut entries, &mut self.entries);
        let ghost old_entries = entries@;
        match pos {
            Some(i) => {
                proof {
                    lemma_entries_update(entries@, i as int, (name, entry));
                }
                entries.set(i, (name, entry));
            },
            None => {
                entries.push((name, entry));
                proof {
                    assert(entries@.drop_last() =~= old_entries);
                    assert forall|a: int, b: int| 0 <= a < b < entries@.len() implies (
                    #[trigger] entries@[a]).0@ != (#[trigger] entries@[b]).0@ by {
                        if b < old_entries.len() {
                            assert(old_entries[a].0@ != old_entries[b].0@);
                        } else {
                            assert(entries@[a] == old_entries[a]);
                        }
                    }
                }
            },
        }
        self.entries = entries;
    }

    /// Removes the entry under a name and hands it back.
    pub fn remove(&mut self, name: &str) -> (r: Option<T>)
        ensures
            final(self).sessions() == old(self).sessions().remove(name@),
            match r {
                Some(e) => old(self).sessions().contains_key(name@) && e == old(self).sessions()[name@],
                None => !old(self).sessions().contains_key(name@),
            },
    {
        proof {
            use_type_invariant(&*self);
        }
        match self.position(name) {
            Some(i) => {
                proof {
                    lemma_entries_remove(self.entries@, i as int);
                    lemma_entries_value(self.entries@, i as int);
                }
                let mut entries: Vec<(String, T)> = Vec::new();
                std::mem::swap(&mut entries, &mut self.entries);
                let (_, e) = entries.remove(i);
                self.entries = entries;
                Some(e)
            },
            None => {
                proof {
                    lemma_entries_dom(self.entries@, name@);
                    assert(old(self).sessions().remove(name@) =~= old(self).sessions());
                }
                None
            },
        }
    }
}

} // verus!

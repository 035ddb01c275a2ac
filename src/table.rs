use vstd::prelude::*;

verus! {

/// A table of values keyed by name, each name present once.
pub struct Table<V> {
    entries: Vec<(String, V)>,
}

/// The map that a list of entries with distinct names stands for.
pub open spec fn entries_map<V>(s: Seq<(String, V)>) -> Map<Seq<char>, V>
    decreases s.len(),
{
    if s.len() == 0 {
        Map::empty()
    } else {
        entries_map(s.drop_last()).insert(s.last().0@, s.last().1)
    }
}

/// No name occurs twice.
pub open spec fn names_distinct<V>(s: Seq<(String, V)>) -> bool {
    forall|i: int, j: int| 0 <= i < j < s.len() ==> #[trigger] s[i].0@ != #[trigger] s[j].0@
}

proof fn lemma_map_dom<V>(s: Seq<(String, V)>, k: Seq<char>)
    ensures
        entries_map(s).contains_key(k) <==> exists|i: int| 0 <= i < s.len() && #[trigger] s[i].0@ == k,
    decreases s.len(),
{
    if s.len() > 0 {
        lemma_map_dom(s.drop_last(), k);
        if exists|i: int| 0 <= i < s.len() && #[trigger] s[i].0@ == k {
            let i = choose|i: int| 0 <= i < s.len() && #[trigger] s[i].0@ == k;
            if i < s.len() - 1 {
                assert(s.drop_last()[i].0@ == k);
            }
        }
        if exists|i: int| 0 <= i < s.len() - 1 && #[trigger] s.drop_last()[i].0@ == k {
            let i = choose|i: int| 0 <= i < s.len() - 1 && #[trigger] s.drop_last()[i].0@ == k;
            assert(s[i].0@ == k);
        }
    }
}

proof fn lemma_map_at<V>(s: Seq<(String, V)>, i: int)
    requires
        names_distinct(s),
        0 <= i < s.len(),
    ensures
        entries_map(s).contains_key(s[i].0@),
        entries_map(s)[s[i].0@] == s[i].1,
    decreases s.len(),
{
    if i < s.len() - 1 {
        lemma_map_at(s.drop_last(), i);
        assert(s[i].0@ != s[s.len() - 1].0@);
    }
}

proof fn lemma_map_update<V>(s: Seq<(String, V)>, i: int, e: (String, V))
    requires
        names_distinct(s),
        0 <= i < s.len(),
        e.0@ == s[i].0@,
    ensures
        entries_map(s.update(i, e)) =~= entries_map(s).insert(e.0@, e.1),
    decreases s.len(),
{
    if i == s.len() - 1 {
        assert(s.update(i, e).drop_last() =~= s.drop_last());
    } else {
        assert(s.update(i, e).drop_last() =~= s.drop_last().update(i, e));
        lemma_map_update(s.drop_last(), i, e);
        assert(s[i].0@ != s[s.len() - 1].0@);
    }
}

proof fn lemma_map_remove<V>(s: Seq<(String, V)>, i: int)
    requires
        names_distinct(s),
        0 <= i < s.len(),
    ensures
        entries_map(s.remove(i)) =~= entries_map(s).remove(s[i].0@),
    decreases s.len(),
{
    let k = s[i].0@;
    if i == s.len() - 1 {
        assert(s.remove(i) =~= s.drop_last());
        if entries_map(s.drop_last()).contains_key(k) {
            lemma_map_dom(s.drop_last(), k);
            let j = choose|j: int| 0 <= j < s.len() - 1 && #[trigger] s.drop_last()[j].0@ == k;
            assert(s[j].0@ == k);
        }
    } else {
        assert(s.remove(i).drop_last() =~= s.drop_last().remove(i));
        assert(s.remove(i).last() == s.last());
        lemma_map_remove(s.drop_last(), i);
        assert(s[i].0@ != s[s.len() - 1].0@);
    }
}

impl<V> View for Table<V> {
    type V = Map<Seq<char>, V>;

    closed spec fn view(&self) -> Map<Seq<char>, V> {
        entries_map(self.entries@)
    }
}

impl<V> Table<V> {
    /// Names are distinct.
    pub closed spec fn wf(&self) -> bool {
        names_distinct(self.entries@)
    }

    /// An empty table.
    pub fn new() -> (t: Table<V>)
        ensures
            t.wf(),
            t@ == Map::<Seq<char>, V>::empty(),
    {
        Table { entries: Vec::new() }
    }

    fn position(&self, name: &String) -> (r: Option<usize>)
        ensures
            match r {
                Some(i) => i < self.entries@.len() && self.entries@[i as int].0@ == name@,
                None => forall|i: int| 0 <= i < self.entries@.len() ==> #[trigger] self.entries@[i].0@ != name@,
            },
    {
        let mut i: usize = 0;
        while i < self.entries.len()
            invariant
                i <= self.entries@.len(),
                forall|j: int| 0 <= j < i ==> #[trigger] self.entries@[j].0@ != name@,
            decreases self.entries@.len() - i,
        {
            if self.entries[i].0 == *name {
                return Some(i);
            }
            i = i + 1;
        }
        None
    }

    /// Number of names in the table.
    pub fn len(&self) -> (n: usize)
        requires
            self.wf(),
        ensures
            n == self@.len(),
    {
        proof {
            self.lemma_len();
        }
        self.entries.len()
    }

    proof fn lemma_len(&self)
        requires
            self.wf(),
        ensures
            self@.len() == self.entries@.len(),
            self@.dom().finite(),
    {
        lemma_len_distinct(self.entries@);
    }

    /// Sets the value of `name`, returning the value it replaced.
    pub fn insert(&mut self, name: String, value: V) -> (r: Option<V>)
        requires
            old(self).wf(),
        ensures
            final(self).wf(),
            final(self)@ == old(self)@.insert(name@, value),
            r == (if old(self)@.contains_key(name@) {
                Some(old(self)@[name@])
            } else {
                None
            }),
    {
        let ghost s = self.entries@;
        match self.position(&name) {
            Some(i) => {
                proof {
                    lemma_map_at(s, i as int);
                    lemma_map_update(s, i as int, (name, value));
                }
                let (_, old_value) = self.entries.remove(i);
                self.entries.insert(i, (name, value));
                proof {
                    assert(self.entries@ =~= s.update(i as int, (name, value)));
                    assert forall|a: int, b: int| 0 <= a < b < self.entries@.len() implies #[trigger] self.entries@[a].0@
                        != #[trigger] self.entries@[b].0@ by {
                        assert(s[a].0@ != s[b].0@);
                    }
                }
                Some(old_value)
            },
            None => {
                proof {
                    if entries_map(s).contains_key(name@) {
                        lemma_map_dom(s, name@);
                        let j = choose|j: int| 0 <= j < s.len() && #[trigger] s[j].0@ == name@;
                    }
                }
                self.entries.push((name, value));
                proof {
                    assert(self.entries@.drop_last() =~= s);
                }
                None
            },
        }
    }

    /// Removes `name`, returning its value.
    pub fn remove(&mut self, name: &String) -> (r: Option<V>)
        requires
            old(self).wf(),
        ensures
            final(self).wf(),
            final(self)@ == old(self)@.remove(name@),
            r == (if old(self)@.contains_key(name@) {
                Some(old(self)@[name@])
            } else {
                None
            }),
    {
        let ghost s = self.entries@;
        match self.position(name) {
            Some(i) => {
                proof {
                    lemma_map_at(s, i as int);
                    lemma_map_remove(s, i as int);
                }
                let (_, v) = self.entries.remove(i);
                proof {
                    assert forall|a: int, b: int| 0 <= a < b < self.entries@.len() implies #[trigger] self.entries@[a].0@
                        != #[trigger] self.entries@[b].0@ by {
                        let a2 = if a < i { a } else { a + 1 };
                        let b2 = if b < i { b } else { b + 1 };
                        assert(self.entries@[a] == s[a2]);
                        assert(self.entries@[b] == s[b2]);
                        assert(s[a2].0@ != s[b2].0@);
                    }
                }
                Some(v)
            },
            None => {
                proof {
                    if entries_map(s).contains_key(name@) {
                        lemma_map_dom(s, name@);
                        let j = choose|j: int| 0 <= j < s.len() && #[trigger] s[j].0@ == name@;
                    }
                    assert(entries_map(s).remove(name@) =~= entries_map(s));
                }
                None
            },
        }
    }

    /// The value of `name`.
    pub fn get(&self, name: &String) -> (r: Option<&V>)
        requires
            self.wf(),
        ensures
            match r {
                Some(v) => self@.contains_key(name@) && *v == self@[name@],
                None => !self@.contains_key(name@),
            },
    {
        let ghost s = self.entries@;
        match self.position(name) {
            Some(i) => {
                proof {
                    lemma_map_at(s, i as int);
                }
                Some(&self.entries[i].1)
            },
            None => {
                proof {
                    if entries_map(s).contains_key(name@) {
                        lemma_map_dom(s, name@);
                        let j = choose|j: int| 0 <= j < s.len() && #[trigger] s[j].0@ == name@;
                    }
                }
                None
            },
        }
    }

    /// Whether `name` is in the table.
    pub fn contains(&self, name: &String) -> (r: bool)
        requires
            self.wf(),
        ensures
            r == self@.contains_key(name@),
    {
        let ghost s = self.entries@;
        match self.position(name) {
            Some(i) => {
                proof {
                    lemma_map_at(s, i as int);
                }
                true
            },
            None => {
                proof {
                    if entries_map(s).contains_key(name@) {
                        lemma_map_dom(s, name@);
                        let j = choose|j: int| 0 <= j < s.len() && #[trigger] s[j].0@ == name@;
                    }
                }
                false
            },
        }
    }
}

proof fn lemma_len_distinct<V>(s: Seq<(String, V)>)
    requires
        names_distinct(s),
    ensures
        entries_map(s).len() == s.len(),
        entries_map(s).dom().finite(),
    decreases s.len(),
{
    if s.len() > 0 {
        let p = s.drop_last();
        assert(names_distinct(p)) by {
            assert forall|i: int, j: int| 0 <= i < j < p.len() implies #[trigger] p[i].0@ != #[trigger] p[j].0@ by {
                assert(s[i].0@ != s[j].0@);
            }
        }
        lemma_len_distinct(p);
        if entries_map(p).contains_key(s.last().0@) {
            lemma_map_dom(p, s.last().0@);
            let j = choose|j: int| 0 <= j < p.len() && #[trigger] p[j].0@ == s.last().0@;
            assert(s[j].0@ != s[s.len() - 1].0@);
        }
    }
}

} // verus!

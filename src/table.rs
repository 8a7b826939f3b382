use vstd::prelude::*;

verus! {

/// A string-keyed table as a sequence of pairs, later pairs overriding earlier ones.
pub open spec fn map_of(s: Seq<(Seq<char>, Seq<char>)>) -> Map<Seq<char>, Seq<char>>
    decreases s.len(),
{
    if s.len() == 0 {
        Map::empty()
    } else {
        map_of(s.drop_last()).insert(s.last().0, s.last().1)
    }
}

/// The views of pairs of strings.
pub open spec fn pairs_view(v: Seq<(String, String)>) -> Seq<(Seq<char>, Seq<char>)> {
    v.map_values(|e: (String, String)| (e.0@, e.1@))
}

/// No key occurs twice.
pub open spec fn keys_unique(s: Seq<(Seq<char>, Seq<char>)>) -> bool {
    forall|i: int, j: int| 0 <= i < j < s.len() ==> s[i].0 != s[j].0
}

proof fn lemma_map_of_absent(s: Seq<(Seq<char>, Seq<char>)>, k: Seq<char>)
    requires
        forall|i: int| 0 <= i < s.len() ==> (#[trigger] s[i]).0 != k,
    ensures
        !map_of(s).contains_key(k),
    decreases s.len(),
{
    if s.len() > 0 {
        lemma_map_of_absent(s.drop_last(), k);
    }
}

proof fn lemma_map_of_index(s: Seq<(Seq<char>, Seq<char>)>, i: int)
    requires
        keys_unique(s),
        0 <= i < s.len(),
    ensures
        map_of(s).contains_key(s[i].0),
        map_of(s)[s[i].0] == s[i].1,
    decreases s.len(),
{
    if i < s.len() - 1 {
        lemma_map_of_index(s.drop_last(), i);
    }
}

proof fn lemma_map_of_update(s: Seq<(Seq<char>, Seq<char>)>, i: int, v: Seq<char>)
    requires
        keys_unique(s),
        0 <= i < s.len(),
    ensures
        map_of(s.update(i, (s[i].0, v))) == map_of(s).insert(s[i].0, v),
    decreases s.len(),
{
    let t = s.update(i, (s[i].0, v));
    if i == s.len() - 1 {
        assert(t.drop_last() =~= s.drop_last());
    } else {
        lemma_map_of_update(s.drop_last(), i, v);
        assert(t.drop_last() =~= s.drop_last().update(i, (s[i].0, v)));
        assert(map_of(t) =~= map_of(s).insert(s[i].0, v));
    }
}

proof fn lemma_map_of_remove(s: Seq<(Seq<char>, Seq<char>)>, i: int)
    requires
        keys_unique(s),
        0 <= i < s.len(),
    ensures
        map_of(s.remove(i)) == map_of(s).remove(s[i].0),
    decreases s.len(),
{
    let t = s.remove(i);
    if i == s.len() - 1 {
        assert(t =~= s.drop_last());
        assert forall|j: int| 0 <= j < t.len() implies (#[trigger] t[j]).0 != s[i].0 by {
            assert(t[j] == s[j]);
        }
        lemma_map_of_absent(t, s[i].0);
        assert(map_of(t) =~= map_of(s).remove(s[i].0));
    } else {
        lemma_map_of_remove(s.drop_last(), i);
        assert(t.drop_last() =~= s.drop_last().remove(i));
        assert(map_of(t) =~= map_of(s).remove(s[i].0));
    }
}

/// A table from names to strings with unique names.
#[derive(Debug, Clone)]
pub struct Table {
    entries: Vec<(String, String)>,
}

impl View for Table {
    type V = Map<Seq<char>, Seq<char>>;

    /// What the table maps each name to.
    open spec fn view(&self) -> Map<Seq<char>, Seq<char>> {
        map_of(self.pairs())
    }
}

impl Table {
    /// The pairs, in the order they were first inserted.
    pub closed spec fn pairs(&self) -> Seq<(Seq<char>, Seq<char>)> {
        pairs_view(self.entries@)
    }

    pub open spec fn wf(&self) -> bool {
        keys_unique(self.pairs())
    }

    pub fn new() -> (r: Table)
        ensures
            r.wf(),
            r.view() == Map::<Seq<char>, Seq<char>>::empty(),
    {
        let r = Table { entries: Vec::new() };
        assert(r.pairs() =~= Seq::<(Seq<char>, Seq<char>)>::empty());
        r
    }

    /// The number of names in the table.
    pub fn len(&self) -> (r: usize)
        requires
            self.wf(),
        ensures
            r == self.view().len(),
    {
        proof {
            self.lemma_len();
        }
        self.entries.len()
    }

    pub proof fn lemma_len(&self)
        requires
            self.wf(),
        ensures
            self.view().dom().finite(),
            self.view().len() == self.pairs().len(),
    {
        lemma_map_of_len(self.pairs());
    }

    /// Whether the table is empty.
    pub fn is_empty(&self) -> (r: bool)
        requires
            self.wf(),
        ensures
            r == (self.view().len() == 0),
    {
        self.len() == 0
    }

    /// The name and value of the `i`-th pair.
    pub fn entry(&self, i: usize) -> (r: (&String, &String))
        requires
            i < self.pairs().len(),
        ensures
            r.0@ == self.pairs()[i as int].0,
            r.1@ == self.pairs()[i as int].1,
    {
        (&self.entries[i].0, &self.entries[i].1)
    }

    /// The number of pairs.
    pub fn size(&self) -> (r: usize)
        ensures
            r == self.pairs().len(),
    {
        self.entries.len()
    }

    /// The pairs, in order, to be written out.
    pub fn to_pairs(&self) -> (r: Vec<(String, String)>)
        ensures
            pairs_view(r@) == self.pairs(),
    {
        let mut r: Vec<(String, String)> = Vec::new();
        let mut i: usize = 0;
        while i < self.entries.len()
            invariant
                0 <= i <= self.entries.len(),
                r.len() == i,
                self.pairs().len() == self.entries.len(),
                pairs_view(r@) == self.pairs().take(i as int),
            decreases self.entries.len() - i,
        {
            let ghost before = r@;
            let (k, x) = &self.entries[i];
            let k2 = k.clone();
            let x2 = x.clone();
            r.push((k2, x2));
            proof {
                assert(pairs_view(r@)[i as int] == self.pairs()[i as int]);
                assert forall|j: int| 0 <= j < i implies pairs_view(r@)[j] == pairs_view(before)[j] by {
                    assert(r@[j] == before[j]);
                }
                assert(pairs_view(r@) =~= self.pairs().take(i + 1));
            }
            i = i + 1;
        }
        assert(self.pairs().take(self.entries.len() as int) =~= self.pairs());
        r
    }

    /// The table holding these pairs, a later pair of a name overriding an earlier one.
    pub fn from_pairs(v: &Vec<(String, String)>) -> (r: Table)
        ensures
            r.wf(),
            r@ == map_of(pairs_view(v@)),
    {
        let mut t = Table::new();
        let mut i: usize = 0;
        while i < v.len()
            invariant
                0 <= i <= v.len(),
                t.wf(),
                t@ == map_of(pairs_view(v@).take(i as int)),
            decreases v.len() - i,
        {
            let (k, x) = &v[i];
            t.insert(k.clone(), x.clone());
            proof {
                let p = pairs_view(v@);
                assert(p.take(i + 1).drop_last() =~= p.take(i as int));
            }
            i = i + 1;
        }
        assert(pairs_view(v@).take(v.len() as int) =~= pairs_view(v@));
        t
    }

    fn find(&self, name: &String) -> (r: Option<usize>)
        ensures
            r matches Some(i) ==> i < self.pairs().len() && self.pairs()[i as int].0 == name@,
            r is None ==> forall|i: int|
                0 <= i < self.pairs().len() ==> (#[trigger] self.pairs()[i]).0 != name@,
    {
        let mut i: usize = 0;
        while i < self.entries.len()
            invariant
                0 <= i <= self.entries.len(),
                self.pairs().len() == self.entries.len(),
                forall|j: int| 0 <= j < i ==> (#[trigger] self.pairs()[j]).0 != name@,
            decreases self.entries.len() - i,
        {
            if self.entries[i].0 == *name {
                return Some(i);
            }
            i = i + 1;
        }
        None
    }

    /// The value of `name`, if the table holds it.
    pub fn get(&self, name: &String) -> (r: Option<&String>)
        requires
            self.wf(),
        ensures
            r is Some <==> self.view().contains_key(name@),
            r matches Some(v) ==> v@ == self.view()[name@],
    {
        match self.find(name) {
            Some(i) => {
                proof {
                    lemma_map_of_index(self.pairs(), i as int);
                }
                Some(&self.entries[i].1)
            },
            None => {
                proof {
                    lemma_map_of_absent(self.pairs(), name@);
                }
                None
            },
        }
    }

    /// Whether the table holds `name`.
    pub fn contains(&self, name: &String) -> (r: bool)
        requires
            self.wf(),
        ensures
            r == self.view().contains_key(name@),
    {
        self.get(name).is_some()
    }

    /// Sets the value of `name`, adding it when absent.
    pub fn insert(&mut self, name: String, value: String)
        requires
            old(self).wf(),
        ensures
            final(self).wf(),
            final(self).view() == old(self).view().insert(name@, value@),
    {
        match self.find(&name) {
            Some(i) => {
                let ghost s = self.pairs();
                self.entries.set(i, (name, value));
                proof {
                    assert(self.pairs() =~= s.update(i as int, (s[i as int].0, value@)));
                    lemma_map_of_update(s, i as int, value@);
                }
            },
            None => {
                let ghost s = self.pairs();
                let ghost k = name@;
                let ghost v = value@;
                self.entries.push((name, value));
                proof {
                    assert(self.pairs() =~= s.push((k, v)));
                    assert(self.pairs().drop_last() =~= s);
                }
            },
        }
    }

    /// Removes `name`; returns whether it was there.
    pub fn remove(&mut self, name: &String) -> (r: bool)
        requires
            old(self).wf(),
        ensures
            final(self).wf(),
            r == old(self).view().contains_key(name@),
            final(self).view() == old(self).view().remove(name@),
    {
        match self.find(name) {
            Some(i) => {
                let ghost s = self.pairs();
                proof {
                    lemma_map_of_index(s, i as int);
                }
                self.entries.remove(i);
                proof {
                    assert(self.pairs() =~= s.remove(i as int));
                    lemma_map_of_remove(s, i as int);
                }
                true
            },
            None => {
                proof {
                    lemma_map_of_absent(self.pairs(), name@);
                    assert(self.view() =~= self.view().remove(name@));
                }
                false
            },
        }
    }
}

/// Writing a table out as its pairs and rebuilding it from them gives back the same table.
pub proof fn lemma_pairs_round_trip(t: Table, written: Seq<(String, String)>, reloaded: Table)
    requires
        t.wf(),
        pairs_view(written) == t.pairs(),
        reloaded@ == map_of(pairs_view(written)),
    ensures
        reloaded@ == t@,
{
}

proof fn lemma_map_of_len(s: Seq<(Seq<char>, Seq<char>)>)
    requires
        keys_unique(s),
    ensures
        map_of(s).dom().finite(),
        map_of(s).len() == s.len(),
    decreases s.len(),
{
    if s.len() > 0 {
        let t = s.drop_last();
        lemma_map_of_len(t);
        assert forall|i: int| 0 <= i < t.len() implies (#[trigger] t[i]).0 != s.last().0 by {
            assert(t[i] == s[i]);
        }
        lemma_map_of_absent(t, s.last().0);
    }
}

} // verus!

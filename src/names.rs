//! Finite maps keyed by names, stored as lists of entries with distinct names.
use vstd::prelude::*;

verus! {

/// The map that a list of `(name, value)` entries denotes; a later entry for a
/// name overrides an earlier one.
pub open spec fn pairs_map<V>(s: Seq<(Seq<char>, V)>) -> Map<Seq<char>, V>
    decreases s.len(),
{
    if s.len() == 0 {
        Map::empty()
    } else {
        pairs_map(s.drop_last()).insert(s.last().0, s.last().1)
    }
}

/// No two entries share a name.
pub open spec fn distinct_names<V>(s: Seq<(Seq<char>, V)>) -> bool {
    forall|i: int, j: int| 0 <= i < j < s.len() ==> s[i].0 != s[j].0
}

pub proof fn lemma_pairs_map_dom<V>(s: Seq<(Seq<char>, V)>, k: Seq<char>)
    ensures
        pairs_map(s).dom().contains(k) <==> exists|j: int| 0 <= j < s.len() && s[j].0 == k,
    decreases s.len(),
{
    if s.len() > 0 {
        lemma_pairs_map_dom(s.drop_last(), k);
        if pairs_map(s.drop_last()).dom().contains(k) {
            let j = choose|j: int| 0 <= j < s.drop_last().len() && s.drop_last()[j].0 == k;
            assert(s[j].0 == k);
        }
        if exists|j: int| 0 <= j < s.len() && s[j].0 == k {
            let j = choose|j: int| 0 <= j < s.len() && s[j].0 == k;
            if j < s.len() - 1 {
                assert(s.drop_last()[j].0 == k);
            }
        }
    }
}

pub proof fn lemma_pairs_map_index<V>(s: Seq<(Seq<char>, V)>, j: int)
    requires
        distinct_names(s),
        0 <= j < s.len(),
    ensures
        pairs_map(s).dom().contains(s[j].0),
        pairs_map(s)[s[j].0] == s[j].1,
    decreases s.len(),
{
    if j < s.len() - 1 {
        lemma_pairs_map_index(s.drop_last(), j);
        assert(s[j].0 != s.last().0);
    }
}

pub proof fn lemma_pairs_map_update<V>(s: Seq<(Seq<char>, V)>, i: int, v: V)
    requires
        distinct_names(s),
        0 <= i < s.len(),
    ensures
        pairs_map(s.update(i, (s[i].0, v))) =~= pairs_map(s).insert(s[i].0, v),
        distinct_names(s.update(i, (s[i].0, v))),
    decreases s.len(),
{
    let t = s.update(i, (s[i].0, v));
    if i == s.len() - 1 {
        assert(t.drop_last() =~= s.drop_last());
    } else {
        assert(t.drop_last() =~= s.drop_last().update(i, (s[i].0, v)));
        lemma_pairs_map_update(s.drop_last(), i, v);
        assert(s[i].0 != s.last().0);
    }
}

pub proof fn lemma_pairs_map_push<V>(s: Seq<(Seq<char>, V)>, k: Seq<char>, v: V)
    requires
        distinct_names(s),
        !pairs_map(s).dom().contains(k),
    ensures
        pairs_map(s.push((k, v))) == pairs_map(s).insert(k, v),
        distinct_names(s.push((k, v))),
{
    assert(s.push((k, v)).drop_last() =~= s);
    assert forall|j: int| 0 <= j < s.len() implies s[j].0 != k by {
        lemma_pairs_map_dom(s, k);
    }
}

/// The entries of a table, with names as character sequences.
pub open spec fn entry_seq<V>(s: Seq<(String, V)>) -> Seq<(Seq<char>, V)> {
    s.map_values(|e: (String, V)| (e.0@, e.1))
}

/// A finite map from names to values.
#[derive(Debug)]
pub struct Table<V> {
    entries: Vec<(String, V)>,
}

impl<V> View for Table<V> {
    type V = Map<Seq<char>, V>;

    closed spec fn view(&self) -> Map<Seq<char>, V> {
        pairs_map(entry_seq(self.entries@))
    }
}

impl<V> Table<V> {
    pub closed spec fn wf(&self) -> bool {
        distinct_names(entry_seq(self.entries@))
    }

    pub fn new() -> (r: Table<V>)
        ensures
            r.wf(),
            r@ == Map::<Seq<char>, V>::empty(),
    {
        let r = Table { entries: Vec::new() };
        assert(entry_seq(r.entries@) =~= Seq::<(Seq<char>, V)>::empty());
        r
    }

    fn find(&self, name: &String) -> (r: Option<usize>)
        ensures
            match r {
                Some(i) => i < self.entries@.len() && self.entries@[i as int].0@ == name@,
                None => forall|j: int|
                    0 <= j < self.entries@.len() ==> self.entries@[j].0@ != name@,
            },
    {
        let mut i: usize = 0;
        while i < self.entries.len()
            invariant
                i <= self.entries@.len(),
                forall|j: int| 0 <= j < i ==> self.entries@[j].0@ != name@,
            decreases self.entries@.len() - i,
        {
            if self.entries[i].0 == *name {
                return Some(i);
            }
            i = i + 1;
        }
        None
    }

    /// The value bound to `name`, if any.
    pub fn get(&self, name: &String) -> (r: Option<&V>)
        requires
            self.wf(),
        ensures
            match r {
                Some(v) => self@.dom().contains(name@) && *v == self@[name@],
                None => !self@.dom().contains(name@),
            },
    {
        proof {
            lemma_pairs_map_dom(entry_seq(self.entries@), name@);
        }
        match self.find(name) {
            Some(i) => {
                proof {
                    lemma_pairs_map_index(entry_seq(self.entries@), i as int);
                }
                Some(&self.entries[i].1)
            },
            None => None,
        }
    }

    /// Binds `name` to `value`, replacing any earlier binding.
    pub fn insert(&mut self, name: String, value: V)
        requires
            old(self).wf(),
        ensures
            final(self).wf(),
            final(self)@ == old(self)@.insert(name@, value),
    {
        proof {
            lemma_pairs_map_dom(entry_seq(self.entries@), name@);
        }
        match self.find(&name) {
            Some(i) => {
                let ghost s = entry_seq(self.entries@);
                proof {
                    lemma_pairs_map_update(s, i as int, value);
                }
                self.entries.set(i, (name, value));
                assert(entry_seq(self.entries@) =~= s.update(i as int, (s[i as int].0, value)));
            },
            None => {
                let ghost s = entry_seq(self.entries@);
                let ghost k = name@;
                proof {
                    lemma_pairs_map_push(s, k, value);
                }
                self.entries.push((name, value));
                assert(entry_seq(self.entries@) =~= s.push((k, value)));
            },
        }
    }
}

} // verus!

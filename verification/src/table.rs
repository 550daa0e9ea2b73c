//! An ordered association table keyed by strings.
//!
//! `Table` is the store behind an output's variables and behind the run
//! context's accumulated outputs: a name-keyed map whose keys stay unique
//! and whose entries remember insertion order.

use vstd::prelude::*;

verus! {

/// An insertion-ordered map from string names to values of type `V`.
///
/// Keys are unique; inserting under an existing name overwrites the value
/// in place and keeps the name's original position.
#[derive(Debug, PartialEq, Eq)]
pub struct Table<V> {
    entries: Vec<(String, V)>,
}

/// The names of a run of entries, in order.
spec fn entry_keys<V>(s: Seq<(String, V)>) -> Seq<Seq<char>> {
    Seq::new(s.len(), |i: int| s[i].0@)
}

/// The mapping that a run of entries denotes; a later entry wins.
spec fn entry_map<V>(s: Seq<(String, V)>) -> Map<Seq<char>, V>
    decreases s.len(),
{
    if s.len() == 0 {
        Map::empty()
    } else {
        entry_map(s.drop_last()).insert(s.last().0@, s.last().1)
    }
}

proof fn lemma_entry_map_dom<V>(s: Seq<(String, V)>)
    ensures
        forall|k: Seq<char>|
            entry_map(s).contains_key(k) <==> (exists|i: int| 0 <= i < s.len() && s[i].0@ == k),
    decreases s.len(),
{
    if s.len() > 0 {
        lemma_entry_map_dom(s.drop_last());
        assert forall|k: Seq<char>|
            entry_map(s).contains_key(k) <==> (exists|i: int|
                0 <= i < s.len() && s[i].0@ == k) by {
            if entry_map(s).contains_key(k) {
                if k == s.last().0@ {
                    assert(s[s.len() - 1].0@ == k);
                } else {
                    assert(entry_map(s.drop_last()).contains_key(k));
                    let i = choose|i: int|
                        0 <= i < s.drop_last().len() && s.drop_last()[i].0@ == k;
                    assert(s[i].0@ == k);
                }
            }
            if exists|i: int| 0 <= i < s.len() && s[i].0@ == k {
                let i = choose|i: int| 0 <= i < s.len() && s[i].0@ == k;
                if i < s.len() - 1 {
                    assert(s.drop_last()[i].0@ == k);
                    assert(entry_map(s.drop_last()).contains_key(k));
                    assert(entry_map(s).contains_key(k));
                } else {
                    assert(k == s.last().0@);
                }
            }
        }
    }
}

proof fn lemma_entry_keys_contains<V>(s: Seq<(String, V)>)
    ensures
        forall|k: Seq<char>|
            entry_keys(s).contains(k) <==> (exists|i: int| 0 <= i < s.len() && s[i].0@ == k),
{
    assert forall|k: Seq<char>|
        entry_keys(s).contains(k) <==> (exists|i: int| 0 <= i < s.len() && s[i].0@ == k) by {
        if entry_keys(s).contains(k) {
            let i = choose|i: int| 0 <= i < entry_keys(s).len() && entry_keys(s)[i] == k;
            assert(s[i].0@ == k);
        }
        if exists|i: int| 0 <= i < s.len() && s[i].0@ == k {
            let i = choose|i: int| 0 <= i < s.len() && s[i].0@ == k;
            assert(entry_keys(s)[i] == k);
        }
    }
}

proof fn lemma_entry_map_get<V>(s: Seq<(String, V)>, i: int)
    requires
        0 <= i < s.len(),
        forall|j: int| i < j < s.len() ==> s[j].0@ != s[i].0@,
    ensures
        entry_map(s).contains_key(s[i].0@),
        entry_map(s)[s[i].0@] == s[i].1,
    decreases s.len(),
{
    if i < s.len() - 1 {
        lemma_entry_map_get(s.drop_last(), i);
    }
}

proof fn lemma_entry_map_push<V>(s: Seq<(String, V)>, p: (String, V))
    ensures
        entry_map(s.push(p)) == entry_map(s).insert(p.0@, p.1),
        entry_keys(s.push(p)) == entry_keys(s).push(p.0@),
{
    assert(s.push(p).drop_last() =~= s);
    assert(entry_keys(s.push(p)) =~= entry_keys(s).push(p.0@));
}

proof fn lemma_entry_map_update<V>(s: Seq<(String, V)>, i: int, p: (String, V))
    requires
        0 <= i < s.len(),
        p.0@ == s[i].0@,
        forall|j: int| 0 <= j < s.len() && j != i ==> s[j].0@ != s[i].0@,
    ensures
        entry_map(s.update(i, p)) == entry_map(s).insert(p.0@, p.1),
        entry_keys(s.update(i, p)) == entry_keys(s),
    decreases s.len(),
{
    assert(entry_keys(s.update(i, p)) =~= entry_keys(s));
    if i == s.len() - 1 {
        assert(s.update(i, p).drop_last() =~= s.drop_last());
        assert(entry_map(s.update(i, p)) =~= entry_map(s).insert(p.0@, p.1));
    } else {
        assert(s.update(i, p).drop_last() =~= s.drop_last().update(i, p));
        lemma_entry_map_update(s.drop_last(), i, p);
        assert(entry_map(s.update(i, p)) =~= entry_map(s).insert(p.0@, p.1));
    }
}

/// Character-for-character string comparison, proved against the views.
fn str_eq(a: &str, b: &str) -> (r: bool)
    ensures
        r == (a@ == b@),
{
    let alen = a.unicode_len();
    let blen = b.unicode_len();
    if alen != blen {
        return false;
    }
    let mut i: usize = 0;
    while i < alen
        invariant
            i <= alen,
            alen == a@.len(),
            alen == b@.len(),
            forall|j: int| 0 <= j < i ==> a@[j] == b@[j],
        decreases alen - i,
    {
        if a.get_char(i) != b.get_char(i) {
            return false;
        }
        i += 1;
    }
    proof {
        assert(a@ =~= b@);
    }
    true
}

impl<V> View for Table<V> {
    type V = Map<Seq<char>, V>;

    closed spec fn view(&self) -> Map<Seq<char>, V> {
        entry_map(self.entries@)
    }
}

impl<V> Table<V> {
    /// The table's names in insertion order.
    pub closed spec fn keys(self) -> Seq<Seq<char>> {
        entry_keys(self.entries@)
    }

    /// Well-formedness: no name is bound twice.
    pub closed spec fn inv(self) -> bool {
        forall|i: int, j: int|
            0 <= i < j < self.entries@.len() ==> self.entries@[i].0@ != self.entries@[j].0@
    }

    /// An empty table.
    pub fn new() -> (r: Self)
        ensures
            r.inv(),
            r@ == Map::<Seq<char>, V>::empty(),
            r.keys() == Seq::<Seq<char>>::empty(),
    {
        let r = Table { entries: Vec::new() };
        proof {
            assert(r.keys() =~= Seq::<Seq<char>>::empty());
        }
        r
    }

    /// How many names are bound.
    pub fn len(&self) -> (r: usize)
        ensures
            r == self.keys().len(),
    {
        self.entries.len()
    }

    /// Whether no name is bound.
    pub fn is_empty(&self) -> (r: bool)
        ensures
            r == (self.keys().len() == 0),
    {
        self.entries.len() == 0
    }

    /// A name is bound exactly when it is a key of the view.
    pub proof fn lemma_keys_view(self)
        ensures
            forall|k: Seq<char>| self@.contains_key(k) <==> self.keys().contains(k),
    {
        lemma_entry_map_dom(self.entries@);
        lemma_entry_keys_contains(self.entries@);
    }

    /// The name at a given position, in insertion order.
    pub fn key_at(&self, i: usize) -> (r: &String)
        requires
            i < self.keys().len(),
        ensures
            r@ == self.keys()[i as int],
    {
        &self.entries[i].0
    }

    /// The value at a given position, in insertion order.
    pub fn value_at(&self, i: usize) -> (r: &V)
        requires
            self.inv(),
            i < self.keys().len(),
        ensures
            self@.contains_key(self.keys()[i as int]),
            *r == self@[self.keys()[i as int]],
    {
        proof {
            lemma_entry_map_get(self.entries@, i as int);
        }
        &self.entries[i].1
    }

    /// The value bound to `name`, if any.
    pub fn get(&self, name: &str) -> (r: Option<&V>)
        requires
            self.inv(),
        ensures
            match r {
                Some(v) => self@.contains_key(name@) && *v == self@[name@],
                None => !self@.contains_key(name@),
            },
    {
        let n = self.entries.len();
        let mut i: usize = 0;
        while i < n
            invariant
                i <= n,
                n == self.entries@.len(),
                forall|j: int| 0 <= j < i ==> self.entries@[j].0@ != name@,
                self.inv(),
            decreases n - i,
        {
            if str_eq(self.entries[i].0.as_str(), name) {
                proof {
                    lemma_entry_map_get(self.entries@, i as int);
                }
                return Some(&self.entries[i].1);
            }
            i += 1;
        }
        proof {
            lemma_entry_map_dom(self.entries@);
        }
        None
    }

    /// Binds `name` to `value`: overwrites in place when `name` is already
    /// bound, appends otherwise.
    pub fn insert(&mut self, name: &str, value: V)
        requires
            old(self).inv(),
        ensures
            final(self).inv(),
            final(self)@ == old(self)@.insert(name@, value),
            final(self).keys() == if old(self)@.contains_key(name@) {
                old(self).keys()
            } else {
                old(self).keys().push(name@)
            },
    {
        let ghost s0 = self.entries@;
        let n = self.entries.len();
        let mut i: usize = 0;
        while i < n
            invariant
                i <= n,
                n == self.entries@.len(),
                self.entries@ == s0,
                old(self).entries@ == s0,
                forall|j: int| 0 <= j < i ==> self.entries@[j].0@ != name@,
                forall|p: int, q: int| 0 <= p < q < s0.len() ==> s0[p].0@ != s0[q].0@,
            decreases n - i,
        {
            if str_eq(self.entries[i].0.as_str(), name) {
                let key = String::from_str(name);
                self.entries.set(i, (key, value));
                proof {
                    lemma_entry_map_get(s0, i as int);
                    lemma_entry_map_dom(s0);
                    lemma_entry_map_update(s0, i as int, self.entries@[i as int]);
                }
                return;
            }
            i += 1;
        }
        let key = String::from_str(name);
        self.entries.push((key, value));
        proof {
            lemma_entry_map_dom(s0);
            lemma_entry_map_push(s0, self.entries@.last());
            assert(self.entries@.drop_last() =~= s0);
        }
    }
}

impl Clone for Table<crate::var::Value> {
    /// A clone binds the same names in the same order, each to a clone of
    /// the original value; well-formedness carries over.
    fn clone(&self) -> (res: Self)
        ensures
            res.keys() == self.keys(),
            forall|k: Seq<char>| #[trigger] res@.contains_key(k) <==> self@.contains_key(k),
            self.inv() ==> res.inv(),
        decreases *self,
    {
        let n = self.entries.len();
        let mut entries: Vec<(String, crate::var::Value)> = Vec::new();
        let mut i: usize = 0;
        while i < n
            invariant
                i <= n,
                n == self.entries@.len(),
                entries@.len() == i,
                forall|j: int| 0 <= j < i ==> entries@[j].0 == self.entries@[j].0,
            decreases n - i,
        {
            let key = self.entries[i].0.clone();
            proof {
                assert(decreases_to!(*self => self.entries@[i as int].1));
            }
            let value = self.entries[i].1.clone();
            entries.push((key, value));
            i += 1;
        }
        let res = Table { entries };
        proof {
            assert(res.keys() =~= self.keys());
            lemma_entry_map_dom(res.entries@);
            lemma_entry_map_dom(self.entries@);
            assert forall|k: Seq<char>| res@.contains_key(k) implies self@.contains_key(k) by {
                let j = choose|j: int| 0 <= j < res.entries@.len() && res.entries@[j].0@ == k;
                assert(self.entries@[j].0@ == k);
            }
            assert forall|k: Seq<char>| self@.contains_key(k) implies res@.contains_key(k) by {
                let j = choose|j: int| 0 <= j < self.entries@.len() && self.entries@[j].0@ == k;
                assert(res.entries@[j].0@ == k);
            }
        }
        res
    }
}

} // verus!

//! A small map from names to values, kept as a list of entries.
use vstd::prelude::*;

use crate::text::str_eq;

verus! {

/// The map that a list of entries stands for: a later entry for a name
/// overrides an earlier one.
pub open spec fn entries_map<V>(v: Seq<(String, V)>, n: nat) -> Map<Seq<char>, V>
    decreases n,
{
    if n == 0 || n > v.len() {
        Map::empty()
    } else {
        entries_map(v, (n - 1) as nat).insert(v[n - 1].0@, v[n - 1].1)
    }
}

/// Entries after `n` that do not name `k` leave what the map says of `k`.
proof fn lemma_entries_map_skip<V>(v: Seq<(String, V)>, n: nat, m: nat, k: Seq<char>)
    requires
        n <= m <= v.len(),
        forall|j: int| n <= j < m ==> v[j].0@ != k,
    ensures
        entries_map(v, m).contains_key(k) == entries_map(v, n).contains_key(k),
        entries_map(v, m).contains_key(k) ==> entries_map(v, m)[k] == entries_map(v, n)[k],
    decreases m - n,
{
    if m > n {
        lemma_entries_map_skip(v, n, (m - 1) as nat, k);
    }
}

/// The map of a prefix depends on the prefix alone.
proof fn lemma_entries_map_prefix<V>(v: Seq<(String, V)>, w: Seq<(String, V)>, n: nat)
    requires
        n <= v.len(),
        n <= w.len(),
        forall|j: int| 0 <= j < n ==> v[j] == w[j],
    ensures
        entries_map(v, n) == entries_map(w, n),
    decreases n,
{
    if n > 0 {
        lemma_entries_map_prefix(v, w, (n - 1) as nat);
    }
}

/// Setting the last entry for `k` sets `k` in the map.
proof fn lemma_entries_map_update<V>(v: Seq<(String, V)>, j: int, s: String, x: V, n: nat)
    requires
        0 <= j < v.len(),
        s@ == v[j].0@,
        j < n <= v.len(),
        forall|i: int| j < i < v.len() ==> v[i].0@ != v[j].0@,
    ensures
        entries_map(v.update(j, (s, x)), n) == entries_map(v, n).insert(v[j].0@, x),
    decreases n,
{
    let w = v.update(j, (s, x));
    let k = v[j].0@;
    if n == j + 1 {
        lemma_entries_map_prefix(v, w, j as nat);
        assert(entries_map(w, n) =~= entries_map(v, n).insert(k, x));
    } else {
        lemma_entries_map_update(v, j, s, x, (n - 1) as nat);
        assert(entries_map(w, n) =~= entries_map(v, n).insert(k, x));
    }
}

/// Entry lists that name the same keys in order, with each value a clone of
/// the other's, stand for maps with the same keys and cloned values.
proof fn lemma_entries_map_cloned<V: Clone>(v: Seq<(String, V)>, w: Seq<(String, V)>, n: nat)
    requires
        v.len() == w.len(),
        n <= v.len(),
        forall|j: int| 0 <= j < v.len() ==> #[trigger] w[j].0@ == v[j].0@ && cloned::<V>(v[j].1, w[j].1),
    ensures
        entries_map(w, n).dom() == entries_map(v, n).dom(),
        forall|k: Seq<char>| #[trigger] entries_map(w, n).contains_key(k) ==> cloned::<V>(entries_map(v, n)[k], entries_map(w, n)[k]),
    decreases n,
{
    if n > 0 {
        lemma_entries_map_cloned(v, w, (n - 1) as nat);
        assert(w[n - 1].0@ == v[n - 1].0@);
        assert(entries_map(w, n).dom() =~= entries_map(v, n).dom());
    }
}

/// A map from names to values.
#[derive(Debug)]
pub struct AssocMap<V> {
    entries: Vec<(String, V)>,
}

impl<V> View for AssocMap<V> {
    type V = Map<Seq<char>, V>;

    closed spec fn view(&self) -> Map<Seq<char>, V> {
        entries_map(self.entries@, self.entries@.len())
    }
}

impl<V> AssocMap<V> {
    /// An empty map.
    pub fn new() -> (r: Self)
        ensures
            r@ == Map::<Seq<char>, V>::empty(),
    {
        AssocMap { entries: Vec::new() }
    }

    /// Where the last entry for `name` stands, if there is one.
    fn find(&self, name: &str) -> (r: Option<usize>)
        ensures
            match r {
                Some(j) => j < self.entries@.len() && self.entries@[j as int].0@ == name@
                    && forall|i: int| j < i < self.entries@.len() ==> self.entries@[i].0@ != name@,
                None => forall|i: int| 0 <= i < self.entries@.len() ==> self.entries@[i].0@ != name@,
            },
    {
        let n = self.entries.len();
        let mut i = n;
        while i > 0
            invariant
                i <= n,
                n == self.entries@.len(),
                forall|j: int| i <= j < n ==> self.entries@[j].0@ != name@,
            decreases i,
        {
            if str_eq(self.entries[i - 1].0.as_str(), name) {
                return Some(i - 1);
            }
            i = i - 1;
        }
        None
    }

    /// The value of `name`, if it has one.
    pub fn get(&self, name: &str) -> (r: Option<&V>)
        ensures
            match r {
                Some(v) => self@.contains_key(name@) && self@[name@] == *v,
                None => !self@.contains_key(name@),
            },
    {
        let n = self.entries.len();
        match self.find(name) {
            Some(j) => {
                proof {
                    lemma_entries_map_skip(self.entries@, (j + 1) as nat, n as nat, name@);
                }
                Some(&self.entries[j].1)
            },
            None => {
                proof {
                    lemma_entries_map_skip(self.entries@, 0, n as nat, name@);
                }
                None
            },
        }
    }

    /// Whether `name` has a value.
    pub fn contains_key(&self, name: &str) -> (r: bool)
        ensures
            r == self@.contains_key(name@),
    {
        self.get(name).is_some()
    }

    /// Gives `name` the value `value`.
    pub fn insert(&mut self, name: String, value: V)
        ensures
            final(self)@ == old(self)@.insert(name@, value),
    {
        match self.find(name.as_str()) {
            Some(j) => {
                let ghost v = self.entries@;
                let ghost s = name;
                self.entries.set(j, (name, value));
                proof {
                    lemma_entries_map_update(v, j as int, s, value, v.len());
                }
            },
            None => {
                self.entries.push((name, value));
                proof {
                    let v = self.entries@;
                    lemma_entries_map_prefix(v, old(self).entries@, (v.len() - 1) as nat);
                }
            },
        }
    }
}

impl<V: Clone> AssocMap<V> {
    /// A copy of the map: the same names, each value copied by its `clone`.
    pub fn duplicate(&self) -> (r: Self)
        ensures
            r@.dom() == self@.dom(),
            forall|k: Seq<char>| #[trigger] r@.contains_key(k) ==> cloned::<V>(self@[k], r@[k]),
    {
        let n = self.entries.len();
        let mut out: Vec<(String, V)> = Vec::new();
        let mut i: usize = 0;
        while i < n
            invariant
                i <= n,
                n == self.entries@.len(),
                out@.len() == i,
                forall|j: int| 0 <= j < i ==> #[trigger] out@[j].0@ == self.entries@[j].0@
                    && cloned::<V>(self.entries@[j].1, out@[j].1),
            decreases n - i,
        {
            let name = self.entries[i].0.clone();
            let value = self.entries[i].1.clone();
            out.push((name, value));
            i = i + 1;
        }
        proof {
            lemma_entries_map_cloned(self.entries@, out@, n as nat);
        }
        AssocMap { entries: out }
    }
}

} // verus!

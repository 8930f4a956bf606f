//! A map keyed by names, kept as a list of distinct names with their values.

use vstd::prelude::*;

verus! {

/// The pairs of a map, in its order, with the names taken as text.
pub open spec fn pairs_of<V>(entries: Seq<(String, V)>) -> Seq<(Seq<char>, V)> {
    entries.map_values(|e: (String, V)| (e.0@, e.1))
}

/// No name occurs twice.
pub open spec fn distinct_names<V>(p: Seq<(Seq<char>, V)>) -> bool {
    forall|i: int, j: int| 0 <= i < p.len() && 0 <= j < p.len() && i != j ==> (#[trigger] p[i]).0 != (#[trigger] p[j]).0
}

/// The map that a list of pairs with distinct names stands for.
pub open spec fn map_of<V>(p: Seq<(Seq<char>, V)>) -> Map<Seq<char>, V> {
    Map::new(
        |k: Seq<char>| exists|i: int| 0 <= i < p.len() && (#[trigger] p[i]).0 == k,
        |k: Seq<char>| p[choose|i: int| 0 <= i < p.len() && (#[trigger] p[i]).0 == k].1,
    )
}

/// The pairs list the map: distinct names, each with its value, and every
/// name of the map listed.
pub open spec fn lists<V>(p: Seq<(Seq<char>, V)>, m: Map<Seq<char>, V>) -> bool {
    &&& distinct_names(p)
    &&& forall|i: int| 0 <= i < p.len() ==> m.contains_key((#[trigger] p[i]).0) && m[p[i].0] == p[i].1
    &&& forall|k: Seq<char>| #[trigger] m.contains_key(k) ==> exists|i: int| 0 <= i < p.len() && (#[trigger] p[i]).0 == k
    &&& p.len() == m.dom().len()
}

/// A map from names to values. Each name occurs once; the entries keep the
/// order in which their names were first inserted.
pub struct NameMap<V> {
    entries: Vec<(String, V)>,
}

impl<V> View for NameMap<V> {
    type V = Map<Seq<char>, V>;

    closed spec fn view(&self) -> Map<Seq<char>, V> {
        map_of(pairs_of(self.entries@))
    }
}

proof fn lemma_map_of<V>(p: Seq<(Seq<char>, V)>)
    requires
        distinct_names(p),
    ensures
        lists(p, map_of(p)),
    decreases p.len(),
{
    let m = map_of(p);
    assert forall|i: int| 0 <= i < p.len() implies m.contains_key((#[trigger] p[i]).0) && m[p[i].0] == p[i].1 by {
        let k = p[i].0;
        assert(exists|j: int| 0 <= j < p.len() && (#[trigger] p[j]).0 == k);
        let j = choose|j: int| 0 <= j < p.len() && (#[trigger] p[j]).0 == k;
        assert(j == i);
    }
    lemma_dom_len(p);
}

proof fn lemma_dom_len<V>(p: Seq<(Seq<char>, V)>)
    requires
        distinct_names(p),
    ensures
        map_of(p).dom().finite(),
        map_of(p).dom().len() == p.len(),
    decreases p.len(),
{
    if p.len() == 0 {
        assert(map_of(p).dom() =~= Set::empty());
    } else {
        let q = p.drop_last();
        assert(distinct_names(q)) by {
            assert forall|i: int, j: int| 0 <= i < q.len() && 0 <= j < q.len() && i != j implies (#[trigger] q[i]).0 != (#[trigger] q[j]).0 by {
                assert(q[i] == p[i] && q[j] == p[j]);
            }
        }
        lemma_dom_len(q);
        let k = p.last().0;
        assert(map_of(p).dom() =~= map_of(q).dom().insert(k)) by {
            assert forall|x: Seq<char>| map_of(p).dom().contains(x) implies map_of(q).dom().insert(k).contains(x) by {
                let i = choose|i: int| 0 <= i < p.len() && (#[trigger] p[i]).0 == x;
                if i < q.len() {
                    assert(q[i] == p[i]);
                }
            }
            assert forall|x: Seq<char>| map_of(q).dom().insert(k).contains(x) implies map_of(p).dom().contains(x) by {
                if x != k {
                    let i = choose|i: int| 0 <= i < q.len() && (#[trigger] q[i]).0 == x;
                    assert(p[i] == q[i]);
                } else {
                    assert(p[p.len() - 1].0 == k);
                }
            }
        }
        assert(!map_of(q).dom().contains(k)) by {
            if map_of(q).dom().contains(k) {
                let i = choose|i: int| 0 <= i < q.len() && (#[trigger] q[i]).0 == k;
                assert(p[i] == q[i]);
                assert(p[p.len() - 1].0 == k);
            }
        }
    }
}

/// Two maps listed by the same pairs are equal.
pub proof fn lemma_lists_same_map<V>(p: Seq<(Seq<char>, V)>, m1: Map<Seq<char>, V>, m2: Map<Seq<char>, V>)
    requires
        lists(p, m1),
        lists(p, m2),
    ensures
        m1 == m2,
{
    assert forall|k: Seq<char>| m1.contains_key(k) implies m2.contains_key(k) && m1[k] == m2[k] by {
        let i = choose|i: int| 0 <= i < p.len() && (#[trigger] p[i]).0 == k;
    }
    assert forall|k: Seq<char>| m2.contains_key(k) implies m1.contains_key(k) by {
        let i = choose|i: int| 0 <= i < p.len() && (#[trigger] p[i]).0 == k;
    }
    assert(m1 =~= m2);
}

impl<V> NameMap<V> {
    #[verifier::type_invariant]
    spec fn names_distinct(self) -> bool {
        distinct_names(pairs_of(self.entries@))
    }

    /// The entries, in order, with the names taken as text.
    pub closed spec fn pairs(&self) -> Seq<(Seq<char>, V)> {
        pairs_of(self.entries@)
    }

    pub fn new() -> (m: NameMap<V>)
        ensures
            m@ == Map::<Seq<char>, V>::empty(),
            m.pairs() == Seq::<(Seq<char>, V)>::empty(),
    {
        let m = NameMap { entries: Vec::new() };
        assert(m@ =~= Map::<Seq<char>, V>::empty());
        assert(m.pairs() =~= Seq::<(Seq<char>, V)>::empty());
        m
    }

    /// The number of entries; also shows that the entries list the map.
    pub fn len(&self) -> (n: usize)
        ensures
            n == self.pairs().len(),
            lists(self.pairs(), self@),
    {
        proof {
            use_type_invariant(self);
            lemma_map_of(self.pairs());
        }
        self.entries.len()
    }

    /// The name of the `i`th entry.
    pub fn key_at(&self, i: usize) -> (k: &String)
        requires
            i < self.pairs().len(),
        ensures
            k@ == self.pairs()[i as int].0,
    {
        &self.entries[i].0
    }

    /// The value of the `i`th entry.
    pub fn value_at(&self, i: usize) -> (v: &V)
        requires
            i < self.pairs().len(),
        ensures
            *v == self.pairs()[i as int].1,
    {
        &self.entries[i].1
    }

    fn find(&self, k: &str) -> (r: Option<usize>)
        ensures
            match r {
                Some(i) => i < self.pairs().len() && self.pairs()[i as int].0 == k@,
                None => forall|i: int| 0 <= i < self.pairs().len() ==> (#[trigger] self.pairs()[i]).0 != k@,
            },
    {
        let n = self.entries.len();
        let mut i: usize = 0;
        while i < n
            invariant
                n == self.pairs().len(),
                i <= n,
                forall|j: int| 0 <= j < i ==> (#[trigger] self.pairs()[j]).0 != k@,
            decreases n - i,
        {
            if str_eq(self.entries[i].0.as_str(), k) {
                return Some(i);
            }
            i = i + 1;
        }
        None
    }

    pub fn get(&self, k: &str) -> (r: Option<&V>)
        ensures
            match r {
                Some(v) => self@.contains_key(k@) && *v == self@[k@],
                None => !self@.contains_key(k@),
            },
    {
        proof {
            use_type_invariant(self);
            lemma_map_of(self.pairs());
        }
        match self.find(k) {
            Some(i) => Some(&self.entries[i].1),
            None => None,
        }
    }

    pub fn contains_key(&self, k: &str) -> (r: bool)
        ensures
            r == self@.contains_key(k@),
    {
        self.get(k).is_some()
    }

    /// Insert or overwrite the value of `k`, returning the value it had.
    /// A new name goes to the end of the entries.
    pub fn insert(&mut self, k: String, v: V) -> (r: Option<V>)
        ensures
            final(self)@ == old(self)@.insert(k@, v),
            match r {
                Some(w) => old(self)@.contains_key(k@) && w == old(self)@[k@],
                None => !old(self)@.contains_key(k@) && final(self).pairs() == old(self).pairs().push((k@, v)),
            },
    {
        proof {
            use_type_invariant(&*self);
            lemma_map_of(self.pairs());
        }
        let ghost kv = k@;
        let ghost vv = v;
        let ghost old_pairs = self.pairs();
        match self.find(k.as_str()) {
            Some(i) => {
                let mut entries: Vec<(String, V)> = Vec::new();
                std::mem::swap(&mut entries, &mut self.entries);
                let old_entry = entries.remove(i);
                entries.insert(i, (k, v));
                proof {
                    assert(pairs_of(entries@) =~= old_pairs.update(i as int, (kv, vv)));
                    let p = pairs_of(entries@);
                    assert forall|a: int, b: int| 0 <= a < p.len() && 0 <= b < p.len() && a != b implies (#[trigger] p[a]).0 != (#[trigger] p[b]).0 by {
                        assert(p[a].0 == old_pairs[a].0 && p[b].0 == old_pairs[b].0);
                    }
                }
                self.entries = entries;
                proof {
                    assert(self.pairs() =~= old_pairs.update(i as int, (kv, vv)));
                    lemma_map_of(self.pairs());
                    assert(self@ =~= map_of(old_pairs).insert(kv, vv)) by {
                        let p = self.pairs();
                        assert forall|x: Seq<char>| #[trigger] map_of(old_pairs).insert(kv, vv).contains_key(x) implies self@.contains_key(x) by {
                            if x != kv {
                                let j = choose|j: int| 0 <= j < old_pairs.len() && (#[trigger] old_pairs[j]).0 == x;
                                assert(p[j] == old_pairs[j]);
                            } else {
                                assert(p[i as int].0 == kv);
                            }
                        }
                        assert forall|x: Seq<char>| #[trigger] self@.contains_key(x) implies map_of(old_pairs).insert(kv, vv).contains_key(x) && self@[x] == map_of(old_pairs).insert(kv, vv)[x] by {
                            let j = choose|j: int| 0 <= j < p.len() && (#[trigger] p[j]).0 == x;
                            if j != i {
                                assert(p[j] == old_pairs[j]);
                            }
                        }
                    }
                }
                Some(old_entry.1)
            },
            None => {
                let mut entries: Vec<(String, V)> = Vec::new();
                std::mem::swap(&mut entries, &mut self.entries);
                entries.push((k, v));
                proof {
                    let p = pairs_of(entries@);
                    assert(p =~= old_pairs.push((kv, vv)));
                    assert forall|a: int, b: int| 0 <= a < p.len() && 0 <= b < p.len() && a != b implies (#[trigger] p[a]).0 != (#[trigger] p[b]).0 by {
                        if a < old_pairs.len() && b < old_pairs.len() {
                            assert(p[a] == old_pairs[a] && p[b] == old_pairs[b]);
                        } else if a < old_pairs.len() {
                            assert(p[a] == old_pairs[a]);
                        } else {
                            assert(p[b] == old_pairs[b]);
                        }
                    }
                }
                self.entries = entries;
                proof {
                    assert(self.pairs() =~= old_pairs.push((kv, vv)));
                    assert(distinct_names(self.pairs()));
                    lemma_map_of(self.pairs());
                    assert(self@ =~= map_of(old_pairs).insert(kv, vv)) by {
                        let p = self.pairs();
                        assert forall|x: Seq<char>| #[trigger] map_of(old_pairs).insert(kv, vv).contains_key(x) implies self@.contains_key(x) by {
                            if x != kv {
                                let j = choose|j: int| 0 <= j < old_pairs.len() && (#[trigger] old_pairs[j]).0 == x;
                                assert(p[j] == old_pairs[j]);
                            } else {
                                assert(p[old_pairs.len() as int].0 == kv);
                            }
                        }
                        assert forall|x: Seq<char>| #[trigger] self@.contains_key(x) implies map_of(old_pairs).insert(kv, vv).contains_key(x) && self@[x] == map_of(old_pairs).insert(kv, vv)[x] by {
                            let j = choose|j: int| 0 <= j < p.len() && (#[trigger] p[j]).0 == x;
                            if j < old_pairs.len() {
                                assert(p[j] == old_pairs[j]);
                            }
                        }
                    }
                }
                None
            },
        }
    }

    /// Remove `k`, returning the value it had.
    pub fn remove(&mut self, k: &str) -> (r: Option<V>)
        ensures
            final(self)@ == old(self)@.remove(k@),
            match r {
                Some(w) => old(self)@.contains_key(k@) && w == old(self)@[k@] && exists|i: int|
                    0 <= i < old(self).pairs().len() && (#[trigger] old(self).pairs()[i]).0 == k@ && final(self).pairs()
                        == old(self).pairs().remove(i),
                None => !old(self)@.contains_key(k@) && final(self).pairs() == old(self).pairs(),
            },
    {
        proof {
            use_type_invariant(&*self);
            lemma_map_of(self.pairs());
        }
        let ghost old_pairs = self.pairs();
        match self.find(k) {
            Some(i) => {
                let mut entries: Vec<(String, V)> = Vec::new();
                std::mem::swap(&mut entries, &mut self.entries);
                let e = entries.remove(i);
                proof {
                    let p = pairs_of(entries@);
                    assert(p =~= old_pairs.remove(i as int));
                    assert(distinct_names(p)) by {
                        assert forall|a: int, b: int| 0 <= a < p.len() && 0 <= b < p.len() && a != b implies (#[trigger] p[a]).0 != (#[trigger] p[b]).0 by {
                            let a2 = if a < i { a } else { a + 1 };
                            let b2 = if b < i { b } else { b + 1 };
                            assert(p[a] == old_pairs[a2] && p[b] == old_pairs[b2]);
                        }
                    }
                }
                self.entries = entries;
                proof {
                    let p = self.pairs();
                    assert(p =~= old_pairs.remove(i as int));
                    lemma_map_of(p);
                    assert(self@ =~= map_of(old_pairs).remove(k@)) by {
                        assert forall|x: Seq<char>| #[trigger] map_of(old_pairs).remove(k@).contains_key(x) implies self@.contains_key(x) by {
                            let j = choose|j: int| 0 <= j < old_pairs.len() && (#[trigger] old_pairs[j]).0 == x;
                            assert(j != i);
                            let j2 = if j < i { j } else { j - 1 };
                            assert(p[j2] == old_pairs[j]);
                        }
                        assert forall|x: Seq<char>| #[trigger] self@.contains_key(x) implies map_of(old_pairs).remove(k@).contains_key(x) && self@[x] == map_of(old_pairs)[x] by {
                            let j = choose|j: int| 0 <= j < p.len() && (#[trigger] p[j]).0 == x;
                            let j2 = if j < i { j } else { j + 1 };
                            assert(p[j] == old_pairs[j2]);
                        }
                    }
                    assert(old_pairs[i as int].0 == k@);
                }
                Some(e.1)
            },
            None => {
                proof {
                    assert(self@ =~= map_of(old_pairs).remove(k@));
                }
                None
            },
        }
    }

    /// The names, in the order of the entries.
    pub fn keys(&self) -> (r: Vec<String>)
        ensures
            r@.len() == self.pairs().len(),
            forall|i: int| 0 <= i < r@.len() ==> (#[trigger] r@[i])@ == self.pairs()[i].0,
    {
        let n = self.entries.len();
        let mut r: Vec<String> = Vec::new();
        let mut i: usize = 0;
        while i < n
            invariant
                n == self.pairs().len(),
                i <= n,
                r@.len() == i,
                forall|j: int| 0 <= j < i ==> (#[trigger] r@[j])@ == self.pairs()[j].0,
            decreases n - i,
        {
            r.push(self.entries[i].0.clone());
            i = i + 1;
        }
        r
    }
}

/// Whether two pieces of text are equal.
pub fn str_eq(a: &str, b: &str) -> (r: bool)
    ensures
        r == (a@ == b@),
{
    let na = a.unicode_len();
    let nb = b.unicode_len();
    if na != nb {
        return false;
    }
    let mut i: usize = 0;
    while i < na
        invariant
            na == a@.len(),
            nb == b@.len(),
            na == nb,
            i <= na,
            forall|j: int| 0 <= j < i ==> a@[j] == b@[j],
        decreases na - i,
    {
        if a.get_char(i) != b.get_char(i) {
            return false;
        }
        i = i + 1;
    }
    assert(a@ =~= b@);
    true
}

} // verus!

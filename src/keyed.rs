//! Maps keyed by strings, kept in ascending key order so that every walk
//! over them, and every document written from them, is canonical.
use vstd::prelude::*;
use vstd::string::*;

verus! {

/// Lexicographic order on character sequences, comparing code points.
pub open spec fn key_less(a: Seq<char>, b: Seq<char>) -> bool
    decreases a.len(),
{
    if a.len() == 0 {
        b.len() > 0
    } else if b.len() == 0 {
        false
    } else if a[0] != b[0] {
        a[0] < b[0]
    } else {
        key_less(a.drop_first(), b.drop_first())
    }
}

/// Every key comes strictly before the keys that follow it.
pub open spec fn strictly_sorted(ks: Seq<Seq<char>>) -> bool {
    forall|i: int, j: int| 0 <= i < j < ks.len() ==> #[trigger] key_less(ks[i], ks[j])
}

pub proof fn lemma_key_less_irreflexive(a: Seq<char>)
    ensures
        !key_less(a, a),
    decreases a.len(),
{
    if a.len() > 0 {
        lemma_key_less_irreflexive(a.drop_first());
    }
}

pub proof fn lemma_key_less_total(a: Seq<char>, b: Seq<char>)
    ensures
        a == b || key_less(a, b) || key_less(b, a),
    decreases a.len(),
{
    if a.len() == 0 {
        if b.len() == 0 {
            assert(a =~= b);
        }
    } else if b.len() > 0 && a[0] != b[0] {
        assert(a[0] < b[0] || b[0] < a[0]);
    } else if b.len() > 0 && a[0] == b[0] {
        lemma_key_less_total(a.drop_first(), b.drop_first());
        if a.drop_first() == b.drop_first() {
            assert(a.drop_first().len() == b.drop_first().len());
            assert(a.len() == b.len());
            assert forall|i: int| 0 <= i < a.len() implies a[i] == b[i] by {
                if i > 0 {
                    assert(a[i] == a.drop_first()[i - 1]);
                    assert(b[i] == b.drop_first()[i - 1]);
                }
            }
            assert(a =~= b);
        }
    }
}

pub proof fn lemma_key_less_transitive(a: Seq<char>, b: Seq<char>, c: Seq<char>)
    requires
        key_less(a, b),
        key_less(b, c),
    ensures
        key_less(a, c),
    decreases a.len(),
{
    if a.len() > 0 && b.len() > 0 && c.len() > 0 && a[0] == b[0] && b[0] == c[0] {
        lemma_key_less_transitive(a.drop_first(), b.drop_first(), c.drop_first());
    }
}

/// Whether `a` comes strictly before `b` in key order.
pub fn str_less(a: &str, b: &str) -> (r: bool)
    ensures
        r == key_less(a@, b@),
{
    let la = a.unicode_len();
    let lb = b.unicode_len();
    let mut i: usize = 0;
    assert(a@.skip(0) =~= a@);
    assert(b@.skip(0) =~= b@);
    while i < la && i < lb
        invariant
            la == a@.len(),
            lb == b@.len(),
            i <= la,
            i <= lb,
            key_less(a@, b@) == key_less(a@.skip(i as int), b@.skip(i as int)),
        decreases la - i,
    {
        let ca = a.get_char(i);
        let cb = b.get_char(i);
        assert(a@.skip(i as int)[0] == ca);
        assert(b@.skip(i as int)[0] == cb);
        if ca != cb {
            return ca < cb;
        }
        assert(a@.skip(i as int).drop_first() =~= a@.skip(i + 1));
        assert(b@.skip(i as int).drop_first() =~= b@.skip(i + 1));
        i += 1;
    }
    la < lb
}

/// Whether `a` and `b` hold the same characters.
pub fn str_eq(a: &str, b: &str) -> (r: bool)
    ensures
        r == (a@ == b@),
{
    let r = !str_less(a, b) && !str_less(b, a);
    proof {
        lemma_key_less_total(a@, b@);
        lemma_key_less_irreflexive(a@);
    }
    r
}

/// A map from string keys to values, stored in ascending key order.
#[derive(Debug, Clone)]
pub struct KeyedMap<V> {
    entries: Vec<(String, V)>,
}

impl<V> KeyedMap<V> {
    /// The keys, in the order in which they are stored and written.
    pub closed spec fn keys(&self) -> Seq<Seq<char>> {
        self.entries@.map_values(|e: (String, V)| e.0@)
    }

    /// The values, position by position with `keys`.
    pub closed spec fn values(&self) -> Seq<V> {
        self.entries@.map_values(|e: (String, V)| e.1)
    }

    pub open spec fn wf(&self) -> bool {
        &&& strictly_sorted(self.keys())
        &&& self.keys().len() == self.values().len()
    }

    pub closed spec fn position(&self, k: Seq<char>) -> int {
        choose|i: int| 0 <= i < self.keys().len() && self.keys()[i] == k
    }

    /// The map as a mathematical map.
    pub closed spec fn view(&self) -> Map<Seq<char>, V> {
        Map::new(|k: Seq<char>| self.keys().contains(k), |k: Seq<char>| self.values()[self.position(k)])
    }

    proof fn lemma_unique(&self, i: int, j: int)
        requires
            self.wf(),
            0 <= i < self.keys().len(),
            0 <= j < self.keys().len(),
            self.keys()[i] == self.keys()[j],
        ensures
            i == j,
    {
        lemma_key_less_irreflexive(self.keys()[i]);
        if i < j {
            assert(key_less(self.keys()[i], self.keys()[j]));
        } else if j < i {
            assert(key_less(self.keys()[j], self.keys()[i]));
        }
    }

    /// The keys are exactly the map's domain, listed in ascending order, and
    /// each value stands at its key's position.
    pub proof fn lemma_view(&self)
        requires
            self.wf(),
        ensures
            forall|k: Seq<char>| #[trigger] self.view().contains_key(k) <==> self.keys().contains(k),
            forall|i: int|
                0 <= i < self.keys().len() ==> #[trigger] self.view()[self.keys()[i]]
                    == self.values()[i],
            self.keys().len() == self.view().dom().len(),
    {
        assert forall|i: int| 0 <= i < self.keys().len() implies #[trigger] self.view()[self.keys()[i]]
            == self.values()[i] by {
            let k = self.keys()[i];
            assert(self.keys().contains(k));
            let p = self.position(k);
            self.lemma_unique(i, p);
        }
        assert forall|i: int, j: int| 0 <= i < self.keys().len() && 0 <= j < self.keys().len() && i != j
            implies self.keys()[i] != self.keys()[j] by {
            if self.keys()[i] == self.keys()[j] {
                self.lemma_unique(i, j);
            }
        }
        self.keys().unique_seq_to_set();
        assert(self.view().dom() =~= self.keys().to_set());
    }

    pub fn new() -> (r: Self)
        ensures
            r.wf(),
            r.view() == Map::<Seq<char>, V>::empty(),
            r.keys() == Seq::<Seq<char>>::empty(),
    {
        let r = KeyedMap { entries: Vec::new() };
        assert(r.keys() =~= Seq::<Seq<char>>::empty());
        assert(r.view() =~= Map::<Seq<char>, V>::empty());
        r
    }

    pub fn len(&self) -> (r: usize)
        ensures
            r == self.keys().len(),
            r == self.values().len(),
    {
        self.entries.len()
    }

    pub fn is_empty(&self) -> (r: bool)
        requires
            self.wf(),
        ensures
            r == (self.view() == Map::<Seq<char>, V>::empty()),
            r == (self.keys().len() == 0),
    {
        proof {
            self.lemma_view();
            if self.keys().len() > 0 {
                assert(self.view().contains_key(self.keys()[0]));
            } else {
                assert(self.view() =~= Map::<Seq<char>, V>::empty());
            }
        }
        self.entries.len() == 0
    }

    /// The key and the value at position `i` of the ascending order.
    pub fn entry(&self, i: usize) -> (r: (&String, &V))
        requires
            i < self.keys().len(),
        ensures
            r.0@ == self.keys()[i as int],
            *r.1 == self.values()[i as int],
    {
        let e = &self.entries[i];
        (&e.0, &e.1)
    }

    /// The first position whose key is not before `k`, and whether it holds `k`.
    fn find(&self, k: &str) -> (r: (usize, bool))
        requires
            self.wf(),
        ensures
            r.0 <= self.keys().len(),
            forall|j: int| 0 <= j < r.0 ==> key_less(#[trigger] self.keys()[j], k@),
            r.1 == (r.0 < self.keys().len() && self.keys()[r.0 as int] == k@),
            r.0 < self.keys().len() && !r.1 ==> key_less(k@, self.keys()[r.0 as int]),
            r.1 == self.keys().contains(k@),
    {
        let mut i: usize = 0;
        while i < self.entries.len()
            invariant
                self.wf(),
                i <= self.keys().len(),
                forall|j: int| 0 <= j < i ==> key_less(#[trigger] self.keys()[j], k@),
            decreases self.entries.len() - i,
        {
            let key = self.entries[i].0.as_str();
            assert(key@ == self.keys()[i as int]);
            if !str_less(key, k) {
                let after = str_less(k, key);
                proof {
                    lemma_key_less_total(key@, k@);
                    lemma_key_less_irreflexive(k@);
                    if after && self.keys().contains(k@) {
                        let p = choose|p: int| 0 <= p < self.keys().len() && self.keys()[p] == k@;
                        if p > i {
                            lemma_key_less_transitive(k@, self.keys()[i as int], self.keys()[p]);
                        }
                    }
                }
                return (i, !after);
            }
            i += 1;
        }
        proof {
            lemma_key_less_irreflexive(k@);
        }
        (i, false)
    }

    pub fn get(&self, k: &str) -> (r: Option<&V>)
        requires
            self.wf(),
        ensures
            r.is_some() == self.view().contains_key(k@),
            r.is_some() ==> *r.unwrap() == self.view()[k@],
    {
        proof {
            self.lemma_view();
        }
        let (i, found) = self.find(k);
        if found {
            Some(&self.entries[i].1)
        } else {
            None
        }
    }

    /// Sets `k` to `v`; a value already under `k` is replaced.
    pub fn insert(&mut self, k: String, v: V)
        requires
            old(self).wf(),
        ensures
            final(self).wf(),
            final(self).view() == old(self).view().insert(k@, v),
    {
        let ghost pre = *self;
        let ghost kv = k@;
        let (i, found) = self.find(k.as_str());
        proof {
            pre.lemma_view();
        }
        if found {
            self.entries.set(i, (k, v));
            proof {
                assert(self.keys() =~= pre.keys());
                assert(self.values() =~= pre.values().update(i as int, v));
                self.lemma_view();
                assert forall|key: Seq<char>| #[trigger] self.view().contains_key(key) implies
                    self.view()[key] == pre.view().insert(kv, v)[key] by {
                    let q = choose|q: int| 0 <= q < self.keys().len() && self.keys()[q] == key;
                    if q != i && key == kv {
                        pre.lemma_unique(q, i as int);
                    }
                }
                assert(self.view() =~= pre.view().insert(kv, v));
            }
        } else {
            self.entries.insert(i, (k, v));
            proof {
                assert(self.keys() =~= pre.keys().insert(i as int, kv));
                assert(self.values() =~= pre.values().insert(i as int, v));
                assert forall|a: int, b: int| 0 <= a < b < self.keys().len() implies
                    #[trigger] key_less(self.keys()[a], self.keys()[b]) by {
                    if b == i {
                    } else if a == i {
                        if b - 1 > i {
                            lemma_key_less_transitive(kv, pre.keys()[i as int], pre.keys()[b - 1]);
                        }
                    } else if a < i && b > i {
                        assert(key_less(pre.keys()[a], kv));
                        if b - 1 == i {
                            lemma_key_less_transitive(pre.keys()[a], kv, pre.keys()[b - 1]);
                        } else {
                            assert(key_less(pre.keys()[a], pre.keys()[b - 1]));
                        }
                    } else if a > i {
                        assert(key_less(pre.keys()[a - 1], pre.keys()[b - 1]));
                    } else {
                        assert(key_less(pre.keys()[a], pre.keys()[b]));
                    }
                }
                self.lemma_view();
                assert forall|key: Seq<char>| #[trigger] self.view().contains_key(key) implies
                    self.view()[key] == pre.view().insert(kv, v)[key] by {
                    let q = choose|q: int| 0 <= q < self.keys().len() && self.keys()[q] == key;
                    if q < i {
                        assert(self.keys()[q] == pre.keys()[q]);
                        assert(pre.view()[pre.keys()[q]] == pre.values()[q]);
                        lemma_key_less_irreflexive(kv);
                    } else if q > i {
                        assert(self.keys()[q] == pre.keys()[q - 1]);
                        assert(pre.view()[pre.keys()[q - 1]] == pre.values()[q - 1]);
                        if key == kv {
                            lemma_key_less_irreflexive(kv);
                            if q - 1 > i {
                                lemma_key_less_transitive(kv, pre.keys()[i as int], pre.keys()[q - 1]);
                            }
                        }
                    }
                }
                assert forall|key: Seq<char>| #[trigger] pre.view().insert(kv, v).contains_key(key) implies
                    self.view().contains_key(key) by {
                    if key != kv {
                        let q = choose|q: int| 0 <= q < pre.keys().len() && pre.keys()[q] == key;
                        if q < i {
                            assert(self.keys()[q] == key);
                        } else {
                            assert(self.keys()[q + 1] == key);
                        }
                    } else {
                        assert(self.keys()[i as int] == key);
                    }
                }
                assert(self.view() =~= pre.view().insert(kv, v));
            }
        }
    }

    /// Takes out the value under `k`, if there is one.
    pub fn remove(&mut self, k: &str) -> (r: Option<V>)
        requires
            old(self).wf(),
        ensures
            final(self).wf(),
            final(self).view() == old(self).view().remove(k@),
            r.is_some() == old(self).view().contains_key(k@),
            r.is_some() ==> r.unwrap() == old(self).view()[k@],
    {
        let ghost pre = *self;
        let present = self.get(k).is_some();
        if !present {
            proof {
                assert(pre.view() =~= pre.view().remove(k@));
            }
            return None;
        }
        let (i, found) = self.find(k);
        proof {
            pre.lemma_view();
            assert(found);
        }
        let e = self.entries.remove(i);
        proof {
            assert(self.keys() =~= pre.keys().remove(i as int));
            assert(self.values() =~= pre.values().remove(i as int));
            assert forall|a: int, b: int| 0 <= a < b < self.keys().len() implies
                #[trigger] key_less(self.keys()[a], self.keys()[b]) by {
                if a >= i {
                    assert(key_less(pre.keys()[a + 1], pre.keys()[b + 1]));
                } else if b >= i {
                    assert(key_less(pre.keys()[a], pre.keys()[b + 1]));
                } else {
                    assert(key_less(pre.keys()[a], pre.keys()[b]));
                }
            }
            self.lemma_view();
            assert forall|key: Seq<char>| #[trigger] self.view().contains_key(key) implies
                pre.view().remove(k@).contains_key(key) && self.view()[key] == pre.view()[key] by {
                let q = choose|q: int| 0 <= q < self.keys().len() && self.keys()[q] == key;
                if q < i {
                    assert(self.keys()[q] == pre.keys()[q]);
                    assert(pre.view()[pre.keys()[q]] == pre.values()[q]);
                    if key == k@ {
                        pre.lemma_unique(q, i as int);
                    }
                } else {
                    assert(self.keys()[q] == pre.keys()[q + 1]);
                    assert(pre.view()[pre.keys()[q + 1]] == pre.values()[q + 1]);
                    if key == k@ {
                        pre.lemma_unique(q + 1, i as int);
                    }
                }
            }
            assert forall|key: Seq<char>| #[trigger] pre.view().remove(k@).contains_key(key) implies
                self.view().contains_key(key) by {
                let q = choose|q: int| 0 <= q < pre.keys().len() && pre.keys()[q] == key;
                if q < i {
                    assert(self.keys()[q] == key);
                } else if q > i {
                    assert(self.keys()[q - 1] == key);
                }
            }
            assert(self.view() =~= pre.view().remove(k@));
        }
        Some(e.1)
    }
}

} // verus!

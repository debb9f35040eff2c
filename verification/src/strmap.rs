//! A map keyed by strings, kept as an association list with unique keys.
use vstd::prelude::*;
use crate::text::str_eq;

verus! {

/// The map an association list denotes: later entries win.
pub open spec fn assoc_map<V: View>(s: Seq<(String, V)>) -> Map<Seq<char>, V::V>
    decreases s.len(),
{
    if s.len() == 0 {
        Map::empty()
    } else {
        assoc_map(s.drop_last()).insert(s.last().0@, s.last().1@)
    }
}

/// No two entries share a key.
pub open spec fn keys_unique<V>(s: Seq<(String, V)>) -> bool {
    forall|i: int, j: int| 0 <= i < s.len() && 0 <= j < s.len() && i != j ==> #[trigger] s[i].0@ != #[trigger] s[j].0@
}

/// The keys of an association list, in order.
pub open spec fn assoc_keys<V>(s: Seq<(String, V)>) -> Seq<Seq<char>> {
    Seq::new(s.len(), |i: int| s[i].0@)
}

/// With unique keys, the denoted map holds exactly the listed entries.
pub proof fn lemma_assoc_map<V: View>(s: Seq<(String, V)>)
    requires
        keys_unique(s),
    ensures
        assoc_map(s).dom().finite(),
        assoc_map(s).dom().len() == s.len(),
        forall|k: Seq<char>| #[trigger] assoc_map(s).contains_key(k) <==> exists|i: int| 0 <= i < s.len() && s[i].0@ == k,
        forall|i: int| 0 <= i < s.len() ==> #[trigger] assoc_map(s)[s[i].0@] == s[i].1@,
    decreases s.len(),
{
    if s.len() > 0 {
        let p = s.drop_last();
        assert(keys_unique(p)) by {
            assert forall|a: int, b: int| 0 <= a < p.len() && 0 <= b < p.len() && a != b implies #[trigger] p[a].0@ != #[trigger] p[b].0@ by {
                assert(p[a] == s[a]);
                assert(p[b] == s[b]);
            }
        }
        lemma_assoc_map(p);
        let k = s.last().0@;
        assert(!assoc_map(p).contains_key(k)) by {
            if assoc_map(p).contains_key(k) {
                let i = choose|i: int| 0 <= i < p.len() && p[i].0@ == k;
                assert(s[i].0@ == s[s.len() - 1].0@);
            }
        }
        assert forall|k2: Seq<char>| #[trigger] assoc_map(s).contains_key(k2) <==> exists|i: int| 0 <= i < s.len() && s[i].0@ == k2 by {
            if assoc_map(s).contains_key(k2) && k2 != k {
                let i = choose|i: int| 0 <= i < p.len() && p[i].0@ == k2;
                assert(s[i].0@ == k2);
            }
            if exists|i: int| 0 <= i < s.len() && s[i].0@ == k2 {
                let i = choose|i: int| 0 <= i < s.len() && s[i].0@ == k2;
                if i < s.len() - 1 {
                    assert(p[i].0@ == k2);
                }
            }
        }
        assert forall|i: int| 0 <= i < s.len() implies #[trigger] assoc_map(s)[s[i].0@] == s[i].1@ by {
            if i < s.len() - 1 {
                assert(p[i] == s[i]);
                assert(s[i].0@ != k);
            }
        }
    }
}

/// Replacing the value of an existing entry updates that key only.
pub proof fn lemma_assoc_update<V: View>(s: Seq<(String, V)>, i: int, e: (String, V))
    requires
        keys_unique(s),
        0 <= i < s.len(),
        e.0@ == s[i].0@,
    ensures
        keys_unique(s.update(i, e)),
        assoc_map(s.update(i, e)) == assoc_map(s).insert(e.0@, e.1@),
{
    let t = s.update(i, e);
    assert(keys_unique(t)) by {
        assert forall|a: int, b: int| 0 <= a < t.len() && 0 <= b < t.len() && a != b implies #[trigger] t[a].0@ != #[trigger] t[b].0@ by {
            assert(t[a].0@ == s[a].0@);
            assert(t[b].0@ == s[b].0@);
        }
    }
    lemma_assoc_map(s);
    lemma_assoc_map(t);
    assert forall|k: Seq<char>| #[trigger] assoc_map(t).contains_key(k) <==> assoc_map(s).insert(e.0@, e.1@).contains_key(k) by {
        if assoc_map(s).contains_key(k) {
            let j = choose|j: int| 0 <= j < s.len() && s[j].0@ == k;
            assert(t[j].0@ == k);
        }
        if assoc_map(t).contains_key(k) {
            let j = choose|j: int| 0 <= j < t.len() && t[j].0@ == k;
            assert(s[j].0@ == k);
        }
    }
    assert forall|k: Seq<char>| #[trigger] assoc_map(t).contains_key(k) implies assoc_map(t)[k] == assoc_map(s).insert(e.0@, e.1@)[k] by {
        let j = choose|j: int| 0 <= j < t.len() && t[j].0@ == k;
        assert(assoc_map(t)[t[j].0@] == t[j].1@);
        if j != i {
            assert(s[j] == t[j]);
            assert(assoc_map(s)[s[j].0@] == s[j].1@);
        }
    }
    assert(assoc_map(t) =~= assoc_map(s).insert(e.0@, e.1@));
}

/// Removing an entry removes its key from the denoted map.
pub proof fn lemma_assoc_remove<V: View>(s: Seq<(String, V)>, i: int)
    requires
        keys_unique(s),
        0 <= i < s.len(),
    ensures
        keys_unique(s.remove(i)),
        assoc_map(s.remove(i)) == assoc_map(s).remove(s[i].0@),
{
    let t = s.remove(i);
    let k0 = s[i].0@;
    assert(keys_unique(t)) by {
        assert forall|a: int, b: int| 0 <= a < t.len() && 0 <= b < t.len() && a != b implies #[trigger] t[a].0@ != #[trigger] t[b].0@ by {
            let sa = if a < i { a } else { a + 1 };
            let sb = if b < i { b } else { b + 1 };
            assert(t[a] == s[sa]);
            assert(t[b] == s[sb]);
        }
    }
    lemma_assoc_map(s);
    lemma_assoc_map(t);
    assert forall|k: Seq<char>| #[trigger] assoc_map(t).contains_key(k) <==> assoc_map(s).remove(k0).contains_key(k) by {
        if assoc_map(t).contains_key(k) {
            let j = choose|j: int| 0 <= j < t.len() && t[j].0@ == k;
            let sj = if j < i { j } else { j + 1 };
            assert(t[j] == s[sj]);
            assert(s[sj].0@ == k);
        }
        if assoc_map(s).contains_key(k) && k != k0 {
            let j = choose|j: int| 0 <= j < s.len() && s[j].0@ == k;
            if j < i {
                assert(t[j] == s[j]);
            } else {
                assert(t[j - 1] == s[j]);
            }
        }
    }
    assert forall|k: Seq<char>| #[trigger] assoc_map(t).contains_key(k) implies assoc_map(t)[k] == assoc_map(s).remove(k0)[k] by {
        let j = choose|j: int| 0 <= j < t.len() && t[j].0@ == k;
        let sj = if j < i { j } else { j + 1 };
        assert(t[j] == s[sj]);
        assert(assoc_map(t)[t[j].0@] == t[j].1@);
        assert(assoc_map(s)[s[sj].0@] == s[sj].1@);
    }
    assert(assoc_map(t) =~= assoc_map(s).remove(k0));
}

/// Values that can be copied with the same model.
pub trait Duplicate: View + Sized {
    /// A copy with the same model.
    fn duplicate(&self) -> (r: Self)
        ensures
            r@ == self@,
    ;
}

impl Duplicate for String {
    fn duplicate(&self) -> (r: String) {
        self.clone()
    }
}

impl Duplicate for usize {
    fn duplicate(&self) -> (r: usize) {
        *self
    }
}

/// A map from strings to values; the order in which keys were first inserted is kept.
#[derive(Debug)]
pub struct StrMap<V> {
    entries: Vec<(String, V)>,
}

impl<V: View> View for StrMap<V> {
    type V = Map<Seq<char>, V::V>;

    closed spec fn view(&self) -> Map<Seq<char>, V::V> {
        assoc_map(self.entries@)
    }
}

impl<V> StrMap<V> {
    #[verifier::type_invariant]
    closed spec fn inv(&self) -> bool {
        keys_unique(self.entries@)
    }
}

impl<V: View> StrMap<V> {
    /// The keys, in insertion order.
    pub closed spec fn key_order(&self) -> Seq<Seq<char>> {
        assoc_keys(self.entries@)
    }

    /// The key order lists every key of the map once (a fact, no effect).
    pub fn key_order_facts(&self)
        ensures
            self@.dom().finite(),
            self.key_order().len() == self@.dom().len(),
            self.key_order().no_duplicates(),
            forall|k: Seq<char>| #[trigger] self@.contains_key(k) <==> self.key_order().contains(k),
    {
        proof {
        use_type_invariant(self);
        lemma_assoc_map(self.entries@);
        let ks = self.key_order();
        assert forall|k: Seq<char>| #[trigger] self@.contains_key(k) <==> ks.contains(k) by {
            if self@.contains_key(k) {
                let i = choose|i: int| 0 <= i < self.entries@.len() && self.entries@[i].0@ == k;
                assert(ks[i] == k);
            }
            if ks.contains(k) {
                let i = choose|i: int| 0 <= i < ks.len() && ks[i] == k;
                assert(self.entries@[i].0@ == k);
            }
        }
        }
    }

    /// An empty map.
    pub fn new() -> (r: Self)
        ensures
            r@ == Map::<Seq<char>, V::V>::empty(),
            r.key_order() == Seq::<Seq<char>>::empty(),
    {
        let r = StrMap { entries: Vec::new() };
        assert(r.key_order() =~= Seq::<Seq<char>>::empty());
        r
    }

    /// Number of keys.
    pub fn len(&self) -> (r: usize)
        ensures
            r == self@.dom().len(),
            r == self.key_order().len(),
    {
        proof {
            use_type_invariant(self);
            lemma_assoc_map(self.entries@);
        }
        self.entries.len()
    }

    /// Whether the map has no key.
    pub fn is_empty(&self) -> (r: bool)
        ensures
            r == (self@.dom().len() == 0),
            r == (self@ == Map::<Seq<char>, V::V>::empty()),
    {
        proof {
            use_type_invariant(self);
            lemma_assoc_map(self.entries@);
            if self.entries@.len() == 0 {
                assert(self@ =~= Map::<Seq<char>, V::V>::empty());
            } else {
                assert(self@.contains_key(self.entries@[0].0@));
            }
        }
        self.entries.len() == 0
    }

    /// Position of a key in the entry list.
    fn find(&self, key: &str) -> (r: Option<usize>)
        ensures
            match r {
                Some(i) => i < self.entries@.len() && self.entries@[i as int].0@ == key@,
                None => forall|j: int| 0 <= j < self.entries@.len() ==> self.entries@[j].0@ != key@,
            },
    {
        let mut i: usize = 0;
        while i < self.entries.len()
            invariant
                i <= self.entries@.len(),
                forall|j: int| 0 <= j < i ==> self.entries@[j].0@ != key@,
            decreases self.entries@.len() - i,
        {
            if str_eq(self.entries[i].0.as_str(), key) {
                return Some(i);
            }
            i = i + 1;
        }
        None
    }

    /// The value stored under a key.
    pub fn get(&self, key: &str) -> (r: Option<&V>)
        ensures
            match r {
                Some(v) => self@.contains_key(key@) && v@ == self@[key@],
                None => !self@.contains_key(key@),
            },
    {
        proof {
            use_type_invariant(self);
            lemma_assoc_map(self.entries@);
        }
        match self.find(key) {
            Some(i) => Some(&self.entries[i].1),
            None => None,
        }
    }

    /// Whether a key is present.
    pub fn contains_key(&self, key: &str) -> (r: bool)
        ensures
            r == self@.contains_key(key@),
    {
        proof {
            use_type_invariant(self);
            lemma_assoc_map(self.entries@);
        }
        self.find(key).is_some()
    }

    /// Stores a value under a key, replacing any earlier value; a new key goes last in the key order.
    pub fn insert(&mut self, key: String, value: V)
        ensures
            final(self)@ == old(self)@.insert(key@, value@),
            old(self)@.contains_key(key@) ==> final(self).key_order() == old(self).key_order(),
            !old(self)@.contains_key(key@) ==> final(self).key_order() == old(self).key_order().push(key@),
    {
        proof {
            use_type_invariant(&*self);
            lemma_assoc_map(self.entries@);
        }
        match self.find(key.as_str()) {
            Some(i) => {
                let ghost s = self.entries@;
                proof {
                    lemma_assoc_update(s, i as int, (key, value));
                    assert(assoc_keys(s.update(i as int, (key, value))) =~= assoc_keys(s));
                }
                let mut entries: Vec<(String, V)> = Vec::new();
                std::mem::swap(&mut entries, &mut self.entries);
                entries.set(i, (key, value));
                self.entries = entries;
            },
            None => {
                let ghost s = self.entries@;
                let ghost k = key@;
                proof {
                    let t = s.push((key, value));
                    assert(t.drop_last() == s);
                    assert(keys_unique(t)) by {
                        assert forall|a: int, b: int| 0 <= a < t.len() && 0 <= b < t.len() && a != b implies #[trigger] t[a].0@ != #[trigger] t[b].0@ by {
                            if a < s.len() {
                                assert(t[a] == s[a]);
                            }
                            if b < s.len() {
                                assert(t[b] == s[b]);
                            }
                        }
                    }
                    assert(assoc_keys(t) =~= assoc_keys(s).push(k));
                }
                let mut entries: Vec<(String, V)> = Vec::new();
                std::mem::swap(&mut entries, &mut self.entries);
                entries.push((key, value));
                self.entries = entries;
            },
        }
    }

    /// Removes a key and returns its value.
    pub fn remove(&mut self, key: &str) -> (r: Option<V>)
        ensures
            final(self)@ == old(self)@.remove(key@),
            match r {
                Some(v) => old(self)@.contains_key(key@) && v@ == old(self)@[key@],
                None => !old(self)@.contains_key(key@),
            },
    {
        proof {
            use_type_invariant(&*self);
            lemma_assoc_map(self.entries@);
        }
        match self.find(key) {
            Some(i) => {
                proof {
                    lemma_assoc_remove(self.entries@, i as int);
                }
                let mut entries: Vec<(String, V)> = Vec::new();
                std::mem::swap(&mut entries, &mut self.entries);
                let (_k, v) = entries.remove(i);
                self.entries = entries;
                Some(v)
            },
            None => {
                assert(old(self)@.remove(key@) =~= old(self)@);
                None
            },
        }
    }

    /// Removes every key.
    pub fn clear(&mut self)
        ensures
            final(self)@ == Map::<Seq<char>, V::V>::empty(),
            final(self).key_order() == Seq::<Seq<char>>::empty(),
    {
        self.entries = Vec::new();
        assert(self.key_order() =~= Seq::<Seq<char>>::empty());
    }

    /// The key at a position of the key order.
    pub fn key_at(&self, i: usize) -> (r: &String)
        requires
            i < self.key_order().len(),
        ensures
            r@ == self.key_order()[i as int],
    {
        &self.entries[i].0
    }

    /// The value at a position of the key order.
    pub fn value_at(&self, i: usize) -> (r: &V)
        requires
            i < self.key_order().len(),
        ensures
            self@.contains_key(self.key_order()[i as int]),
            r@ == self@[self.key_order()[i as int]],
    {
        proof {
            use_type_invariant(self);
            lemma_assoc_map(self.entries@);
        }
        &self.entries[i].1
    }
}

impl<V: Duplicate> StrMap<V> {
    /// A copy with the same model and key order.
    pub fn duplicate(&self) -> (r: Self)
        ensures
            r@ == self@,
            r.key_order() == self.key_order(),
    {
        proof {
            use_type_invariant(self);
        }
        let mut entries: Vec<(String, V)> = Vec::new();
        let mut i: usize = 0;
        while i < self.entries.len()
            invariant
                i <= self.entries@.len(),
                entries@.len() == i,
                keys_unique(self.entries@),
                forall|j: int| 0 <= j < i ==> (#[trigger] entries@[j]).0@ == self.entries@[j].0@
                    && entries@[j].1@ == self.entries@[j].1@,
            decreases self.entries@.len() - i,
        {
            let k = self.entries[i].0.clone();
            let v = self.entries[i].1.duplicate();
            entries.push((k, v));
            i = i + 1;
        }
        proof {
            assert(keys_unique(entries@)) by {
                assert forall|a: int, b: int| 0 <= a < entries@.len() && 0 <= b < entries@.len() && a != b implies #[trigger] entries@[a].0@ != #[trigger] entries@[b].0@ by {
                    assert(self.entries@[a].0@ != self.entries@[b].0@);
                }
            }
            lemma_same_entries(entries@, self.entries@);
            assert(assoc_keys(entries@) =~= assoc_keys(self.entries@));
        }
        StrMap { entries }
    }
}

/// Lists with the same keys and value models, position by position, denote the same map.
pub proof fn lemma_same_entries<V: View>(s: Seq<(String, V)>, t: Seq<(String, V)>)
    requires
        s.len() == t.len(),
        forall|j: int| 0 <= j < s.len() ==> (#[trigger] s[j]).0@ == t[j].0@ && s[j].1@ == t[j].1@,
    ensures
        assoc_map(s) == assoc_map(t),
    decreases s.len(),
{
    if s.len() > 0 {
        lemma_same_entries(s.drop_last(), t.drop_last());
    }
}

impl<V: Duplicate> Clone for StrMap<V> {
    fn clone(&self) -> (r: Self)
        ensures
            r@ == self@,
    {
        self.duplicate()
    }
}

} // verus!

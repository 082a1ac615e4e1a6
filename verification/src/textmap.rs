//! Maps from texts to values, kept in ascending order of the keys.

use vstd::prelude::*;

use crate::text;
use crate::text::Text;

verus! {

/// Lexicographic order of character sequences, which is also the order of
/// their UTF-8 encodings.
pub open spec fn text_lt(a: Text, b: Text) -> bool
    decreases a.len(),
{
    if b.len() == 0 {
        false
    } else if a.len() == 0 {
        true
    } else if a[0] != b[0] {
        a[0] < b[0]
    } else {
        text_lt(a.drop_first(), b.drop_first())
    }
}

pub proof fn lemma_lt_irreflexive(a: Text)
    ensures
        !text_lt(a, a),
    decreases a.len(),
{
    if a.len() > 0 {
        lemma_lt_irreflexive(a.drop_first());
    }
}

pub proof fn lemma_lt_transitive(a: Text, b: Text, c: Text)
    requires
        text_lt(a, b),
        text_lt(b, c),
    ensures
        text_lt(a, c),
    decreases a.len(),
{
    if a.len() > 0 && a[0] == b[0] && b[0] == c[0] {
        lemma_lt_transitive(a.drop_first(), b.drop_first(), c.drop_first());
    }
}

pub proof fn lemma_lt_total(a: Text, b: Text)
    requires
        a != b,
    ensures
        text_lt(a, b) || text_lt(b, a),
    decreases a.len(),
{
    if a.len() > 0 && b.len() > 0 {
        if a[0] == b[0] {
            if a.drop_first() == b.drop_first() {
                assert(a =~= seq![a[0]] + a.drop_first());
                assert(b =~= seq![b[0]] + b.drop_first());
            }
            lemma_lt_total(a.drop_first(), b.drop_first());
        }
    } else if a.len() == 0 && b.len() == 0 {
        assert(a =~= b);
    }
}

/// Whether `a` comes before `b`.
pub fn str_lt(a: &str, b: &str) -> (r: bool)
    ensures
        r == text_lt(a@, b@),
{
    let x = text::chars_of(a);
    let y = text::chars_of(b);
    let mut i: usize = 0;
    assert(x@.skip(0) =~= x@);
    assert(y@.skip(0) =~= y@);
    loop
        invariant
            i <= x@.len(),
            i <= y@.len(),
            text_lt(x@, y@) == text_lt(x@.skip(i as int), y@.skip(i as int)),
            x@ == a@,
            y@ == b@,
        decreases x@.len() - i,
    {
        if i == y.len() {
            return false;
        }
        if i == x.len() {
            return true;
        }
        if x[i] != y[i] {
            return x[i] < y[i];
        }
        proof {
            assert(x@.skip(i as int).drop_first() =~= x@.skip(i + 1));
            assert(y@.skip(i as int).drop_first() =~= y@.skip(i + 1));
        }
        i = i + 1;
    }
}

/// Keys in strictly ascending order.
pub open spec fn ascending(keys: Seq<Text>) -> bool {
    forall|i: int, j: int| 0 <= i < j < keys.len() ==> text_lt(#[trigger] keys[i], #[trigger] keys[j])
}

/// A map from strings to values, iterated in ascending order of the keys.
#[derive(Debug, PartialEq)]
pub struct TextMap<V> {
    keys: Vec<String>,
    values: Vec<V>,
}

/// The mapping that keys and values make up.
pub open spec fn zip_map<V>(keys: Seq<Text>, values: Seq<V>) -> Map<Text, V> {
    Map::new(|k: Text| keys.contains(k), |k: Text| values[keys.index_of(k)])
}

impl<V> View for TextMap<V> {
    type V = Map<Text, V>;

    closed spec fn view(&self) -> Map<Text, V> {
        zip_map(text::texts(self.keys@), self.values@)
    }
}

proof fn lemma_index_of(keys: Seq<Text>, i: int)
    requires
        ascending(keys),
        0 <= i < keys.len(),
    ensures
        keys.contains(keys[i]),
        keys.index_of(keys[i]) == i,
{
    let j = keys.index_of(keys[i]);
    assert(keys.contains(keys[i]));
    assert(0 <= j < keys.len() && keys[j] == keys[i]);
    if j != i {
        lemma_lt_irreflexive(keys[i]);
        if i < j {
            assert(text_lt(keys[i], keys[j]));
        } else {
            assert(text_lt(keys[j], keys[i]));
        }
    }
}

impl<V> TextMap<V> {
    /// The keys, in ascending order.
    pub closed spec fn spec_keys(self) -> Seq<Text> {
        text::texts(self.keys@)
    }

    pub closed spec fn wf(self) -> bool {
        &&& self.keys@.len() == self.values@.len()
        &&& ascending(text::texts(self.keys@))
    }

    /// The keys enumerate the domain in ascending order.
    pub proof fn lemma_keys(self)
        requires
            self.wf(),
        ensures
            ascending(self.spec_keys()),
            forall|k: Text| self@.dom().contains(k) <==> self.spec_keys().contains(k),
    {
    }

    pub fn new() -> (r: TextMap<V>)
        ensures
            r.wf(),
            r@ == Map::<Text, V>::empty(),
            r.spec_keys() == Seq::<Text>::empty(),
    {
        let r = TextMap { keys: Vec::new(), values: Vec::new() };
        assert(text::texts(r.keys@) =~= Seq::<Text>::empty());
        assert(r@ =~= Map::<Text, V>::empty());
        r
    }

    pub fn len(&self) -> (r: usize)
        ensures
            r == self.spec_keys().len(),
    {
        self.keys.len()
    }

    /// The key at position `i`.
    pub fn key_at(&self, i: usize) -> (r: &String)
        requires
            i < self.spec_keys().len(),
        ensures
            r@ == self.spec_keys()[i as int],
    {
        &self.keys[i]
    }

    /// The value at position `i`.
    pub fn value_at(&self, i: usize) -> (r: &V)
        requires
            self.wf(),
            i < self.spec_keys().len(),
        ensures
            self@.dom().contains(self.spec_keys()[i as int]),
            *r == self@[self.spec_keys()[i as int]],
    {
        proof {
            lemma_index_of(text::texts(self.keys@), i as int);
        }
        &self.values[i]
    }

    /// The position of the first key that does not come before `key`.
    fn lower_bound(&self, key: &str) -> (r: usize)
        requires
            self.wf(),
        ensures
            r <= self.keys@.len(),
            forall|i: int| 0 <= i < r ==> text_lt(#[trigger] text::texts(self.keys@)[i], key@),
            r < self.keys@.len() ==> !text_lt(text::texts(self.keys@)[r as int], key@),
    {
        let mut i: usize = 0;
        while i < self.keys.len()
            invariant
                i <= self.keys@.len(),
                forall|j: int| 0 <= j < i ==> text_lt(#[trigger] text::texts(self.keys@)[j], key@),
            decreases self.keys@.len() - i,
        {
            assert(text::texts(self.keys@)[i as int] == self.keys@[i as int]@);
            if !str_lt(self.keys[i].as_str(), key) {
                return i;
            }
            i = i + 1;
        }
        i
    }

    proof fn lemma_absent(self, key: Text, r: int)
        requires
            self.wf(),
            0 <= r <= self.keys@.len(),
            forall|i: int| 0 <= i < r ==> text_lt(#[trigger] text::texts(self.keys@)[i], key),
            r < self.keys@.len() ==> text_lt(key, text::texts(self.keys@)[r]),
        ensures
            !text::texts(self.keys@).contains(key),
    {
        let keys = text::texts(self.keys@);
        if keys.contains(key) {
            let i = keys.index_of(key);
            lemma_lt_irreflexive(key);
            if i > r {
                assert(text_lt(keys[r], keys[i]));
                lemma_lt_transitive(key, keys[r], keys[i]);
            }
        }
    }

    /// The value for `key`.
    pub fn get(&self, key: &str) -> (r: Option<&V>)
        requires
            self.wf(),
        ensures
            match r {
                Some(v) => self@.dom().contains(key@) && *v == self@[key@],
                None => !self@.dom().contains(key@),
            },
    {
        let i = self.lower_bound(key);
        if i < self.keys.len() && text::str_eq(self.keys[i].as_str(), key) {
            proof {
                assert(text::texts(self.keys@)[i as int] == key@);
                lemma_index_of(text::texts(self.keys@), i as int);
            }
            return Some(&self.values[i]);
        }
        proof {
            if i < self.keys@.len() {
                assert(text::texts(self.keys@)[i as int] == self.keys@[i as int]@);
                lemma_lt_total(text::texts(self.keys@)[i as int], key@);
            }
            self.lemma_absent(key@, i as int);
        }
        None
    }

    pub fn contains(&self, key: &str) -> (r: bool)
        requires
            self.wf(),
        ensures
            r == self@.dom().contains(key@),
    {
        self.get(key).is_some()
    }

    /// Sets the value for `key`.
    pub fn insert(&mut self, key: String, value: V)
        requires
            old(self).wf(),
        ensures
            final(self).wf(),
            final(self)@ == old(self)@.insert(key@, value),
    {
        let ghost before = *self;
        let ghost bk = text::texts(self.keys@);
        let i = self.lower_bound(key.as_str());
        if i < self.keys.len() && text::str_eq(self.keys[i].as_str(), key.as_str()) {
            self.values.set(i, value);
            proof {
                assert(bk[i as int] == key@);
                lemma_index_of(bk, i as int);
                assert forall|k: Text| bk.contains(k) && k != key@ implies bk.index_of(k) != i by {
                    assert(bk[bk.index_of(k)] == k);
                }
                assert(self@ =~= before@.insert(key@, value));
            }
            return;
        }
        proof {
            if i < self.keys@.len() {
                assert(bk[i as int] == self.keys@[i as int]@);
                lemma_lt_total(bk[i as int], key@);
            }
            self.lemma_absent(key@, i as int);
        }
        let ghost k = key@;
        self.keys.insert(i, key);
        self.values.insert(i, value);
        proof {
            let nk = text::texts(self.keys@);
            assert(nk =~= bk.insert(i as int, k));
            assert forall|a: int, b: int| 0 <= a < b < nk.len() implies text_lt(
                #[trigger] nk[a],
                #[trigger] nk[b],
            ) by {
                let aa = if a < i {
                    a
                } else {
                    a - 1
                };
                let bb = if b < i {
                    b
                } else {
                    b - 1
                };
                if a == i {
                    if bb > i {
                        assert(text_lt(bk[i as int], bk[bb]));
                        lemma_lt_transitive(k, bk[i as int], bk[bb]);
                    }
                } else if b == i {
                    assert(text_lt(bk[aa], k));
                } else {
                    assert(text_lt(bk[aa], bk[bb]));
                }
            }
            assert forall|x: Text| nk.contains(x) <==> (x == k || bk.contains(x)) by {
                if bk.contains(x) {
                    let j = bk.index_of(x);
                    assert(nk[if j < i {
                        j
                    } else {
                        j + 1
                    }] == x);
                }
                if x == k {
                    assert(nk[i as int] == x);
                }
                if nk.contains(x) && x != k {
                    let j = nk.index_of(x);
                    assert(bk[if j < i {
                        j
                    } else {
                        j - 1
                    }] == x);
                }
            }
            assert forall|x: Text| bk.contains(x) implies self.values@[nk.index_of(x)]
                == before.values@[bk.index_of(x)] by {
                let j = bk.index_of(x);
                let nj = if j < i {
                    j
                } else {
                    j + 1
                };
                assert(nk[nj] == x);
                lemma_index_of(nk, nj);
            }
            lemma_index_of(nk, i as int);
            assert(self@ =~= before@.insert(k, value));
        }
    }

    /// Adds a key that comes behind all others.
    pub fn push_last(&mut self, key: String, value: V)
        requires
            old(self).wf(),
            forall|i: int|
                0 <= i < old(self).spec_keys().len() ==> text_lt(
                    #[trigger] old(self).spec_keys()[i],
                    key@,
                ),
        ensures
            final(self).wf(),
            final(self).spec_keys() == old(self).spec_keys().push(key@),
            final(self)@ == old(self)@.insert(key@, value),
    {
        let ghost before = *self;
        let ghost bk = text::texts(self.keys@);
        self.keys.push(key);
        self.values.push(value);
        proof {
            let nk = text::texts(self.keys@);
            assert(nk =~= bk.push(key@));
            assert forall|a: int, b: int| 0 <= a < b < nk.len() implies text_lt(
                #[trigger] nk[a],
                #[trigger] nk[b],
            ) by {
                assert(nk[a] == bk[a]);
                assert(before.spec_keys()[a] == bk[a]);
                if b < bk.len() {
                    assert(nk[b] == bk[b]);
                    assert(before.spec_keys()[b] == bk[b]);
                    assert(text_lt(bk[a], bk[b]));
                } else {
                    assert(text_lt(before.spec_keys()[a], key@));
                }
            }
            lemma_index_of(nk, bk.len() as int);
            assert forall|x: Text| nk.contains(x) <==> (x == key@ || bk.contains(x)) by {
                if bk.contains(x) {
                    assert(nk[bk.index_of(x)] == x);
                }
                if x == key@ {
                    assert(nk[bk.len() as int] == x);
                }
                if nk.contains(x) && x != key@ {
                    assert(bk[nk.index_of(x)] == x);
                }
            }
            assert forall|x: Text| bk.contains(x) implies #[trigger] nk.index_of(x)
                == bk.index_of(x) by {
                assert(nk[bk.index_of(x)] == x);
                lemma_index_of(nk, bk.index_of(x));
            }
            assert forall|x: Text| bk.contains(x) implies x != key@ by {
                lemma_lt_irreflexive(key@);
                assert(text_lt(bk[bk.index_of(x)], key@));
            }
            assert(self@ =~= before@.insert(key@, value));
        }
    }

    /// Removes the value for `key`.
    pub fn remove(&mut self, key: &str)
        requires
            old(self).wf(),
        ensures
            final(self).wf(),
            final(self)@ == old(self)@.remove(key@),
    {
        let ghost before = *self;
        let ghost bk = text::texts(self.keys@);
        let i = self.lower_bound(key);
        if i < self.keys.len() && text::str_eq(self.keys[i].as_str(), key) {
            self.keys.remove(i);
            self.values.remove(i);
            proof {
                let nk = text::texts(self.keys@);
                assert(bk[i as int] == key@);
                assert(nk =~= bk.remove(i as int));
                assert forall|a: int, b: int| 0 <= a < b < nk.len() implies text_lt(
                    #[trigger] nk[a],
                    #[trigger] nk[b],
                ) by {
                    assert(text_lt(
                        bk[if a < i {
                            a
                        } else {
                            a + 1
                        }],
                        bk[if b < i {
                            b
                        } else {
                            b + 1
                        }],
                    ));
                }
                assert forall|x: Text| nk.contains(x) implies x != key@ && bk.contains(x)
                    && self.values@[nk.index_of(x)] == before.values@[bk.index_of(x)] by {
                    let j = nk.index_of(x);
                    let bj = if j < i {
                        j
                    } else {
                        j + 1
                    };
                    assert(bk[bj] == x);
                    lemma_index_of(bk, bj);
                    lemma_index_of(bk, i as int);
                }
                assert forall|x: Text| bk.contains(x) && x != key@ implies nk.contains(x) by {
                    let j = bk.index_of(x);
                    assert(nk[if j < i {
                        j
                    } else {
                        j - 1
                    }] == x);
                }
                assert(self@ =~= before@.remove(key@));
            }
            return;
        }
        proof {
            if i < self.keys@.len() {
                assert(text::texts(self.keys@)[i as int] == self.keys@[i as int]@);
                lemma_lt_total(text::texts(self.keys@)[i as int], key@);
            }
            self.lemma_absent(key@, i as int);
            assert(self@ =~= before@.remove(key@));
        }
    }
}

impl<V: Copy> TextMap<V> {
    /// A copy of the map.
    pub fn copy_values(&self) -> (r: TextMap<V>)
        ensures
            r@ == self@,
            r.spec_keys() == self.spec_keys(),
            self.wf() ==> r.wf(),
    {
        let mut values: Vec<V> = Vec::new();
        let mut i: usize = 0;
        while i < self.values.len()
            invariant
                i <= self.values@.len(),
                values@ == self.values@.take(i as int),
            decreases self.values@.len() - i,
        {
            values.push(self.values[i]);
            i = i + 1;
            assert(values@ =~= self.values@.take(i as int));
        }
        assert(values@ =~= self.values@);
        TextMap { keys: text::clone_strings(&self.keys), values }
    }
}

impl TextMap<String> {
    /// The mapping over character sequences.
    pub open spec fn text_map(self) -> Map<Text, Text> {
        self@.map_values(|s: String| s@)
    }

    /// A copy of the map.
    pub fn copy(&self) -> (r: TextMap<String>)
        ensures
            r@ == self@,
            r.spec_keys() == self.spec_keys(),
            self.wf() ==> r.wf(),
    {
        TextMap { keys: text::clone_strings(&self.keys), values: text::clone_strings(&self.values) }
    }
}

} // verus!

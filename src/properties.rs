//! The property map: text keys, each holding an ordered list of text values.

use vstd::prelude::*;

verus! {

/// The model of a property map: `(key, values)` entries in insertion order.
pub type Entries = Seq<(Seq<char>, Seq<Seq<char>>)>;

/// The index of the first entry under `key`, or -1 when there is none.
pub open spec fn key_index(e: Entries, key: Seq<char>) -> int
    decreases e.len(),
{
    if e.len() == 0 {
        -1
    } else if e[0].0 == key {
        0
    } else {
        let i = key_index(e.drop_first(), key);
        if i < 0 {
            -1
        } else {
            i + 1
        }
    }
}

/// The values stored under `key`.
pub open spec fn lookup(e: Entries, key: Seq<char>) -> Option<Seq<Seq<char>>> {
    let i = key_index(e, key);
    if i >= 0 {
        Some(e[i].1)
    } else {
        None
    }
}

/// The first value stored under `key`, if any.
pub open spec fn first_value(e: Entries, key: Seq<char>) -> Option<Seq<char>> {
    match lookup(e, key) {
        Some(values) => if values.len() > 0 {
            Some(values[0])
        } else {
            None
        },
        None => None,
    }
}

/// `e` with the values under `key` replaced by `values`; a new key goes last.
pub open spec fn with_values(e: Entries, key: Seq<char>, values: Seq<Seq<char>>) -> Entries {
    let i = key_index(e, key);
    if i >= 0 {
        e.update(i, (key, values))
    } else {
        e.push((key, values))
    }
}

/// `e` with `value` added after the values under `key`; a new key goes last.
pub open spec fn with_appended(e: Entries, key: Seq<char>, value: Seq<char>) -> Entries {
    let i = key_index(e, key);
    if i >= 0 {
        e.update(i, (key, e[i].1.push(value)))
    } else {
        e.push((key, seq![value]))
    }
}

/// `e` without any entry under `key`.
pub open spec fn without_key(e: Entries, key: Seq<char>) -> Entries
    decreases e.len(),
{
    if e.len() == 0 {
        e
    } else if e.last().0 == key {
        without_key(e.drop_last(), key)
    } else {
        without_key(e.drop_last(), key).push(e.last())
    }
}

/// No key occurs twice.
pub open spec fn unique_keys(e: Entries) -> bool {
    forall|i: int, j: int| 0 <= i < j < e.len() ==> e[i].0 != e[j].0
}

/// Characterises `key_index` by the first entry under `key`.
pub proof fn lemma_key_index(e: Entries, key: Seq<char>, i: int)
    requires
        0 <= i <= e.len(),
        forall|j: int| 0 <= j < i ==> #[trigger] e[j].0 != key,
        i == e.len() || e[i].0 == key,
    ensures
        key_index(e, key) == (if i == e.len() {
            -1
        } else {
            i
        }),
    decreases i,
{
    if i > 0 {
        let t = e.drop_first();
        assert forall|j: int| 0 <= j < i - 1 implies #[trigger] t[j].0 != key by {
            assert(t[j] == e[j + 1]);
        }
        lemma_key_index(t, key, i - 1);
    }
}

/// The index of a key is -1 or the first entry that holds it.
pub proof fn lemma_key_index_bounds(e: Entries, key: Seq<char>)
    ensures
        -1 <= key_index(e, key) < e.len(),
        key_index(e, key) >= 0 ==> e[key_index(e, key)].0 == key,
        forall|j: int|
            0 <= j < e.len() && (key_index(e, key) < 0 || j < key_index(e, key)) ==> #[trigger] e[j].0
                != key,
    decreases e.len(),
{
    if e.len() > 0 && e[0].0 != key {
        let t = e.drop_first();
        lemma_key_index_bounds(t, key);
        assert forall|j: int|
            0 <= j < e.len() && (key_index(e, key) < 0 || j < key_index(e, key)) implies #[trigger] e[j].0
            != key by {
            if j > 0 {
                assert(e[j] == t[j - 1]);
            }
        }
    }
}

/// Where a key stands after one more entry is added at the end.
pub proof fn lemma_key_index_push(d: Entries, x: (Seq<char>, Seq<Seq<char>>), key: Seq<char>)
    ensures
        key_index(d.push(x), key) == (if key_index(d, key) >= 0 {
            key_index(d, key)
        } else if x.0 == key {
            d.len() as int
        } else {
            -1
        }),
{
    let e = d.push(x);
    lemma_key_index_bounds(d, key);
    let i = key_index(d, key);
    if i >= 0 {
        assert forall|j: int| 0 <= j < i implies #[trigger] e[j].0 != key by {
            assert(e[j] == d[j]);
        }
        lemma_key_index(e, key, i);
    } else {
        assert(e[d.len() as int] == x);
        if x.0 == key {
            assert forall|j: int| 0 <= j < d.len() implies #[trigger] e[j].0 != key by {
                assert(e[j] == d[j]);
            }
            lemma_key_index(e, key, d.len() as int);
        } else {
            assert forall|j: int| 0 <= j < e.len() implies #[trigger] e[j].0 != key by {
                if j < d.len() {
                    assert(e[j] == d[j]);
                }
            }
            lemma_key_index(e, key, e.len() as int);
        }
    }
}

/// Removing a key leaves no entry under it and keeps every other entry.
pub proof fn lemma_without_key(e: Entries, key: Seq<char>)
    ensures
        key_index(without_key(e, key), key) == -1,
        forall|k: Seq<char>| k != key ==> lookup(#[trigger] without_key(e, key), k) == lookup(e, k),
        forall|k: Seq<char>|
            key_index(#[trigger] without_key(e, key), k) >= 0 ==> key_index(e, k) >= 0,
        unique_keys(e) ==> unique_keys(without_key(e, key)),
        key_index(e, key) < 0 ==> without_key(e, key) == e,
    decreases e.len(),
{
    if e.len() == 0 {
        return;
    }
    let d = e.drop_last();
    let x = e.last();
    assert(d.push(x) =~= e);
    lemma_without_key(d, key);
    let wd = without_key(d, key);
    lemma_key_index_push(d, x, key);
    if x.0 == key {
        assert forall|k: Seq<char>| k != key implies lookup(#[trigger] without_key(e, key), k)
            == lookup(e, k) by {
            lemma_key_index_push(d, x, k);
            lemma_key_index_bounds(d, k);
            assert(lookup(wd, k) == lookup(d, k));
            if key_index(d, k) >= 0 {
                assert(e[key_index(d, k)] == d[key_index(d, k)]);
            }
        }
        assert forall|k: Seq<char>| key_index(#[trigger] without_key(e, key), k) >= 0 implies key_index(
            e,
            k,
        ) >= 0 by {
            lemma_key_index_push(d, x, k);
        }
    } else {
        let w = wd.push(x);
        lemma_key_index_push(wd, x, key);
        assert forall|k: Seq<char>| k != key implies lookup(#[trigger] without_key(e, key), k)
            == lookup(e, k) by {
            lemma_key_index_push(d, x, k);
            lemma_key_index_push(wd, x, k);
            lemma_key_index_bounds(d, k);
            lemma_key_index_bounds(wd, k);
            assert(lookup(wd, k) == lookup(d, k));
            if key_index(wd, k) >= 0 {
                assert(w[key_index(wd, k)] == wd[key_index(wd, k)]);
                assert(e[key_index(d, k)] == d[key_index(d, k)]);
            }
        }
        assert forall|k: Seq<char>| key_index(#[trigger] without_key(e, key), k) >= 0 implies key_index(
            e,
            k,
        ) >= 0 by {
            lemma_key_index_push(d, x, k);
            lemma_key_index_push(wd, x, k);
        }
        if unique_keys(e) {
            assert(unique_keys(d));
            assert forall|i: int, j: int| 0 <= i < j < w.len() implies w[i].0 != w[j].0 by {
                if j == w.len() - 1 {
                    assert(w[i] == wd[i]);
                    lemma_key_index_bounds(wd, wd[i].0);
                    lemma_key_index_bounds(d, wd[i].0);
                    if w[i].0 == x.0 {
                        assert(key_index(wd, x.0) >= 0);
                        assert(key_index(d, x.0) >= 0);
                        assert(e[key_index(d, x.0)] == d[key_index(d, x.0)]);
                    }
                } else {
                    assert(w[i] == wd[i]);
                    assert(w[j] == wd[j]);
                }
            }
        }
        if key_index(e, key) < 0 {
            assert(w =~= e);
        }
    }
}

/// Storing values under a key: that key now holds them, every other key is
/// unchanged, and no key is duplicated.
pub proof fn lemma_with_values(e: Entries, key: Seq<char>, values: Seq<Seq<char>>)
    ensures
        lookup(with_values(e, key, values), key) == Some(values),
        forall|k: Seq<char>| k != key ==> lookup(#[trigger] with_values(e, key, values), k) == lookup(e, k),
        unique_keys(e) ==> unique_keys(with_values(e, key, values)),
{
    let w = with_values(e, key, values);
    lemma_key_index_bounds(e, key);
    let i = key_index(e, key);
    if i >= 0 {
        assert forall|j: int| 0 <= j < i implies #[trigger] w[j].0 != key by {
            assert(w[j] == e[j]);
        }
        lemma_key_index(w, key, i);
        assert forall|k: Seq<char>| k != key implies lookup(#[trigger] with_values(e, key, values), k)
            == lookup(e, k) by {
            lemma_key_index_bounds(e, k);
            let ik = key_index(e, k);
            if ik >= 0 {
                assert(ik != i);
                assert forall|j: int| 0 <= j < ik implies #[trigger] w[j].0 != k by {
                    if j != i {
                        assert(w[j] == e[j]);
                    }
                }
                lemma_key_index(w, k, ik);
            } else {
                assert forall|j: int| 0 <= j < w.len() implies #[trigger] w[j].0 != k by {
                    if j != i {
                        assert(w[j] == e[j]);
                    }
                }
                lemma_key_index(w, k, w.len() as int);
            }
        }
        if unique_keys(e) {
            assert forall|a: int, b: int| 0 <= a < b < w.len() implies w[a].0 != w[b].0 by {
                assert(w[a].0 == e[a].0);
                assert(w[b].0 == e[b].0);
            }
        }
    } else {
        lemma_key_index_push(e, (key, values), key);
        assert forall|k: Seq<char>| k != key implies lookup(#[trigger] with_values(e, key, values), k)
            == lookup(e, k) by {
            lemma_key_index_push(e, (key, values), k);
            lemma_key_index_bounds(e, k);
            if key_index(e, k) >= 0 {
                assert(w[key_index(e, k)] == e[key_index(e, k)]);
            }
        }
        if unique_keys(e) {
            assert forall|a: int, b: int| 0 <= a < b < w.len() implies w[a].0 != w[b].0 by {
                if b == e.len() {
                    assert(w[a] == e[a]);
                } else {
                    assert(w[a] == e[a]);
                    assert(w[b] == e[b]);
                }
            }
        }
    }
}

/// Storing the same values under a key a second time changes nothing.
pub proof fn lemma_with_values_twice(e: Entries, key: Seq<char>, values: Seq<Seq<char>>)
    ensures
        with_values(with_values(e, key, values), key, values) == with_values(e, key, values),
{
    let w = with_values(e, key, values);
    lemma_with_values(e, key, values);
    lemma_key_index_bounds(w, key);
    let i = key_index(w, key);
    assert(w[i] == (key, values));
    assert(w.update(i, (key, values)) =~= w);
}

struct Property {
    key: String,
    values: Vec<String>,
}

impl View for Property {
    type V = (Seq<char>, Seq<Seq<char>>);

    closed spec fn view(&self) -> (Seq<char>, Seq<Seq<char>>) {
        (self.key@, self.values@.map_values(|v: String| v@))
    }
}

fn clone_values(values: &Vec<String>) -> (r: Vec<String>)
    ensures
        r@.map_values(|v: String| v@) == values@.map_values(|v: String| v@),
{
    let mut r: Vec<String> = Vec::new();
    let mut i: usize = 0;
    while i < values.len()
        invariant
            i <= values.len(),
            r@.len() == i,
            forall|k: int| 0 <= k < i ==> (#[trigger] r@[k])@ == values@[k]@,
        decreases values.len() - i,
    {
        r.push(values[i].clone());
        i = i + 1;
    }
    assert(r@.map_values(|v: String| v@) =~= values@.map_values(|v: String| v@));
    r
}

impl Property {
    fn duplicate(&self) -> (r: Property)
        ensures
            r@ == self@,
    {
        Property { key: self.key.clone(), values: clone_values(&self.values) }
    }
}

/// A map from text keys to ordered lists of text values. Keys are compared
/// exactly (case matters) and listed in the order they were first stored.
pub struct PropertyMap {
    entries: Vec<Property>,
}

impl View for PropertyMap {
    type V = Entries;

    closed spec fn view(&self) -> Entries {
        self.entries@.map_values(|p: Property| p@)
    }
}

impl PropertyMap {
    /// An empty map.
    pub fn new() -> (r: PropertyMap)
        ensures
            r@ == Seq::<(Seq<char>, Seq<Seq<char>>)>::empty(),
    {
        let r = PropertyMap { entries: Vec::new() };
        assert(r@ =~= Seq::<(Seq<char>, Seq<Seq<char>>)>::empty());
        r
    }

    fn index_of(&self, key: &str) -> (r: Option<usize>)
        ensures
            match r {
                Some(i) => i < self@.len() && i == key_index(self@, key@),
                None => key_index(self@, key@) == -1,
            },
    {
        let k = key.to_owned();
        let mut i: usize = 0;
        while i < self.entries.len()
            invariant
                i <= self.entries@.len(),
                k@ == key@,
                forall|j: int| 0 <= j < i ==> #[trigger] self@[j].0 != key@,
            decreases self.entries@.len() - i,
        {
            if self.entries[i].key == k {
                proof {
                    lemma_key_index(self@, key@, i as int);
                }
                return Some(i);
            }
            i = i + 1;
        }
        proof {
            lemma_key_index(self@, key@, i as int);
        }
        None
    }

    /// All values stored under `key`, in order; empty when it is unset.
    pub fn get(&self, key: &str) -> (r: Vec<String>)
        ensures
            r@.map_values(|v: String| v@) == match lookup(self@, key@) {
                Some(values) => values,
                None => Seq::empty(),
            },
    {
        match self.index_of(key) {
            Some(i) => clone_values(&self.entries[i].values),
            None => {
                let r: Vec<String> = Vec::new();
                assert(r@.map_values(|v: String| v@) =~= Seq::empty());
                r
            },
        }
    }

    /// The first value stored under `key`, if any.
    pub fn first(&self, key: &str) -> (r: Option<String>)
        ensures
            match r {
                Some(s) => first_value(self@, key@) == Some(s@),
                None => first_value(self@, key@) is None,
            },
    {
        match self.index_of(key) {
            Some(i) => {
                let values = &self.entries[i].values;
                if values.len() > 0 {
                    assert(self@[i as int].1[0] == values@[0]@);
                    Some(values[0].clone())
                } else {
                    None
                }
            },
            None => None,
        }
    }

    /// The keys, in the order in which they were first stored.
    pub fn keys(&self) -> (r: Vec<String>)
        ensures
            r@.map_values(|v: String| v@) == self@.map_values(
                |p: (Seq<char>, Seq<Seq<char>>)| p.0,
            ),
    {
        let mut r: Vec<String> = Vec::new();
        let mut i: usize = 0;
        while i < self.entries.len()
            invariant
                i <= self.entries@.len(),
                r@.len() == i,
                forall|k: int| 0 <= k < i ==> (#[trigger] r@[k])@ == self@[k].0,
            decreases self.entries@.len() - i,
        {
            r.push(self.entries[i].key.clone());
            i = i + 1;
        }
        assert(r@.map_values(|v: String| v@) =~= self@.map_values(
            |p: (Seq<char>, Seq<Seq<char>>)| p.0,
        ));
        r
    }

    /// Replaces whatever `key` holds by the single value `value`.
    pub fn set(&mut self, key: &str, value: &str)
        ensures
            final(self)@ == with_values(old(self)@, key@, seq![value@]),
            unique_keys(old(self)@) ==> unique_keys(final(self)@),
    {
        let mut values: Vec<String> = Vec::new();
        values.push(value.to_owned());
        let p = Property { key: key.to_owned(), values };
        assert(p@.1 =~= seq![value@]);
        match self.index_of(key) {
            Some(i) => {
                self.entries.set(i, p);
            },
            None => {
                self.entries.push(p);
            },
        }
        assert(self@ =~= with_values(old(self)@, key@, seq![value@]));
        proof {
            lemma_with_values(old(self)@, key@, seq![value@]);
        }
    }

    /// Adds `value` after the values of `key`, creating the key if needed.
    pub fn append(&mut self, key: &str, value: &str)
        ensures
            final(self)@ == with_appended(old(self)@, key@, value@),
            unique_keys(old(self)@) ==> unique_keys(final(self)@),
    {
        match self.index_of(key) {
            Some(i) => {
                let mut values = clone_values(&self.entries[i].values);
                values.push(value.to_owned());
                let p = Property { key: key.to_owned(), values };
                assert(p@.1 =~= old(self)@[i as int].1.push(value@));
                self.entries.set(i, p);
            },
            None => {
                let mut values: Vec<String> = Vec::new();
                values.push(value.to_owned());
                let p = Property { key: key.to_owned(), values };
                assert(p@.1 =~= seq![value@]);
                self.entries.push(p);
            },
        }
        assert(self@ =~= with_appended(old(self)@, key@, value@));
        proof {
            let e = old(self)@;
            let i = key_index(e, key@);
            if i >= 0 {
                lemma_with_values(e, key@, e[i].1.push(value@));
            } else {
                lemma_with_values(e, key@, seq![value@]);
            }
        }
    }

    /// Removes `key` and all its values.
    pub fn remove(&mut self, key: &str)
        ensures
            final(self)@ == without_key(old(self)@, key@),
            unique_keys(old(self)@) ==> unique_keys(final(self)@),
    {
        let k = key.to_owned();
        let mut kept: Vec<Property> = Vec::new();
        let mut i: usize = 0;
        while i < self.entries.len()
            invariant
                i <= self.entries@.len(),
                k@ == key@,
                kept@.map_values(|p: Property| p@) == without_key(
                    self@.subrange(0, i as int),
                    key@,
                ),
            decreases self.entries@.len() - i,
        {
            let ghost before = self@.subrange(0, i as int);
            assert(self@.subrange(0, i + 1).drop_last() =~= before);
            if !(self.entries[i].key == k) {
                kept.push(self.entries[i].duplicate());
                assert(kept@.map_values(|p: Property| p@) =~= without_key(before, key@).push(
                    self@[i as int],
                ));
            }
            i = i + 1;
        }
        assert(self@.subrange(0, i as int) =~= self@);
        proof {
            lemma_without_key(self@, key@);
        }
        self.entries = kept;
    }
}

} // verus!

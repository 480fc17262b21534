//! Insertion-ordered maps and sets keyed by strings.
use vstd::prelude::*;

use crate::text::str_eq;

verus! {

/// Index of the first entry whose key is `k`, if any.
pub open spec fn entry_index<V>(s: Seq<(Seq<char>, V)>, k: Seq<char>) -> Option<int>
    decreases s.len(),
{
    if s.len() == 0 {
        None
    } else {
        match entry_index(s.drop_last(), k) {
            Some(i) => Some(i),
            None => if s.last().0 == k {
                Some(s.len() - 1)
            } else {
                None
            },
        }
    }
}

/// The value stored under key `k`, if any.
pub open spec fn entry_get<V>(s: Seq<(Seq<char>, V)>, k: Seq<char>) -> Option<V> {
    match entry_index(s, k) {
        Some(i) => Some(s[i].1),
        None => None,
    }
}

/// The entries after inserting `(k, v)`: an existing key keeps its position and
/// takes the new value, a new key is appended.
pub open spec fn entry_insert<V>(s: Seq<(Seq<char>, V)>, k: Seq<char>, v: V) -> Seq<(Seq<char>, V)> {
    match entry_index(s, k) {
        Some(i) => s.update(i, (k, v)),
        None => s.push((k, v)),
    }
}

/// The keys of a sequence of entries.
pub open spec fn entry_keys<V>(s: Seq<(Seq<char>, V)>) -> Seq<Seq<char>> {
    s.map_values(|e: (Seq<char>, V)| e.0)
}

/// Facts about `entry_index`.
pub proof fn lemma_entry_index<V>(s: Seq<(Seq<char>, V)>, k: Seq<char>)
    ensures
        entry_index(s, k) matches Some(i) ==> 0 <= i < s.len() && s[i].0 == k && forall|j: int|
            0 <= j < i ==> s[j].0 != k,
        entry_index(s, k) is None ==> forall|j: int| 0 <= j < s.len() ==> s[j].0 != k,
    decreases s.len(),
{
    if s.len() > 0 {
        let t = s.drop_last();
        lemma_entry_index(t, k);
        assert(forall|j: int| 0 <= j < t.len() ==> t[j] == s[j]);
    }
}

/// An entry index is characterized by being the first entry with the key.
pub proof fn lemma_entry_index_intro<V>(s: Seq<(Seq<char>, V)>, k: Seq<char>, i: int)
    requires
        0 <= i < s.len(),
        s[i].0 == k,
        forall|j: int| 0 <= j < i ==> s[j].0 != k,
    ensures
        entry_index(s, k) == Some(i),
{
    lemma_entry_index(s, k);
    match entry_index(s, k) {
        Some(m) => {
            if m < i {
            } else if i < m {
            }
        },
        None => {},
    }
}

/// No entry has key `k`.
pub proof fn lemma_entry_index_none<V>(s: Seq<(Seq<char>, V)>, k: Seq<char>)
    requires
        forall|j: int| 0 <= j < s.len() ==> s[j].0 != k,
    ensures
        entry_index(s, k) is None,
{
    lemma_entry_index(s, k);
}

/// The entries with every value mapped through `g`.
pub open spec fn entry_map_values<V, W>(s: Seq<(Seq<char>, V)>, g: spec_fn(V) -> W) -> Seq<(Seq<char>, W)> {
    s.map_values(|e: (Seq<char>, V)| (e.0, g(e.1)))
}

/// Mapping values does not change which entry a key selects.
pub proof fn lemma_entry_index_map<V, W>(s: Seq<(Seq<char>, V)>, g: spec_fn(V) -> W, k: Seq<char>)
    ensures
        entry_index(entry_map_values(s, g), k) == entry_index(s, k),
{
    let t = entry_map_values(s, g);
    lemma_entry_index(s, k);
    match entry_index(s, k) {
        Some(i) => {
            lemma_entry_index_intro(t, k, i);
        },
        None => {
            lemma_entry_index_none(t, k);
        },
    }
}

/// Inserting commutes with mapping values.
pub proof fn lemma_entry_insert_map<V, W>(
    s: Seq<(Seq<char>, V)>,
    g: spec_fn(V) -> W,
    k: Seq<char>,
    v: V,
)
    ensures
        entry_map_values(entry_insert(s, k, v), g) == entry_insert(entry_map_values(s, g), k, g(v)),
{
    lemma_entry_index_map(s, g, k);
    lemma_entry_index(s, k);
    assert(entry_map_values(entry_insert(s, k, v), g) =~= entry_insert(entry_map_values(s, g), k, g(v)));
}

/// Every entry of `b` inserted, in order, into `a`, with values mapped through `f`.
pub open spec fn entries_append<V>(
    a: Seq<(Seq<char>, V)>,
    b: Seq<(Seq<char>, V)>,
    f: spec_fn(V) -> V,
) -> Seq<(Seq<char>, V)>
    decreases b.len(),
{
    if b.len() == 0 {
        a
    } else {
        entry_insert(entries_append(a, b.drop_last(), f), b.last().0, f(b.last().1))
    }
}

/// One more step of `entries_append` over a prefix of `b`.
pub proof fn lemma_entries_append_step<V>(
    a: Seq<(Seq<char>, V)>,
    b: Seq<(Seq<char>, V)>,
    f: spec_fn(V) -> V,
    i: int,
)
    requires
        0 <= i < b.len(),
    ensures
        entries_append(a, b.take(i + 1), f) == entry_insert(
            entries_append(a, b.take(i), f),
            b[i].0,
            f(b[i].1),
        ),
{
    assert(b.take(i + 1).drop_last() =~= b.take(i));
}

/// Reading a key after an insert.
pub proof fn lemma_entry_get_insert<V>(s: Seq<(Seq<char>, V)>, k: Seq<char>, v: V, k2: Seq<char>)
    ensures
        entry_get(entry_insert(s, k, v), k2) == (if k2 == k {
            Some(v)
        } else {
            entry_get(s, k2)
        }),
{
    let t = entry_insert(s, k, v);
    lemma_entry_index(s, k);
    lemma_entry_index(s, k2);
    match entry_index(s, k) {
        Some(i) => {
            assert(t == s.update(i, (k, v)));
            if k2 == k {
                lemma_entry_index_intro(t, k, i);
            } else {
                match entry_index(s, k2) {
                    Some(i2) => {
                        lemma_entry_index_intro(t, k2, i2);
                    },
                    None => {
                        lemma_entry_index_none(t, k2);
                    },
                }
            }
        },
        None => {
            assert(t == s.push((k, v)));
            if k2 == k {
                lemma_entry_index_intro(t, k, s.len() as int);
            } else {
                match entry_index(s, k2) {
                    Some(i2) => {
                        lemma_entry_index_intro(t, k2, i2);
                    },
                    None => {
                        lemma_entry_index_none(t, k2);
                    },
                }
            }
        },
    }
}

/// The keys after an insert.
pub proof fn lemma_entry_keys_insert<V>(s: Seq<(Seq<char>, V)>, k: Seq<char>, v: V)
    ensures
        entry_keys(entry_insert(s, k, v)) == set_insert(entry_keys(s), k),
{
    lemma_entry_index(s, k);
    match entry_index(s, k) {
        Some(i) => {
            assert(entry_keys(s)[i] == k);
            assert(entry_keys(s).contains(k));
            assert(entry_keys(s.update(i, (k, v))) =~= entry_keys(s));
        },
        None => {
            if entry_keys(s).contains(k) {
                let j = choose|j: int| 0 <= j < entry_keys(s).len() && entry_keys(s)[j] == k;
                assert(s[j].0 == k);
            }
            assert(entry_keys(s.push((k, v))) =~= entry_keys(s).push(k));
        },
    }
}

/// A key with a value is one of the keys.
pub proof fn lemma_entry_get_keys<V>(s: Seq<(Seq<char>, V)>, k: Seq<char>)
    ensures
        entry_get(s, k) is Some <==> entry_keys(s).contains(k),
{
    lemma_entry_index(s, k);
    match entry_index(s, k) {
        Some(i) => {
            assert(entry_keys(s)[i] == k);
        },
        None => {
            if entry_keys(s).contains(k) {
                let j = choose|j: int| 0 <= j < entry_keys(s).len() && entry_keys(s)[j] == k;
                assert(s[j].0 == k);
            }
        },
    }
}

/// No key occurs twice.
pub open spec fn keys_unique<V>(s: Seq<(Seq<char>, V)>) -> bool {
    forall|i: int, j: int| 0 <= i < j < s.len() ==> s[i].0 != s[j].0
}

/// Inserting keeps keys unique.
pub proof fn lemma_keys_unique_insert<V>(s: Seq<(Seq<char>, V)>, k: Seq<char>, v: V)
    requires
        keys_unique(s),
    ensures
        keys_unique(entry_insert(s, k, v)),
{
    lemma_entry_index(s, k);
}

/// The keys and values after inserting every entry of `b` (whose keys are unique)
/// into `a`.
pub proof fn lemma_entries_append_get<V>(a: Seq<(Seq<char>, V)>, b: Seq<(Seq<char>, V)>, k: Seq<char>)
    requires
        keys_unique(b),
    ensures
        entry_keys(entries_append(a, b, |v: V| v)) == set_append(entry_keys(a), entry_keys(b)),
        entry_get(entries_append(a, b, |v: V| v), k) == (if entry_keys(b).contains(k) {
            entry_get(b, k)
        } else {
            entry_get(a, k)
        }),
    decreases b.len(),
{
    if b.len() > 0 {
        let b2 = b.drop_last();
        lemma_entries_append_get(a, b2, k);
        let m = entries_append(a, b2, |v: V| v);
        lemma_entry_keys_insert(m, b.last().0, b.last().1);
        lemma_entry_get_insert(m, b.last().0, b.last().1, k);
        lemma_entry_keys_insert(b2, b.last().0, b.last().1);
        assert(entry_keys(b) =~= entry_keys(b2).push(b.last().0));
        assert(entry_keys(b).drop_last() =~= entry_keys(b2));
        lemma_entry_get_keys(b, k);
        lemma_entry_get_keys(b2, k);
        // The value of `k` in `b`: its last entry wins only when it is the first with that key.
        lemma_entry_index(b, k);
        lemma_entry_index(b2, k);
        if k != b.last().0 {
            if entry_keys(b2).contains(k) {
                let i = entry_index(b2, k)->0;
                lemma_entry_index_intro(b, k, i);
            } else {
                lemma_entry_index_none(b, k);
            }
        } else {
            lemma_entry_index_intro(b, k, b.len() - 1);
        }
    } else {
        assert(entry_keys(b) =~= Seq::<Seq<char>>::empty());
    }
}

/// An insertion-ordered map from strings to values.
pub struct OrderedMap<V> {
    entries: Vec<(String, V)>,
}

impl<V> View for OrderedMap<V> {
    type V = Seq<(Seq<char>, V)>;

    closed spec fn view(&self) -> Seq<(Seq<char>, V)> {
        self.entries@.map_values(|e: (String, V)| (e.0@, e.1))
    }
}

impl<V> OrderedMap<V> {
    /// An empty map.
    pub fn new() -> (m: Self)
        ensures
            m@ == Seq::<(Seq<char>, V)>::empty(),
    {
        let m = OrderedMap { entries: Vec::new() };
        assert(m@ =~= Seq::<(Seq<char>, V)>::empty());
        m
    }

    /// Number of entries.
    pub fn len(&self) -> (n: usize)
        ensures
            n == self@.len(),
    {
        self.entries.len()
    }

    /// Is the map empty?
    pub fn is_empty(&self) -> (b: bool)
        ensures
            b == (self@.len() == 0),
    {
        self.entries.len() == 0
    }

    /// Index of the entry with the given key.
    pub fn index_of(&self, key: &str) -> (r: Option<usize>)
        ensures
            r matches Some(i) ==> entry_index(self@, key@) == Some(i as int),
            r is None ==> entry_index(self@, key@) is None,
    {
        let mut i: usize = 0;
        while i < self.entries.len()
            invariant
                i <= self@.len(),
                self@.len() == self.entries@.len(),
                forall|j: int| 0 <= j < i ==> self@[j].0 != key@,
            decreases self.entries.len() - i,
        {
            if str_eq(self.entries[i].0.as_str(), key) {
                proof {
                    lemma_entry_index_intro(self@, key@, i as int);
                }
                return Some(i);
            }
            i = i + 1;
        }
        proof {
            lemma_entry_index_none(self@, key@);
        }
        None
    }

    /// Does the map contain the key?
    pub fn contains_key(&self, key: &str) -> (b: bool)
        ensures
            b == (entry_index(self@, key@) is Some),
    {
        self.index_of(key).is_some()
    }

    /// The key at an index.
    pub fn key_at(&self, i: usize) -> (k: &String)
        requires
            i < self@.len(),
        ensures
            k@ == self@[i as int].0,
    {
        &self.entries[i].0
    }

    /// The value at an index.
    pub fn value_at(&self, i: usize) -> (v: &V)
        requires
            i < self@.len(),
        ensures
            *v == self@[i as int].1,
    {
        &self.entries[i].1
    }

    /// Mutable access to the value at an index.
    pub fn value_at_mut(&mut self, i: usize) -> (v: &mut V)
        requires
            i < old(self)@.len(),
        ensures
            *v == old(self)@[i as int].1,
            final(self)@ == old(self)@.update(i as int, (old(self)@[i as int].0, *final(v))),
    {
        let r = &mut self.entries[i].1;
        r
    }

    /// Look up the value stored under a key.
    pub fn get(&self, key: &str) -> (r: Option<&V>)
        ensures
            r matches Some(v) ==> entry_get(self@, key@) == Some(*v),
            r is None ==> entry_get(self@, key@) is None,
    {
        match self.index_of(key) {
            Some(i) => {
                proof {
                    lemma_entry_index(self@, key@);
                }
                Some(&self.entries[i].1)
            },
            None => None,
        }
    }

    /// Replace the value at an index.
    pub fn set_value_at(&mut self, i: usize, value: V)
        requires
            i < old(self)@.len(),
        ensures
            final(self)@ == old(self)@.update(i as int, (old(self)@[i as int].0, value)),
    {
        let key = self.entries[i].0.clone();
        self.entries.set(i, (key, value));
        assert(self@ =~= old(self)@.update(i as int, (old(self)@[i as int].0, value)));
    }

    /// Insert a value: an existing key keeps its position and takes the new value,
    /// a new key is appended.
    pub fn insert(&mut self, key: String, value: V)
        ensures
            final(self)@ == entry_insert(old(self)@, key@, value),
    {
        match self.index_of(key.as_str()) {
            Some(i) => {
                proof {
                    lemma_entry_index(self@, key@);
                }
                self.entries.set(i, (key, value));
                assert(self@ =~= old(self)@.update(i as int, (key@, value)));
            },
            None => {
                self.entries.push((key, value));
                assert(self@ =~= old(self)@.push((key@, value)));
            },
        }
    }

    /// Insert every entry of `other`, in order.
    pub fn extend_from(&mut self, other: OrderedMap<V>)
        ensures
            final(self)@ == entries_append(old(self)@, other@, |v: V| v),
    {
        let mut rest = other.entries;
        let ghost all = other@;
        let n = rest.len();
        let mut i: usize = 0;
        while i < n
            invariant
                n == all.len(),
                i <= n,
                rest@.len() == n - i,
                forall|j: int| 0 <= j < rest@.len() ==> (#[trigger] rest@[j]).0@ == all[i + j].0 && rest@[j].1 == all[i + j].1,
                self@ == entries_append(old(self)@, all.take(i as int), |v: V| v),
            decreases n - i,
        {
            let (k, v) = rest.remove(0);
            proof {
                lemma_entries_append_step(old(self)@, all, |v: V| v, i as int);
            }
            self.insert(k, v);
            i = i + 1;
        }
        assert(all.take(n as int) =~= all);
    }
}

/// The elements of a string set after inserting `k`: new elements are appended.
pub open spec fn set_insert(s: Seq<Seq<char>>, k: Seq<char>) -> Seq<Seq<char>> {
    if s.contains(k) {
        s
    } else {
        s.push(k)
    }
}

/// Every string of `b` inserted, in order, into the set elements `a`.
pub open spec fn set_append(a: Seq<Seq<char>>, b: Seq<Seq<char>>) -> Seq<Seq<char>>
    decreases b.len(),
{
    if b.len() == 0 {
        a
    } else {
        set_insert(set_append(a, b.drop_last()), b.last())
    }
}

/// Inserting into a set keeps its strings distinct, and inserting a string a second
/// time changes nothing.
pub proof fn law_set_insert_distinct_and_idempotent(s: Seq<Seq<char>>, k: Seq<char>)
    requires
        s.no_duplicates(),
    ensures
        set_insert(s, k).no_duplicates(),
        set_insert(set_insert(s, k), k) == set_insert(s, k),
        set_insert(s, k).contains(k),
{
    if !s.contains(k) {
        let t = s.push(k);
        assert(t[s.len() as int] == k);
        assert forall|i: int, j: int| 0 <= i < t.len() && 0 <= j < t.len() && i != j implies t[i] != t[j] by {
            if i < s.len() && j < s.len() {
                assert(t[i] == s[i] && t[j] == s[j]);
            } else if i == s.len() {
                assert(t[j] == s[j]);
                assert(s[j] != k);
            } else {
                assert(t[i] == s[i]);
                assert(s[i] != k);
            }
        }
        assert(t.contains(k));
    }
}

/// Appending one set to another keeps the strings distinct.
pub proof fn law_set_append_distinct(a: Seq<Seq<char>>, b: Seq<Seq<char>>)
    requires
        a.no_duplicates(),
    ensures
        set_append(a, b).no_duplicates(),
    decreases b.len(),
{
    if b.len() > 0 {
        law_set_append_distinct(a, b.drop_last());
        law_set_insert_distinct_and_idempotent(set_append(a, b.drop_last()), b.last());
    }
}

/// The `indexmap` crate's insertion-ordered hash set; Verus sees nothing inside it.
#[verifier::external_type_specification]
#[verifier::external_body]
#[verifier::reject_recursive_types(T)]
#[verifier::reject_recursive_types(S)]
pub struct ExIndexSet<T, S>(indexmap::IndexSet<T, S>);

/// The strings an `indexmap::IndexSet<String>` holds, in insertion order.
pub uninterp spec fn index_set_items(s: indexmap::IndexSet<String>) -> Seq<Seq<char>>;

/// `IndexSet::new`: a new set holds nothing.
#[verifier::external_body]
fn index_set_new() -> (s: indexmap::IndexSet<String>)
    ensures
        index_set_items(s) == Seq::<Seq<char>>::empty(),
{
    indexmap::IndexSet::new()
}

/// `IndexSet::len`: the number of items held.
#[verifier::external_body]
fn index_set_len(s: &indexmap::IndexSet<String>) -> (n: usize)
    ensures
        n == index_set_items(*s).len(),
{
    s.len()
}

/// `IndexSet::get_index`: the item at a position in insertion order, `None` past the end.
#[verifier::external_body]
fn index_set_get_index(s: &indexmap::IndexSet<String>, i: usize) -> (r: Option<&String>)
    ensures
        r.is_some() == (i < index_set_items(*s).len()),
        r.is_some() ==> r.unwrap()@ == index_set_items(*s)[i as int],
{
    s.get_index(i)
}

/// `IndexSet::contains`, looked up by `&str`: whether an equal string is held.
#[verifier::external_body]
fn index_set_contains(s: &indexmap::IndexSet<String>, value: &str) -> (b: bool)
    ensures
        b == index_set_items(*s).contains(value@),
{
    s.contains(value)
}

/// `IndexSet::insert`: a string not yet held is appended last; a string already held
/// keeps its place and the set is unchanged. Returns whether the string was added.
#[verifier::external_body]
fn index_set_insert(s: &mut indexmap::IndexSet<String>, value: String) -> (added: bool)
    ensures
        added == !index_set_items(*old(s)).contains(value@),
        index_set_items(*final(s)) == set_insert(index_set_items(*old(s)), value@),
{
    s.insert(value)
}

/// `IndexSet::clear`: afterwards the set holds nothing.
#[verifier::external_body]
fn index_set_clear(s: &mut indexmap::IndexSet<String>)
    ensures
        index_set_items(*final(s)) == Seq::<Seq<char>>::empty(),
{
    s.clear()
}

/// `IndexSet::clone` on strings: the copy holds the same strings in the same order.
#[verifier::external_body]
fn index_set_clone(s: &indexmap::IndexSet<String>) -> (r: indexmap::IndexSet<String>)
    ensures
        index_set_items(r) == index_set_items(*s),
{
    s.clone()
}

/// An insertion-ordered set of strings.
pub struct StringSet {
    items: indexmap::IndexSet<String>,
}

impl View for StringSet {
    type V = Seq<Seq<char>>;

    closed spec fn view(&self) -> Seq<Seq<char>> {
        index_set_items(self.items)
    }
}

impl StringSet {
    /// An empty set.
    pub fn new() -> (s: Self)
        ensures
            s@ == Seq::<Seq<char>>::empty(),
    {
        StringSet { items: index_set_new() }
    }

    /// Number of elements.
    pub fn len(&self) -> (n: usize)
        ensures
            n == self@.len(),
    {
        index_set_len(&self.items)
    }

    /// Is the set empty?
    pub fn is_empty(&self) -> (b: bool)
        ensures
            b == (self@.len() == 0),
    {
        index_set_len(&self.items) == 0
    }

    /// The element at an index.
    pub fn get_index(&self, i: usize) -> (s: &String)
        requires
            i < self@.len(),
        ensures
            s@ == self@[i as int],
    {
        index_set_get_index(&self.items, i).unwrap()
    }

    /// Does the set contain the string?
    pub fn contains(&self, value: &str) -> (b: bool)
        ensures
            b == self@.contains(value@),
    {
        index_set_contains(&self.items, value)
    }

    /// Insert a string; new elements are appended, existing ones are kept in place.
    /// Returns whether the string was added.
    pub fn insert(&mut self, value: String) -> (added: bool)
        ensures
            added == !old(self)@.contains(value@),
            final(self)@ == set_insert(old(self)@, value@),
    {
        index_set_insert(&mut self.items, value)
    }

    /// Insert every element of `other`, in order.
    pub fn append(&mut self, other: &StringSet)
        ensures
            final(self)@ == set_append(old(self)@, other@),
    {
        let mut i: usize = 0;
        while i < other.len()
            invariant
                i <= other@.len(),
                self@ == set_append(old(self)@, other@.take(i as int)),
            decreases other@.len() - i,
        {
            let item = other.get_index(i).clone();
            self.insert(item);
            assert(other@.take(i + 1).drop_last() =~= other@.take(i as int));
            i = i + 1;
        }
        assert(other@.take(other@.len() as int) =~= other@);
    }

    /// Remove every element.
    pub fn clear(&mut self)
        ensures
            final(self)@ == Seq::<Seq<char>>::empty(),
    {
        index_set_clear(&mut self.items);
    }
}

impl Clone for StringSet {
    fn clone(&self) -> (r: Self)
        ensures
            r@ == self@,
    {
        StringSet { items: index_set_clone(&self.items) }
    }
}

} // verus!

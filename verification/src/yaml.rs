//! YAML documents as plain values.
use vstd::prelude::*;

use crate::errors::GardenError;
use crate::text::{concat, owned, str_eq};

use yaml_rust::Yaml as ParsedYaml;

verus! {

/// A YAML node: scalars, sequences and mappings (mapping entries keep their order).
pub enum Yaml {
    Real(String),
    Integer(i64),
    String(String),
    Boolean(bool),
    Array(Vec<Yaml>),
    Hash(Vec<(Yaml, Yaml)>),
    Alias(usize),
    Null,
    BadValue,
}

/// A YAML node as a plain value.
pub enum YamlView {
    Real(Seq<char>),
    Integer(i64),
    String(Seq<char>),
    Boolean(bool),
    Array(Seq<YamlView>),
    Hash(Seq<(YamlView, YamlView)>),
    Alias(usize),
    Null,
    BadValue,
}

/// The plain value of a node.
pub open spec fn yaml_view(y: Yaml) -> YamlView
    decreases y,
{
    match y {
        Yaml::Real(s) => YamlView::Real(s@),
        Yaml::Integer(i) => YamlView::Integer(i),
        Yaml::String(s) => YamlView::String(s@),
        Yaml::Boolean(b) => YamlView::Boolean(b),
        Yaml::Array(v) => YamlView::Array(nodes_view(v@)),
        Yaml::Hash(e) => YamlView::Hash(entries_view(e@)),
        Yaml::Alias(a) => YamlView::Alias(a),
        Yaml::Null => YamlView::Null,
        Yaml::BadValue => YamlView::BadValue,
    }
}

/// The plain values of a list of nodes.
pub open spec fn nodes_view(v: Seq<Yaml>) -> Seq<YamlView>
    decreases v,
{
    if v.len() == 0 {
        Seq::empty()
    } else {
        nodes_view(v.drop_last()).push(yaml_view(v.last()))
    }
}

/// The plain values of mapping entries.
pub open spec fn entries_view(e: Seq<(Yaml, Yaml)>) -> Seq<(YamlView, YamlView)>
    decreases e,
{
    if e.len() == 0 {
        Seq::empty()
    } else {
        entries_view(e.drop_last()).push((yaml_view(e.last().0), yaml_view(e.last().1)))
    }
}

/// The node is the string `k`.
pub open spec fn is_string_key(node: Yaml, k: Seq<char>) -> bool {
    node matches Yaml::String(s) && s@ == k
}

/// Index of the first entry whose key is the string `k`.
pub open spec fn hash_index(entries: Seq<(Yaml, Yaml)>, k: Seq<char>) -> Option<int>
    decreases entries.len(),
{
    if entries.len() == 0 {
        None
    } else {
        match hash_index(entries.drop_last(), k) {
            Some(i) => Some(i),
            None => if is_string_key(entries.last().0, k) {
                Some(entries.len() - 1)
            } else {
                None
            },
        }
    }
}

/// `node[k]`: the value stored under the string key `k` of a mapping, or `BadValue`.
pub open spec fn spec_index(node: Yaml, k: Seq<char>) -> Yaml {
    match node {
        Yaml::Hash(entries) => match hash_index(entries@, k) {
            Some(i) => entries@[i].1,
            None => Yaml::BadValue,
        },
        _ => Yaml::BadValue,
    }
}

/// The value stored under the string key `k` of a mapping, if any.
pub open spec fn spec_get(node: Yaml, k: Seq<char>) -> Option<Yaml> {
    match node {
        Yaml::Hash(entries) => match hash_index(entries@, k) {
            Some(i) => Some(entries@[i].1),
            None => None,
        },
        _ => None,
    }
}

/// The string of a string node.
pub open spec fn spec_as_str(node: Yaml) -> Option<Seq<char>> {
    match node {
        Yaml::String(s) => Some(s@),
        _ => None,
    }
}

/// Facts about `hash_index`.
pub proof fn lemma_hash_index(entries: Seq<(Yaml, Yaml)>, k: Seq<char>)
    ensures
        hash_index(entries, k) matches Some(i) ==> 0 <= i < entries.len() && is_string_key(
            entries[i].0,
            k,
        ) && forall|j: int| 0 <= j < i ==> !is_string_key(entries[j].0, k),
        hash_index(entries, k) is None ==> forall|j: int|
            0 <= j < entries.len() ==> !is_string_key(entries[j].0, k),
    decreases entries.len(),
{
    if entries.len() > 0 {
        let t = entries.drop_last();
        lemma_hash_index(t, k);
        assert(forall|j: int| 0 <= j < t.len() ==> t[j] == entries[j]);
    }
}

/// A node that is not present.
pub fn bad_value() -> (r: &'static Yaml)
    ensures
        *r == Yaml::BadValue,
{
    &Yaml::BadValue
}

impl Yaml {
    /// Look up a string key in a mapping; `BadValue` when absent or not a mapping.
    pub fn index<'a>(&'a self, key: &str) -> (r: &'a Yaml)
        ensures
            *r == spec_index(*self, key@),
    {
        match self {
            Yaml::Hash(entries) => {
                let mut i: usize = 0;
                while i < entries.len()
                    invariant
                        *self == Yaml::Hash(*entries),
                        i <= entries@.len(),
                        forall|j: int| 0 <= j < i ==> !is_string_key(entries@[j].0, key@),
                    decreases entries.len() - i,
                {
                    let k = &entries[i].0;
                    let found = match k {
                        Yaml::String(s) => str_eq(s.as_str(), key),
                        _ => false,
                    };
                    assert(*k == entries@[i as int].0);
                    assert(found == is_string_key(entries@[i as int].0, key@));
                    if found {
                        proof {
                            lemma_hash_index(entries@, key@);
                            match hash_index(entries@, key@) {
                                Some(m) => {
                                    if m < i {
                                    } else if i < m {
                                    }
                                },
                                None => {},
                            }
                            assert(hash_index(entries@, key@) == Some(i as int));
                            assert(*self == Yaml::Hash(*entries));
                            assert(spec_index(*self, key@) == entries@[i as int].1);
                        }
                        return &entries[i].1;
                    }
                    i = i + 1;
                }
                proof {
                    lemma_hash_index(entries@, key@);
                }
                bad_value()
            },
            _ => bad_value(),
        }
    }

    /// Look up a string key in a mapping; `None` when absent or not a mapping.
    pub fn get_key<'a>(&'a self, key: &str) -> (r: Option<&'a Yaml>)
        ensures
            r matches Some(v) ==> spec_get(*self, key@) == Some(*v),
            r is None ==> spec_get(*self, key@) is None,
    {
        match self {
            Yaml::Hash(entries) => {
                let mut i: usize = 0;
                while i < entries.len()
                    invariant
                        *self == Yaml::Hash(*entries),
                        i <= entries@.len(),
                        forall|j: int| 0 <= j < i ==> !is_string_key(entries@[j].0, key@),
                    decreases entries.len() - i,
                {
                    let k = &entries[i].0;
                    let found = match k {
                        Yaml::String(s) => str_eq(s.as_str(), key),
                        _ => false,
                    };
                    assert(*k == entries@[i as int].0);
                    if found {
                        proof {
                            lemma_hash_index(entries@, key@);
                            match hash_index(entries@, key@) {
                                Some(m) => {
                                    if m < i {
                                    } else if i < m {
                                    }
                                },
                                None => {},
                            }
                        }
                        return Some(&entries[i].1);
                    }
                    i = i + 1;
                }
                proof {
                    lemma_hash_index(entries@, key@);
                }
                None
            },
            _ => None,
        }
    }

    /// The string of a string node.
    pub fn as_str(&self) -> (r: Option<&String>)
        ensures
            r matches Some(s) ==> spec_as_str(*self) == Some(s@),
            r is None ==> spec_as_str(*self) is None,
    {
        match self {
            Yaml::String(s) => Some(s),
            _ => None,
        }
    }
}


/// Entries' plain values, entry by entry.
pub proof fn lemma_entries_view(e: Seq<(Yaml, Yaml)>)
    ensures
        entries_view(e).len() == e.len(),
        forall|i: int|
            0 <= i < e.len() ==> #[trigger] entries_view(e)[i] == (yaml_view(e[i].0), yaml_view(e[i].1)),
    decreases e.len(),
{
    if e.len() > 0 {
        lemma_entries_view(e.drop_last());
        assert(forall|i: int| 0 <= i < e.len() - 1 ==> e.drop_last()[i] == e[i]);
    }
}

/// Nodes' plain values, node by node.
pub proof fn lemma_nodes_view(v: Seq<Yaml>)
    ensures
        nodes_view(v).len() == v.len(),
        forall|i: int| 0 <= i < v.len() ==> #[trigger] nodes_view(v)[i] == yaml_view(v[i]),
    decreases v.len(),
{
    if v.len() > 0 {
        lemma_nodes_view(v.drop_last());
        assert(forall|i: int| 0 <= i < v.len() - 1 ==> v.drop_last()[i] == v[i]);
    }
}

/// Index of the first entry whose key is the string `k`, over plain values.
pub open spec fn vhash_index(e: Seq<(YamlView, YamlView)>, k: Seq<char>) -> Option<int>
    decreases e.len(),
{
    if e.len() == 0 {
        None
    } else {
        match vhash_index(e.drop_last(), k) {
            Some(i) => Some(i),
            None => if e.last().0 == YamlView::String(k) {
                Some(e.len() - 1)
            } else {
                None
            },
        }
    }
}

/// The value under string key `k`, over plain values.
pub open spec fn vhash_get(e: Seq<(YamlView, YamlView)>, k: Seq<char>) -> Option<YamlView> {
    match vhash_index(e, k) {
        Some(i) => Some(e[i].1),
        None => None,
    }
}

/// The entries after setting string key `k` to `v`: an existing key keeps its
/// position, a new key is appended.
pub open spec fn vhash_set(e: Seq<(YamlView, YamlView)>, k: Seq<char>, v: YamlView) -> Seq<(YamlView, YamlView)> {
    match vhash_index(e, k) {
        Some(i) => e.update(i, (YamlView::String(k), v)),
        None => e.push((YamlView::String(k), v)),
    }
}

/// The entries without the first entry under string key `k`.
pub open spec fn vhash_remove(e: Seq<(YamlView, YamlView)>, k: Seq<char>) -> Seq<(YamlView, YamlView)> {
    match vhash_index(e, k) {
        Some(i) => e.remove(i),
        None => e,
    }
}

/// The key of a node is the string `k` exactly when its plain value is.
pub proof fn lemma_string_key_view(node: Yaml, k: Seq<char>)
    ensures
        is_string_key(node, k) <==> yaml_view(node) == YamlView::String(k),
{
}

/// Key lookups agree with lookups over plain values.
pub proof fn lemma_hash_index_view(e: Seq<(Yaml, Yaml)>, k: Seq<char>)
    ensures
        hash_index(e, k) == vhash_index(entries_view(e), k),
    decreases e.len(),
{
    if e.len() > 0 {
        lemma_hash_index_view(e.drop_last(), k);
        lemma_string_key_view(e.last().0, k);
        lemma_entries_view(e);
        let ev = entries_view(e);
        assert(ev == entries_view(e.drop_last()).push((yaml_view(e.last().0), yaml_view(e.last().1))));
        assert(ev.drop_last() =~= entries_view(e.drop_last()));
        assert(ev.last() == (yaml_view(e.last().0), yaml_view(e.last().1)));
        assert(ev.len() > 0);
    }
}

/// The position of the first entry with string key `key`.
pub fn hash_position(entries: &Vec<(Yaml, Yaml)>, key: &str) -> (r: Option<usize>)
    ensures
        r matches Some(i) ==> hash_index(entries@, key@) == Some(i as int),
        r is None ==> hash_index(entries@, key@) is None,
{
    let mut i: usize = 0;
    while i < entries.len()
        invariant
            i <= entries@.len(),
            forall|j: int| 0 <= j < i ==> !is_string_key(entries@[j].0, key@),
        decreases entries.len() - i,
    {
        let found = match &entries[i].0 {
            Yaml::String(s) => str_eq(s.as_str(), key),
            _ => false,
        };
        if found {
            proof {
                lemma_hash_index(entries@, key@);
                match hash_index(entries@, key@) {
                    Some(m) => {
                        if m < i {
                        } else if i < m {
                        }
                    },
                    None => {},
                }
            }
            return Some(i);
        }
        i = i + 1;
    }
    proof {
        lemma_hash_index(entries@, key@);
    }
    None
}

/// Set string key `key` of a mapping's entries to `value` (see `vhash_set`).
pub fn hash_set(entries: &mut Vec<(Yaml, Yaml)>, key: &str, value: Yaml)
    ensures
        entries_view(final(entries)@) == vhash_set(entries_view(old(entries)@), key@, yaml_view(value)),
{
    let ghost before = entries@;
    proof {
        lemma_hash_index_view(before, key@);
        lemma_hash_index(before, key@);
        lemma_entries_view(before);
    }
    let k = Yaml::String(crate::text::owned(key));
    assert(yaml_view(k) == YamlView::String(key@));
    match hash_position(entries, key) {
        Some(i) => {
            entries.set(i, (k, value));
            proof {
                lemma_entries_view(entries@);
                assert(entries_view(entries@) =~= entries_view(before).update(
                    i as int,
                    (YamlView::String(key@), yaml_view(value)),
                ));
            }
        },
        None => {
            entries.push((k, value));
            proof {
                lemma_entries_view(entries@);
                assert(entries_view(entries@) =~= entries_view(before).push(
                    (YamlView::String(key@), yaml_view(value)),
                ));
            }
        },
    }
}

/// Remove string key `key` from a mapping's entries (see `vhash_remove`).
pub fn hash_remove(entries: &mut Vec<(Yaml, Yaml)>, key: &str)
    ensures
        entries_view(final(entries)@) == vhash_remove(entries_view(old(entries)@), key@),
{
    let ghost before = entries@;
    proof {
        lemma_hash_index_view(before, key@);
        lemma_hash_index(before, key@);
        lemma_entries_view(before);
    }
    match hash_position(entries, key) {
        Some(i) => {
            entries.remove(i);
            proof {
                lemma_entries_view(entries@);
                assert(entries_view(entries@) =~= entries_view(before).remove(i as int));
            }
        },
        None => {},
    }
}

/// Look up string key `key` of a mapping's entries (see `vhash_get`).
pub fn hash_get<'a>(entries: &'a Vec<(Yaml, Yaml)>, key: &str) -> (r: Option<&'a Yaml>)
    ensures
        match r {
            Some(v) => vhash_get(entries_view(entries@), key@) == Some(yaml_view(*v)),
            None => vhash_get(entries_view(entries@), key@) is None,
        },
{
    proof {
        lemma_hash_index_view(entries@, key@);
        lemma_hash_index(entries@, key@);
        lemma_entries_view(entries@);
    }
    match hash_position(entries, key) {
        Some(i) => Some(&entries[i].1),
        None => None,
    }
}

/// A deep copy of a node.
pub fn yaml_clone(y: &Yaml) -> (r: Yaml)
    ensures
        yaml_view(r) == yaml_view(*y),
    decreases y,
{
    match y {
        Yaml::Real(s) => Yaml::Real(s.clone()),
        Yaml::Integer(i) => Yaml::Integer(*i),
        Yaml::String(s) => Yaml::String(s.clone()),
        Yaml::Boolean(b) => Yaml::Boolean(*b),
        Yaml::Array(v) => {
            let mut out: Vec<Yaml> = Vec::new();
            let mut i: usize = 0;
            while i < v.len()
                invariant
                    *y == Yaml::Array(*v),
                    i <= v@.len(),
                    nodes_view(out@) == nodes_view(v@.take(i as int)),
                decreases v@.len() - i,
            {
                assert(v@.take(i + 1).drop_last() =~= v@.take(i as int));
                assert(decreases_to!(*y => (*y)->Array_0));
                assert(decreases_to!(*v => v@));
                assert(decreases_to!(v@ => v@[i as int]));
                let c = yaml_clone(&v[i]);
                let ghost before = out@;
                out.push(c);
                assert(out@.drop_last() =~= before);
                i = i + 1;
            }
            assert(v@.take(v@.len() as int) =~= v@);
            Yaml::Array(out)
        },
        Yaml::Hash(e) => {
            let mut out: Vec<(Yaml, Yaml)> = Vec::new();
            let mut i: usize = 0;
            while i < e.len()
                invariant
                    *y == Yaml::Hash(*e),
                    i <= e@.len(),
                    entries_view(out@) == entries_view(e@.take(i as int)),
                decreases e@.len() - i,
            {
                assert(e@.take(i + 1).drop_last() =~= e@.take(i as int));
                assert(decreases_to!(*y => (*y)->Hash_0));
                assert(decreases_to!(*e => e@));
                assert(decreases_to!(e@ => e@[i as int]));
                assert(decreases_to!(e@[i as int] => e@[i as int].0));
                assert(decreases_to!(e@[i as int] => e@[i as int].1));
                let k = yaml_clone(&e[i].0);
                let v = yaml_clone(&e[i].1);
                let ghost before = out@;
                out.push((k, v));
                assert(out@.drop_last() =~= before);
                i = i + 1;
            }
            assert(e@.take(e@.len() as int) =~= e@);
            Yaml::Hash(out)
        },
        Yaml::Alias(a) => Yaml::Alias(*a),
        Yaml::Null => Yaml::Null,
        Yaml::BadValue => Yaml::BadValue,
    }
}


/// Reading a key of a mapping after setting a key gives the value set for that key
/// and the previous value for any other key.
pub proof fn law_hash_set_get(e: Seq<(YamlView, YamlView)>, k: Seq<char>, v: YamlView, k2: Seq<char>)
    ensures
        vhash_get(vhash_set(e, k, v), k2) == (if k2 == k {
            Some(v)
        } else {
            vhash_get(e, k2)
        }),
{
    lemma_vhash_index(e, k);
    lemma_vhash_index(e, k2);
    let t = vhash_set(e, k, v);
    lemma_vhash_index(t, k2);
    match vhash_index(e, k) {
        Some(i) => {
            assert(t == e.update(i, (YamlView::String(k), v)));
            if k2 == k {
                lemma_vhash_index_intro(t, k, i);
            } else {
                match vhash_index(e, k2) {
                    Some(i2) => lemma_vhash_index_intro(t, k2, i2),
                    None => {},
                }
            }
        },
        None => {
            assert(t == e.push((YamlView::String(k), v)));
            if k2 == k {
                lemma_vhash_index_intro(t, k, e.len() as int);
            } else {
                match vhash_index(e, k2) {
                    Some(i2) => lemma_vhash_index_intro(t, k2, i2),
                    None => {},
                }
            }
        },
    }
}

/// Facts about `vhash_index`.
pub proof fn lemma_vhash_index(e: Seq<(YamlView, YamlView)>, k: Seq<char>)
    ensures
        vhash_index(e, k) matches Some(i) ==> 0 <= i < e.len() && e[i].0 == YamlView::String(k)
            && forall|j: int| 0 <= j < i ==> e[j].0 != YamlView::String(k),
        vhash_index(e, k) is None ==> forall|j: int| 0 <= j < e.len() ==> e[j].0 != YamlView::String(k),
    decreases e.len(),
{
    if e.len() > 0 {
        let t = e.drop_last();
        lemma_vhash_index(t, k);
        assert(forall|j: int| 0 <= j < t.len() ==> t[j] == e[j]);
    }
}

/// An index is the first entry with the key.
pub proof fn lemma_vhash_index_intro(e: Seq<(YamlView, YamlView)>, k: Seq<char>, i: int)
    requires
        0 <= i < e.len(),
        e[i].0 == YamlView::String(k),
        forall|j: int| 0 <= j < i ==> e[j].0 != YamlView::String(k),
    ensures
        vhash_index(e, k) == Some(i),
{
    lemma_vhash_index(e, k);
    match vhash_index(e, k) {
        Some(m) => {
            if m < i {
            } else if i < m {
            }
        },
        None => {},
    }
}

/// No mapping in the node, at any depth, holds a key twice.
pub open spec fn keys_distinct(v: YamlView) -> bool
    decreases v,
{
    match v {
        YamlView::Array(items) => forall|i: int|
            0 <= i < items.len() ==> #[trigger] keys_distinct(items[i]),
        YamlView::Hash(e) => {
            &&& forall|i: int, j: int| 0 <= i < j < e.len() ==> #[trigger] e[i].0 != #[trigger] e[j].0
            &&& forall|i: int|
                0 <= i < e.len() ==> #[trigger] keys_distinct(e[i].0) && keys_distinct(e[i].1)
        },
        _ => true,
    }
}

/// The node type of the `yaml_rust` crate; Verus sees nothing inside it.
#[verifier::external_type_specification]
#[verifier::external_body]
pub struct ExParsedYaml(ParsedYaml);

/// The documents that `yaml_rust::YamlLoader::load_from_str` reads from a text, as
/// plain values; `None` when the text does not scan as YAML.
pub uninterp spec fn spec_yaml_load(text: Seq<char>) -> Option<Seq<YamlView>>;

/// The text that `yaml_rust::YamlEmitter::dump` writes for a document.
pub uninterp spec fn spec_yaml_emit(doc: YamlView) -> Seq<char>;

/// A node of the `yaml_rust` crate as a node of this library, one for one (the
/// conversion that `yaml_load` applies to every node it reads).
#[verifier::external_body]
fn node_from_parsed(y: &ParsedYaml) -> Yaml {
    match y {
        ParsedYaml::Real(s) => Yaml::Real(s.clone()),
        ParsedYaml::Integer(i) => Yaml::Integer(*i),
        ParsedYaml::String(s) => Yaml::String(s.clone()),
        ParsedYaml::Boolean(b) => Yaml::Boolean(*b),
        ParsedYaml::Array(v) => Yaml::Array(v.iter().map(node_from_parsed).collect()),
        ParsedYaml::Hash(h) => Yaml::Hash(h.iter().map(|(k, v)| (node_from_parsed(k), node_from_parsed(v))).collect()),
        ParsedYaml::Alias(a) => Yaml::Alias(*a),
        ParsedYaml::Null => Yaml::Null,
        ParsedYaml::BadValue => Yaml::BadValue,
    }
}

/// A node of this library as a node of the `yaml_rust` crate, one for one (the
/// conversion that `yaml_emit` applies before writing).
#[verifier::external_body]
fn node_to_parsed(y: &Yaml) -> ParsedYaml {
    match y {
        Yaml::Real(s) => ParsedYaml::Real(s.clone()),
        Yaml::Integer(i) => ParsedYaml::Integer(*i),
        Yaml::String(s) => ParsedYaml::String(s.clone()),
        Yaml::Boolean(b) => ParsedYaml::Boolean(*b),
        Yaml::Array(v) => ParsedYaml::Array(v.iter().map(node_to_parsed).collect()),
        Yaml::Hash(e) => ParsedYaml::Hash(e.iter().map(|(k, v)| (node_to_parsed(k), node_to_parsed(v))).collect()),
        Yaml::Alias(a) => ParsedYaml::Alias(*a),
        Yaml::Null => ParsedYaml::Null,
        Yaml::BadValue => ParsedYaml::BadValue,
    }
}

/// Calls `yaml_rust::YamlLoader::load_from_str`. Trusted: the documents read are
/// named `spec_yaml_load` of the text, and their mappings hold each key once (the
/// crate stores a mapping in a hash map keyed by the node); a scan error gives its
/// message, which no clause describes.
#[verifier::external_body]
fn yaml_load(text: &str) -> (r: Result<Vec<Yaml>, String>)
    ensures
        r is Ok <==> spec_yaml_load(text@) is Some,
        r matches Ok(docs) ==> spec_yaml_load(text@) == Some(nodes_view(docs@)),
        r matches Ok(docs) ==> forall|i: int| 0 <= i < docs.len() ==> #[trigger] keys_distinct(yaml_view(docs@[i])),
{
    match yaml_rust::YamlLoader::load_from_str(text) {
        Ok(docs) => Ok(docs.iter().map(node_from_parsed).collect()),
        Err(err) => Err(err.to_string()),
    }
}

/// Calls `yaml_rust::YamlEmitter::dump` into a string. Trusted: the text written is
/// named `spec_yaml_emit` of the document. An emitting error is ignored; the text
/// written until then is returned.
#[verifier::external_body]
fn yaml_emit(doc: &Yaml) -> (r: String)
    ensures
        r@ == spec_yaml_emit(yaml_view(*doc)),
{
    let mut out = String::new();
    yaml_rust::YamlEmitter::new(&mut out).dump(&node_to_parsed(doc)).ok();
    out
}

/// Read the first document of a garden file's text. A text that does not scan is a
/// read error for `path`, and a text without documents is an empty configuration.
pub fn parse_document(text: &str, path: &str) -> (r: Result<Yaml, GardenError>)
    ensures
        match spec_yaml_load(text@) {
            None => r matches Err(GardenError::ReadConfig { path: p, .. }) && p@ == path@,
            Some(docs) => if docs.len() == 0 {
                r matches Err(GardenError::EmptyConfiguration { path: p }) && p@ == path@
            } else {
                r matches Ok(y) && yaml_view(y) == docs[0]
            },
        },
        r matches Ok(y) ==> keys_distinct(yaml_view(y)),
{
    match yaml_load(text) {
        Ok(mut docs) => {
            proof {
                lemma_nodes_view(docs@);
            }
            if docs.len() == 0 {
                Err(GardenError::EmptyConfiguration { path: owned(path) })
            } else {
                Ok(docs.swap_remove(0))
            }
        },
        Err(err) => Err(GardenError::ReadConfig { err, path: owned(path) }),
    }
}

/// The text of a garden file holding a document: the emitted YAML and a final newline.
pub fn document_text(doc: &Yaml) -> (r: String)
    ensures
        r@ == spec_yaml_emit(yaml_view(*doc)) + "\n"@,
{
    let out = yaml_emit(doc);
    concat(out.as_str(), "\n")
}

} // verus!

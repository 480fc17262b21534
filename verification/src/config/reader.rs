//! Read garden configuration values from YAML documents.
use vstd::prelude::*;

use crate::collections::{
    entries_append, entry_get, entry_insert, entry_keys, entry_map_values, keys_unique,
    lemma_entries_append_get, lemma_entries_append_step, lemma_entry_get_insert, lemma_entry_get_keys,
    lemma_entry_insert_map, lemma_entry_keys_insert, lemma_keys_unique_insert, set_append, set_insert,
    OrderedMap, StringSet,
};
use crate::errors::GardenError;
use crate::constants;
use crate::model::{
    opt_view, quiet_flag, verbose_flags, tree_merged, flags_updated, tree_blank, var_view, vars_view, ConfigId, Garden, GardenMap, Graft, Group, GroupMap,
    MultiVariable,
    MultiVariableMap, Template, Tree, Variable, VariableMap, Configuration,
};
use crate::syntax;
use crate::text::{i64_to_string, int_to_decimal, owned, spec_trim_end, trim_end};
use crate::text::str_eq;
use crate::yaml::{hash_index, hash_position, is_string_key, lemma_hash_index, spec_as_str, spec_get, spec_index, Yaml};

verus! {

/// The plain view of a variable: expression and cached value.
pub type VarView = (Seq<char>, Option<Seq<char>>);

/// The strings held by a list of YAML nodes, in order; other nodes are skipped.
pub open spec fn yaml_strings(nodes: Seq<Yaml>) -> Seq<Seq<char>>
    decreases nodes.len(),
{
    if nodes.len() == 0 {
        Seq::empty()
    } else {
        let rest = yaml_strings(nodes.drop_last());
        match nodes.last() {
            Yaml::String(s) => rest.push(s@),
            _ => rest,
        }
    }
}

/// One more node of `yaml_strings`.
proof fn lemma_yaml_strings_step(nodes: Seq<Yaml>, i: int)
    requires
        0 <= i < nodes.len(),
    ensures
        yaml_strings(nodes.take(i + 1)) == (match nodes[i] {
            Yaml::String(s) => yaml_strings(nodes.take(i)).push(s@),
            _ => yaml_strings(nodes.take(i)),
        }),
{
    assert(nodes.take(i + 1).drop_last() =~= nodes.take(i));
}

/// Extract a `String` from `yaml`. Returns `false` when `yaml` is not a string, in
/// which case `string` is left unchanged.
pub fn get_raw_str(yaml: &Yaml, string: &mut String) -> (r: bool)
    ensures
        r == (spec_as_str(*yaml) is Some),
        final(string)@ == (match spec_as_str(*yaml) {
            Some(s) => s,
            None => old(string)@,
        }),
{
    match yaml {
        Yaml::String(yaml_string) => {
            *string = yaml_string.clone();
            true
        },
        _ => false,
    }
}

/// Extract a `String` from `yaml`. Returns `false` when the string is empty or
/// `yaml` is not a string.
pub fn get_str(yaml: &Yaml, string: &mut String) -> (r: bool)
    ensures
        r == (spec_as_str(*yaml) matches Some(s) && s.len() > 0),
        final(string)@ == (match spec_as_str(*yaml) {
            Some(s) => s,
            None => old(string)@,
        }),
{
    get_raw_str(yaml, string) && !string.as_str().is_empty()
}

/// Extract a `String` from `yaml` without trailing whitespace. Returns `false` when
/// the result is empty or `yaml` is not a string.
pub fn get_str_trimmed(yaml: &Yaml, string: &mut String) -> (r: bool)
    ensures
        r == (spec_as_str(*yaml) matches Some(s) && spec_trim_end(s).len() > 0),
        final(string)@ == (match spec_as_str(*yaml) {
            Some(s) => spec_trim_end(s),
            None => old(string)@,
        }),
{
    match yaml {
        Yaml::String(yaml_string) => {
            *string = trim_end(yaml_string.as_str());
            !string.as_str().is_empty()
        },
        _ => false,
    }
}

/// Extract an `i64` from `yaml`. Returns `false` when `yaml` is not an integer.
pub fn get_i64(yaml: &Yaml, value: &mut i64) -> (r: bool)
    ensures
        r == (*yaml is Integer),
        *final(value) == (match *yaml {
            Yaml::Integer(i) => i,
            _ => *old(value),
        }),
{
    match yaml {
        Yaml::Integer(yaml_integer) => {
            *value = *yaml_integer;
            true
        },
        _ => false,
    }
}

/// Extract a `bool` from `yaml`. Returns `false` when `yaml` is not a boolean.
pub fn get_bool(yaml: &Yaml, value: &mut bool) -> (r: bool)
    ensures
        r == (*yaml is Boolean),
        *final(value) == (match *yaml {
            Yaml::Boolean(b) => b,
            _ => *old(value),
        }),
{
    match yaml {
        Yaml::Boolean(yaml_bool) => {
            *value = *yaml_bool;
            true
        },
        _ => false,
    }
}

/// Every string inserted, in order, into the set elements `a`.
pub open spec fn set_insert_all(a: Seq<Seq<char>>, b: Seq<Seq<char>>) -> Seq<Seq<char>> {
    crate::collections::set_append(a, b)
}

/// Extract string set members from a string or a list of strings. Returns `false`
/// when `yaml` is neither; a scalar string becomes a single member.
pub fn get_indexset_str(yaml: &Yaml, values: &mut StringSet) -> (r: bool)
    ensures
        r == (*yaml is String || *yaml is Array),
        final(values)@ == (match *yaml {
            Yaml::String(s) => set_insert(old(values)@, s@),
            Yaml::Array(a) => set_insert_all(old(values)@, yaml_strings(a@)),
            _ => old(values)@,
        }),
{
    match yaml {
        Yaml::String(yaml_string) => {
            values.insert(yaml_string.clone());
            true
        },
        Yaml::Array(yaml_vec) => {
            let mut i: usize = 0;
            while i < yaml_vec.len()
                invariant
                    i <= yaml_vec@.len(),
                    values@ == set_insert_all(old(values)@, yaml_strings(yaml_vec@.take(i as int))),
                decreases yaml_vec.len() - i,
            {
                proof {
                    lemma_yaml_strings_step(yaml_vec@, i as int);
                }
                if let Yaml::String(value_str) = &yaml_vec[i] {
                    values.insert(value_str.clone());
                    assert(yaml_strings(yaml_vec@.take(i as int)).push(value_str@).drop_last()
                        =~= yaml_strings(yaml_vec@.take(i as int)));
                }
                i = i + 1;
            }
            assert(yaml_vec@.take(yaml_vec@.len() as int) =~= yaml_vec@);
            true
        },
        _ => false,
    }
}

/// Unevaluated variable views for a list of expressions.
pub open spec fn unevaluated(exprs: Seq<Seq<char>>) -> Seq<VarView> {
    exprs.map_values(|e: Seq<char>| (e, None::<Seq<char>>))
}

/// The views of a list of variables.
pub open spec fn var_views(vars: Seq<Variable>) -> Seq<VarView> {
    vars.map_values(|v: Variable| var_view(v))
}

/// Promote a string or a list of strings into unevaluated variables appended to `vec`.
pub fn get_vec_variables(yaml: &Yaml, vec: &mut Vec<Variable>) -> (r: bool)
    ensures
        r == (*yaml is String || *yaml is Array),
        var_views(final(vec)@) == var_views(old(vec)@) + (match *yaml {
            Yaml::String(s) => unevaluated(seq![s@]),
            Yaml::Array(a) => unevaluated(yaml_strings(a@)),
            _ => Seq::empty(),
        }),
{
    match yaml {
        Yaml::String(yaml_string) => {
            vec.push(Variable::new(yaml_string.clone(), None));
            assert(var_views(vec@) =~= var_views(old(vec)@) + unevaluated(seq![yaml_string@]));
            true
        },
        Yaml::Array(yaml_vec) => {
            let mut i: usize = 0;
            while i < yaml_vec.len()
                invariant
                    i <= yaml_vec@.len(),
                    var_views(vec@) == var_views(old(vec)@) + unevaluated(
                        yaml_strings(yaml_vec@.take(i as int)),
                    ),
                decreases yaml_vec.len() - i,
            {
                proof {
                    lemma_yaml_strings_step(yaml_vec@, i as int);
                }
                if let Yaml::String(value_str) = &yaml_vec[i] {
                    let ghost before = vec@;
                    vec.push(Variable::new(value_str.clone(), None));
                    assert(var_views(vec@) =~= var_views(before).push((value_str@, None::<Seq<char>>)));
                    assert(unevaluated(yaml_strings(yaml_vec@.take(i as int)).push(value_str@))
                        =~= unevaluated(yaml_strings(yaml_vec@.take(i as int))).push(
                        (value_str@, None::<Seq<char>>),
                    ));
                }
                i = i + 1;
            }
            assert(yaml_vec@.take(yaml_vec@.len() as int) =~= yaml_vec@);
            true
        },
        _ => {
            assert(var_views(vec@) =~= var_views(old(vec)@) + Seq::<VarView>::empty());
            false
        },
    }
}

/// Set the expression of `value` from a string. Returns `false` when `yaml` is not a
/// string.
pub fn get_variable(yaml: &Yaml, value: &mut Variable) -> (r: bool)
    ensures
        r == (*yaml is String),
        var_view(*final(value)) == (match *yaml {
            Yaml::String(s) => (s@, old(value).value_of()),
            _ => var_view(*old(value)),
        }),
{
    match yaml {
        Yaml::String(yaml_string) => {
            value.set_expr(yaml_string.clone());
            true
        },
        _ => false,
    }
}

/// The identity on variable views.
pub open spec fn id_view() -> spec_fn(VarView) -> VarView {
    |x: VarView| x
}

/// The views of the variables defined by one YAML value: a string, the strings of
/// a list, an integer or (when `allow_bool`) a boolean. Integers and booleans are
/// already resolved. `None` when the value has another type.
pub open spec fn value_vars(v: Yaml, allow_bool: bool) -> Option<Seq<VarView>> {
    match v {
        Yaml::String(s) => Some(seq![(s@, None::<Seq<char>>)]),
        Yaml::Array(a) => Some(unevaluated(yaml_strings(a@))),
        Yaml::Integer(i) => Some(seq![(int_to_decimal(i as int), Some(int_to_decimal(i as int)))]),
        Yaml::Boolean(b) => if allow_bool {
            Some(seq![(syntax::spec_bool_to_string(b), Some(syntax::spec_bool_to_string(b)))])
        } else {
            None
        },
        _ => None,
    }
}

/// Build the variables defined by one YAML value (see `value_vars`).
pub fn variables_from_value(v: &Yaml, allow_bool: bool) -> (r: Option<Vec<Variable>>)
    ensures
        r matches Some(vars) ==> value_vars(*v, allow_bool) == Some(var_views(vars@)),
        r is None ==> value_vars(*v, allow_bool) is None,
{
    match v {
        Yaml::String(yaml_str) => {
            let vars = vec![Variable::new(yaml_str.clone(), None)];
            assert(var_views(vars@) =~= seq![(yaml_str@, None::<Seq<char>>)]);
            Some(vars)
        },
        Yaml::Array(_) => {
            let mut vars: Vec<Variable> = Vec::new();
            get_vec_variables(v, &mut vars);
            assert(var_views(vars@) =~= Seq::<VarView>::empty() + unevaluated(yaml_strings(v->Array_0@)));
            Some(vars)
        },
        Yaml::Integer(yaml_int) => {
            let value = i64_to_string(*yaml_int);
            let vars = vec![Variable::new(value.clone(), Some(value))];
            assert(var_views(vars@) =~= seq![(value@, Some(value@))]);
            Some(vars)
        },
        Yaml::Boolean(yaml_bool) => {
            if allow_bool {
                let value = syntax::bool_to_string(*yaml_bool);
                let vars = vec![Variable::new(value.clone(), Some(value))];
                assert(var_views(vars@) =~= seq![(value@, Some(value@))]);
                Some(vars)
            } else {
                None
            }
        },
        _ => None,
    }
}

/// Each `(name, view)` of a list of views under one key.
pub open spec fn keyed(k: Seq<char>, views: Seq<VarView>) -> Seq<(Seq<char>, VarView)> {
    views.map_values(|x: VarView| (k, x))
}

/// The variables map after reading the entries of a "variables" block: every
/// definition is inserted in order; entries with non-string keys are skipped.
/// `None` when a value has an unsupported type.
pub open spec fn variables_from_entries(
    m: Seq<(Seq<char>, VarView)>,
    entries: Seq<(Yaml, Yaml)>,
) -> Option<Seq<(Seq<char>, VarView)>>
    decreases entries.len(),
{
    if entries.len() == 0 {
        Some(m)
    } else {
        match variables_from_entries(m, entries.drop_last()) {
            Some(m2) => match spec_as_str(entries.last().0) {
                Some(k) => match value_vars(entries.last().1, true) {
                    Some(vars) => Some(entries_append(m2, keyed(k, vars), id_view())),
                    None => None,
                },
                None => Some(m2),
            },
            None => None,
        }
    }
}

/// Once reading fails, reading more entries keeps failing.
proof fn lemma_variables_fail(m: Seq<(Seq<char>, VarView)>, entries: Seq<(Yaml, Yaml)>, n: int)
    requires
        0 < n <= entries.len(),
        variables_from_entries(m, entries.take(n)) is None,
    ensures
        variables_from_entries(m, entries) is None,
    decreases entries.len() - n,
{
    if n < entries.len() {
        assert(entries.take(n + 1).drop_last() =~= entries.take(n));
        lemma_variables_fail(m, entries, n + 1);
    } else {
        assert(entries.take(n) =~= entries);
    }
}

/// Insert each variable under the same key.
fn insert_variables(map: &mut VariableMap, key: &String, vars: Vec<Variable>)
    ensures
        vars_view(final(map)@) == entries_append(vars_view(old(map)@), keyed(key@, var_views(vars@)), id_view()),
{
    let ghost ks = keyed(key@, var_views(vars@));
    let mut vars = vars;
    let ghost all = vars@;
    let mut i: usize = 0;
    let n = vars.len();
    let mut rest = vars;
    let mut taken: Vec<Variable> = Vec::new();
    while i < n
        invariant
            n == all.len(),
            i <= n,
            rest@ == all.subrange(i as int, n as int),
            ks == keyed(key@, var_views(all)),
            vars_view(map@) == entries_append(vars_view(old(map)@), ks.take(i as int), id_view()),
        decreases n - i,
    {
        let var = rest.remove(0);
        let ghost before = map@;
        map.insert(key.clone(), var);
        proof {
            lemma_entry_insert_map(before, |v: Variable| var_view(v), key@, var);
            lemma_entries_append_step(vars_view(old(map)@), ks, id_view(), i as int);
            assert(rest@ =~= all.subrange(i + 1, n as int));
        }
        i = i + 1;
    }
    assert(ks.take(n as int) =~= ks);
}

/// Extract variable definitions from a mapping into `hashmap`. Returns `Ok(false)`
/// (leaving `hashmap` unchanged) when `yaml` is not a mapping, and an
/// invalid-configuration error when a value has an unsupported type.
pub fn get_variables_hashmap(yaml: &Yaml, hashmap: &mut VariableMap) -> (r: Result<bool, GardenError>)
    ensures
        r matches Ok(found) ==> found == (*yaml is Hash),
        !(*yaml is Hash) ==> r == Ok::<bool, GardenError>(false) && final(hashmap)@ == old(hashmap)@,
        *yaml is Hash ==> (r is Ok <==> variables_from_entries(vars_view(old(hashmap)@), yaml->Hash_0@) is Some),
        *yaml is Hash && r is Ok ==> Some(vars_view(final(hashmap)@)) == variables_from_entries(
            vars_view(old(hashmap)@),
            yaml->Hash_0@,
        ),
        r is Err ==> r->Err_0 is InvalidConfiguration,
{
    match yaml {
        Yaml::Hash(hash) => {
            let mut i: usize = 0;
            while i < hash.len()
                invariant
                    i <= hash@.len(),
                    *yaml == Yaml::Hash(*hash),
                    variables_from_entries(vars_view(old(hashmap)@), hash@.take(i as int)) == Some(
                        vars_view(hashmap@),
                    ),
                decreases hash.len() - i,
            {
                assert(hash@.take(i + 1).drop_last() =~= hash@.take(i as int));
                assert(hash@.take(i + 1).last() == hash@[i as int]);
                match hash[i].0.as_str() {
                    Some(key) => {
                        match variables_from_value(&hash[i].1, true) {
                            Some(vars) => {
                                insert_variables(hashmap, key, vars);
                            },
                            None => {
                                proof {
                                    lemma_variables_fail(vars_view(old(hashmap)@), hash@, i + 1);
                                }
                                return Err(invalid_configuration("invalid variables"));
                            },
                        }
                    },
                    None => {},
                }
                i = i + 1;
            }
            assert(hash@.take(hash@.len() as int) =~= hash@);
            Ok(true)
        },
        _ => Ok(false),
    }
}

/// An invalid-configuration error with a message.
fn invalid_configuration(msg: &str) -> (e: GardenError)
    ensures
        e is InvalidConfiguration,
{
    GardenError::InvalidConfiguration { msg: owned(msg) }
}

/// The plain view of a multi-variable: its name and variable views.
pub open spec fn multivar_view(m: MultiVariable) -> (Seq<char>, Seq<VarView>) {
    (m.name_of(), var_views(m.variables_of()))
}

/// The multi-variables after reading the entries of an "environment" block:
/// one per string-keyed entry, in order. `None` when a value has an unsupported type.
pub open spec fn multivariables_from_entries(entries: Seq<(Yaml, Yaml)>) -> Option<Seq<(Seq<char>, Seq<VarView>)>>
    decreases entries.len(),
{
    if entries.len() == 0 {
        Some(Seq::empty())
    } else {
        match multivariables_from_entries(entries.drop_last()) {
            Some(m2) => match spec_as_str(entries.last().0) {
                Some(k) => match value_vars(entries.last().1, false) {
                    Some(vars) => Some(m2.push((k, vars))),
                    None => None,
                },
                None => Some(m2),
            },
            None => None,
        }
    }
}

/// Once reading fails, reading more entries keeps failing.
proof fn lemma_multivariables_fail(entries: Seq<(Yaml, Yaml)>, n: int)
    requires
        0 < n <= entries.len(),
        multivariables_from_entries(entries.take(n)) is None,
    ensures
        multivariables_from_entries(entries) is None,
    decreases entries.len() - n,
{
    if n < entries.len() {
        assert(entries.take(n + 1).drop_last() =~= entries.take(n));
        lemma_multivariables_fail(entries, n + 1);
    } else {
        assert(entries.take(n) =~= entries);
    }
}

/// The views of a list of multi-variables.
pub open spec fn multivar_views(v: Seq<MultiVariable>) -> Seq<(Seq<char>, Seq<VarView>)> {
    v.map_values(|m: MultiVariable| multivar_view(m))
}

/// Read `MultiVariable` definitions (e.g. "environment") appended to `vec`.
/// Returns `Ok(false)` when `yaml` is not a mapping; values may be strings, lists of
/// strings or integers, anything else is an invalid-configuration error.
pub fn get_multivariables(yaml: &Yaml, vec: &mut Vec<MultiVariable>) -> (r: Result<bool, GardenError>)
    ensures
        r matches Ok(found) ==> found == (*yaml is Hash),
        !(*yaml is Hash) ==> r == Ok::<bool, GardenError>(false) && final(vec)@ == old(vec)@,
        *yaml is Hash ==> (r is Ok <==> multivariables_from_entries(yaml->Hash_0@) is Some),
        *yaml is Hash && r is Ok ==> Some(multivar_views(final(vec)@)) == (match multivariables_from_entries(yaml->Hash_0@) {
            Some(m) => Some(multivar_views(old(vec)@) + m),
            None => None,
        }),
        r is Err ==> r->Err_0 is InvalidConfiguration,
{
    match yaml {
        Yaml::Hash(hash) => {
            let mut i: usize = 0;
            while i < hash.len()
                invariant
                    i <= hash@.len(),
                    *yaml == Yaml::Hash(*hash),
                    multivariables_from_entries(hash@.take(i as int)) matches Some(m) && multivar_views(vec@)
                        == multivar_views(old(vec)@) + m,
                decreases hash.len() - i,
            {
                assert(hash@.take(i + 1).drop_last() =~= hash@.take(i as int));
                assert(hash@.take(i + 1).last() == hash@[i as int]);
                match hash[i].0.as_str() {
                    Some(key) => {
                        match variables_from_value(&hash[i].1, false) {
                            Some(vars) => {
                                let ghost before = vec@;
                                let mv = MultiVariable::new(key.clone(), vars);
                                vec.push(mv);
                                assert(multivar_views(vec@) =~= multivar_views(before).push(multivar_view(mv)));
                            },
                            None => {
                                proof {
                                    lemma_multivariables_fail(hash@, i + 1);
                                }
                                return Err(invalid_configuration("invalid configuration"));
                            },
                        }
                    },
                    None => {},
                }
                i = i + 1;
            }
            assert(hash@.take(hash@.len() as int) =~= hash@);
            Ok(true)
        },
        _ => Ok(false),
    }
}

/// The plain view of a map of variable lists.
pub open spec fn multivars_view(s: Seq<(Seq<char>, Vec<Variable>)>) -> Seq<(Seq<char>, Seq<VarView>)> {
    entry_map_values(s, |v: Vec<Variable>| var_views(v@))
}

/// The map of variable lists after reading the entries of a "commands" or
/// "gitconfig" block: each string-keyed entry inserts its list. `None` when a
/// value has an unsupported type.
pub open spec fn multivariable_map_from_entries(
    m: Seq<(Seq<char>, Seq<VarView>)>,
    entries: Seq<(Yaml, Yaml)>,
) -> Option<Seq<(Seq<char>, Seq<VarView>)>>
    decreases entries.len(),
{
    if entries.len() == 0 {
        Some(m)
    } else {
        match multivariable_map_from_entries(m, entries.drop_last()) {
            Some(m2) => match spec_as_str(entries.last().0) {
                Some(k) => match value_vars(entries.last().1, true) {
                    Some(vars) => Some(entry_insert(m2, k, vars)),
                    None => None,
                },
                None => Some(m2),
            },
            None => None,
        }
    }
}

/// Once reading fails, reading more entries keeps failing.
proof fn lemma_multivariable_map_fail(
    m: Seq<(Seq<char>, Seq<VarView>)>,
    entries: Seq<(Yaml, Yaml)>,
    n: int,
)
    requires
        0 < n <= entries.len(),
        multivariable_map_from_entries(m, entries.take(n)) is None,
    ensures
        multivariable_map_from_entries(m, entries) is None,
    decreases entries.len() - n,
{
    if n < entries.len() {
        assert(entries.take(n + 1).drop_last() =~= entries.take(n));
        lemma_multivariable_map_fail(m, entries, n + 1);
    } else {
        assert(entries.take(n) =~= entries);
    }
}

/// Read a mapping of variable lists (e.g. "commands" and "gitconfig") into
/// `multivariables`. Returns `Ok(false)` when `yaml` is not a mapping; values may be
/// strings, lists of strings, integers or booleans, anything else is an
/// invalid-configuration error.
pub fn get_multivariables_hashmap(yaml: &Yaml, multivariables: &mut MultiVariableMap) -> (r: Result<bool, GardenError>)
    ensures
        r matches Ok(found) ==> found == (*yaml is Hash),
        !(*yaml is Hash) ==> r == Ok::<bool, GardenError>(false) && final(multivariables)@ == old(multivariables)@,
        *yaml is Hash ==> (r is Ok <==> multivariable_map_from_entries(multivars_view(old(multivariables)@), yaml->Hash_0@) is Some),
        *yaml is Hash && r is Ok ==> Some(multivars_view(final(multivariables)@)) == multivariable_map_from_entries(
            multivars_view(old(multivariables)@),
            yaml->Hash_0@,
        ),
        r is Err ==> r->Err_0 is InvalidConfiguration,
{
    match yaml {
        Yaml::Hash(hash) => {
            let mut i: usize = 0;
            while i < hash.len()
                invariant
                    i <= hash@.len(),
                    *yaml == Yaml::Hash(*hash),
                    multivariable_map_from_entries(multivars_view(old(multivariables)@), hash@.take(i as int))
                        == Some(multivars_view(multivariables@)),
                decreases hash.len() - i,
            {
                assert(hash@.take(i + 1).drop_last() =~= hash@.take(i as int));
                assert(hash@.take(i + 1).last() == hash@[i as int]);
                match hash[i].0.as_str() {
                    Some(key) => {
                        match variables_from_value(&hash[i].1, true) {
                            Some(vars) => {
                                let ghost before = multivariables@;
                                multivariables.insert(key.clone(), vars);
                                proof {
                                    lemma_entry_insert_map(before, |v: Vec<Variable>| var_views(v@), key@, vars);
                                }
                            },
                            None => {
                                proof {
                                    lemma_multivariable_map_fail(multivars_view(old(multivariables)@), hash@, i + 1);
                                }
                                return Err(invalid_configuration("invalid variables"));
                            },
                        }
                    },
                    None => {},
                }
                i = i + 1;
            }
            assert(hash@.take(hash@.len() as int) =~= hash@);
            Ok(true)
        },
        _ => Ok(false),
    }
}


/// Every string-keyed entry has a value of a supported type.
pub open spec fn entries_valid(entries: Seq<(Yaml, Yaml)>, allow_bool: bool) -> bool
    decreases entries.len(),
{
    entries.len() == 0 || (entries_valid(entries.drop_last(), allow_bool) && (spec_as_str(
        entries.last().0,
    ) is Some ==> value_vars(entries.last().1, allow_bool) is Some))
}

/// A block that is not a mapping is ignored; a mapping must have valid entries.
pub open spec fn yaml_valid(y: Yaml, allow_bool: bool) -> bool {
    match y {
        Yaml::Hash(e) => entries_valid(e@, allow_bool),
        _ => true,
    }
}

/// Reading variables succeeds exactly on valid entries.
pub proof fn lemma_variables_valid(m: Seq<(Seq<char>, VarView)>, entries: Seq<(Yaml, Yaml)>)
    ensures
        (variables_from_entries(m, entries) is Some) == entries_valid(entries, true),
    decreases entries.len(),
{
    if entries.len() > 0 {
        lemma_variables_valid(m, entries.drop_last());
    }
}

/// Reading variable lists succeeds exactly on valid entries.
pub proof fn lemma_multivariable_map_valid(
    m: Seq<(Seq<char>, Seq<VarView>)>,
    entries: Seq<(Yaml, Yaml)>,
)
    ensures
        (multivariable_map_from_entries(m, entries) is Some) == entries_valid(entries, true),
    decreases entries.len(),
{
    if entries.len() > 0 {
        lemma_multivariable_map_valid(m, entries.drop_last());
    }
}

/// Reading multi-variables succeeds exactly on valid entries.
pub proof fn lemma_multivariables_valid(entries: Seq<(Yaml, Yaml)>)
    ensures
        (multivariables_from_entries(entries) is Some) == entries_valid(entries, false),
    decreases entries.len(),
{
    if entries.len() > 0 {
        lemma_multivariables_valid(entries.drop_last());
    }
}

/// A variables map after reading block `y` into `m`.
pub open spec fn read_variables(m: Seq<(Seq<char>, VarView)>, y: Yaml) -> Seq<(Seq<char>, VarView)> {
    match y {
        Yaml::Hash(e) => match variables_from_entries(m, e@) {
            Some(x) => x,
            None => m,
        },
        _ => m,
    }
}

/// A map of variable lists after reading block `y` into `m`.
pub open spec fn read_multivariable_map(m: Seq<(Seq<char>, Seq<VarView>)>, y: Yaml) -> Seq<
    (Seq<char>, Seq<VarView>),
> {
    match y {
        Yaml::Hash(e) => match multivariable_map_from_entries(m, e@) {
            Some(x) => x,
            None => m,
        },
        _ => m,
    }
}

/// A list of multi-variables after reading block `y` onto its end.
pub open spec fn read_multivariables(v: Seq<(Seq<char>, Seq<VarView>)>, y: Yaml) -> Seq<
    (Seq<char>, Seq<VarView>),
> {
    match y {
        Yaml::Hash(e) => match multivariables_from_entries(e@) {
            Some(x) => v + x,
            None => v,
        },
        _ => v,
    }
}

/// A string after reading node `y` (unchanged unless `y` is a string).
pub open spec fn read_string(s: Seq<char>, y: Yaml) -> Seq<char> {
    match spec_as_str(y) {
        Some(x) => x,
        None => s,
    }
}

/// Unevaluated variables appended for a string or list node.
pub open spec fn read_vec_variables(v: Seq<VarView>, y: Yaml) -> Seq<VarView> {
    v + match y {
        Yaml::String(s) => unevaluated(seq![s@]),
        Yaml::Array(a) => unevaluated(yaml_strings(a@)),
        _ => Seq::empty(),
    }
}

/// A variable after reading its expression from node `y`.
pub open spec fn read_variable(v: Variable, y: Yaml) -> VarView {
    match y {
        Yaml::String(s) => (s@, v.value_of()),
        _ => var_view(v),
    }
}

/// The entries after inserting each string-to-string entry of a mapping.
pub open spec fn str_entries(m: Seq<(Seq<char>, VarView)>, entries: Seq<(Yaml, Yaml)>) -> Seq<
    (Seq<char>, VarView),
>
    decreases entries.len(),
{
    if entries.len() == 0 {
        m
    } else {
        let m2 = str_entries(m, entries.drop_last());
        match (spec_as_str(entries.last().0), spec_as_str(entries.last().1)) {
            (Some(k), Some(v)) => entry_insert(m2, k, (v, None::<Seq<char>>)),
            _ => m2,
        }
    }
}

/// A variables map after reading the string entries of block `y`.
pub open spec fn read_str_map(m: Seq<(Seq<char>, VarView)>, y: Yaml) -> Seq<(Seq<char>, VarView)> {
    match y {
        Yaml::Hash(e) => str_entries(m, e@),
        _ => m,
    }
}

/// Read simple string values (e.g. "remotes") into a variables map; entries whose
/// key or value is not a string are skipped.
pub fn get_str_variables_hashmap(yaml: &Yaml, remotes: &mut VariableMap)
    ensures
        vars_view(final(remotes)@) == read_str_map(vars_view(old(remotes)@), *yaml),
{
    let hash = match yaml {
        Yaml::Hash(hash) => hash,
        _ => return ,
    };
    let mut i: usize = 0;
    while i < hash.len()
        invariant
            *yaml == Yaml::Hash(*hash),
            i <= hash@.len(),
            str_entries(vars_view(old(remotes)@), hash@.take(i as int)) == vars_view(remotes@),
        decreases hash.len() - i,
    {
        assert(hash@.take(i + 1).drop_last() =~= hash@.take(i as int));
        assert(hash@.take(i + 1).last() == hash@[i as int]);
        match (hash[i].0.as_str(), hash[i].1.as_str()) {
            (Some(name_str), Some(value_str)) => {
                let ghost before = remotes@;
                let var = Variable::new(value_str.clone(), None);
                remotes.insert(name_str.clone(), var);
                proof {
                    lemma_entry_insert_map(before, |v: Variable| var_view(v), name_str@, var);
                }
            },
            _ => {},
        }
        i = i + 1;
    }
    assert(hash@.take(hash@.len() as int) =~= hash@);
}


/// The blocks of a tree or template definition that must hold valid values.
pub open spec fn tree_fields_valid(value: Yaml) -> bool {
    &&& yaml_valid(spec_index(value, constants::VARIABLES@), true)
    &&& yaml_valid(spec_index(value, constants::GITCONFIG@), true)
    &&& yaml_valid(spec_index(value, constants::ENVIRONMENT@), false)
    &&& yaml_valid(spec_index(value, constants::COMMANDS@), true)
    &&& yaml_valid(spec_index(value, constants::BRANCHES@), true)
}

/// `t` is `old` after reading the fields common to trees and templates from `value`.
pub open spec fn tree_fields_read(t: Tree, old: Tree, value: Yaml) -> bool {
    let field = |k: Seq<char>| spec_index(value, k);
    let default_remote = read_string(old.default_remote@, field(constants::DEFAULT_REMOTE@));
    let remotes = read_str_map(vars_view(old.remotes@), field(constants::REMOTES@));
    let symlink = read_variable(old.symlink, field(constants::SYMLINK@));
    let worktree = read_variable(old.worktree, field(constants::WORKTREE@));
    let bare = match field(constants::BARE@) {
        Yaml::Boolean(b) => b,
        _ => old.is_bare_repository,
    };
    &&& vars_view(t.variables@) == read_variables(vars_view(old.variables@), field(constants::VARIABLES@))
    &&& multivars_view(t.gitconfig@) == read_multivariable_map(
        multivars_view(old.gitconfig@),
        field(constants::GITCONFIG@),
    )
    &&& t.default_remote@ == default_remote
    &&& t.description@ == (match spec_as_str(field(constants::DESCRIPTION@)) {
        Some(s) => spec_trim_end(s),
        None => old.description@,
    })
    &&& vars_view(t.remotes@) == (match spec_as_str(field(constants::URL@)) {
        Some(u) => if u.len() > 0 {
            entry_insert(remotes, default_remote, (u, None::<Seq<char>>))
        } else {
            remotes
        },
        None => remotes,
    })
    &&& var_views(t.links@) == read_vec_variables(var_views(old.links@), field(constants::LINKS@))
    &&& multivar_views(t.environment@) == read_multivariables(
        multivar_views(old.environment@),
        field(constants::ENVIRONMENT@),
    )
    &&& multivars_view(t.commands@) == read_multivariable_map(
        multivars_view(old.commands@),
        field(constants::COMMANDS@),
    )
    &&& var_view(t.branch) == read_variable(old.branch, field(constants::BRANCH@))
    &&& vars_view(t.branches@) == read_variables(vars_view(old.branches@), field(constants::BRANCHES@))
    &&& var_view(t.symlink) == symlink
    &&& var_view(t.worktree) == worktree
    &&& t.clone_depth == (match field(constants::DEPTH@) {
        Yaml::Integer(i) => i,
        _ => old.clone_depth,
    })
    &&& t.is_single_branch == (match field(constants::SINGLE_BRANCH@) {
        Yaml::Boolean(b) => b,
        _ => old.is_single_branch,
    })
    &&& (t.is_symlink, t.is_worktree, t.is_bare_repository) == flags_updated(
        symlink.0.len() == 0,
        worktree.0.len() == 0,
        old.is_symlink,
        old.is_worktree,
        bare,
    )
    &&& t.templates@ == old.templates@
    &&& t.name_of() == old.name_of()
    &&& t.path_of() == old.path_of()
}

/// Read the fields common to trees and templates. Fails with an invalid-configuration
/// error when a variables, gitconfig, environment, commands or branches block holds a
/// value of an unsupported type.
#[verifier::spinoff_prover]
#[verifier::rlimit(50)]
pub fn get_tree_fields(value: &Yaml, tree: &mut Tree) -> (r: Result<(), GardenError>)
    ensures
        r is Ok <==> tree_fields_valid(*value),
        r is Ok ==> tree_fields_read(*final(tree), *old(tree), *value),
        r is Err ==> r->Err_0 is InvalidConfiguration,
{
    let ghost t0 = *tree;
    let y_variables = value.index(constants::VARIABLES);
    proof {
        if *y_variables is Hash {
            lemma_variables_valid(vars_view(t0.variables@), y_variables->Hash_0@);
        }
    }
    if let Err(e) = get_variables_hashmap(y_variables, &mut tree.variables) {
        return Err(e);
    }
    let y_gitconfig = value.index(constants::GITCONFIG);
    proof {
        if *y_gitconfig is Hash {
            lemma_multivariable_map_valid(multivars_view(t0.gitconfig@), y_gitconfig->Hash_0@);
        }
    }
    if let Err(e) = get_multivariables_hashmap(y_gitconfig, &mut tree.gitconfig) {
        return Err(e);
    }
    get_str(value.index(constants::DEFAULT_REMOTE), &mut tree.default_remote);
    get_str_trimmed(value.index(constants::DESCRIPTION), &mut tree.description);
    get_str_variables_hashmap(value.index(constants::REMOTES), &mut tree.remotes);
    get_vec_variables(value.index(constants::LINKS), &mut tree.links);

    let y_environment = value.index(constants::ENVIRONMENT);
    proof {
        if *y_environment is Hash {
            lemma_multivariables_valid(y_environment->Hash_0@);
        }
    }
    if let Err(e) = get_multivariables(y_environment, &mut tree.environment) {
        return Err(e);
    }
    let y_commands = value.index(constants::COMMANDS);
    proof {
        if *y_commands is Hash {
            lemma_multivariable_map_valid(multivars_view(t0.commands@), y_commands->Hash_0@);
        }
    }
    if let Err(e) = get_multivariables_hashmap(y_commands, &mut tree.commands) {
        return Err(e);
    }

    get_variable(value.index(constants::BRANCH), &mut tree.branch);
    let y_branches = value.index(constants::BRANCHES);
    proof {
        if *y_branches is Hash {
            lemma_variables_valid(vars_view(t0.branches@), y_branches->Hash_0@);
        }
    }
    if let Err(e) = get_variables_hashmap(y_branches, &mut tree.branches) {
        return Err(e);
    }
    get_variable(value.index(constants::SYMLINK), &mut tree.symlink);
    get_variable(value.index(constants::WORKTREE), &mut tree.worktree);

    get_i64(value.index(constants::DEPTH), &mut tree.clone_depth);
    get_bool(value.index(constants::BARE), &mut tree.is_bare_repository);
    get_bool(value.index(constants::SINGLE_BRANCH), &mut tree.is_single_branch);

    // Load the URL and store it in the default remote.
    let mut url = String::new();
    if get_str(value.index(constants::URL), &mut url) {
        let ghost before = tree.remotes@;
        let var = Variable::new(url, None);
        tree.remotes.insert(tree.default_remote.clone(), var);
        proof {
            lemma_entry_insert_map(before, |v: Variable| var_view(v), tree.default_remote@, var);
        }
    }
    tree.update_flags();
    Ok(())
}


/// `t` is the tree of a one-line `name: <url>` entry.
pub open spec fn url_tree(t: Tree, name: Yaml, url: Seq<char>) -> bool {
    &&& t.name_of() == read_string(Seq::empty(), name)
    &&& t.path_of().expr_of() == t.name_of()
    &&& t.path_of().value_of() == Some(t.name_of())
    &&& vars_view(t.variables@) == entry_insert(
        entry_insert(Seq::empty(), constants::TREE_NAME@, (t.name_of(), None::<Seq<char>>)),
        constants::TREE_PATH@,
        (t.name_of(), None::<Seq<char>>),
    )
    &&& vars_view(t.remotes@) == seq![(constants::ORIGIN@, (url, None::<Seq<char>>))]
    &&& t.is_bare_repository == syntax::spec_is_git_dir(t.name_of())
    &&& tree_blank(t)
}

/// The tree of a one-line `name: <url>` entry: named after `name`, with the same
/// evaluated path, the builtin variables and the URL as its "origin" remote.
pub fn get_tree_from_url(name: &Yaml, url: &str) -> (t: Tree)
    ensures
        url_tree(t, *name, url@),
{
    let mut tree = Tree::default();
    get_str(name, &mut tree.name);
    // Default to the name when "path" is unspecified.
    let tree_name = tree.name.clone();
    tree.path = Variable::new(tree_name.clone(), Some(tree_name));
    proof {
        assert(vars_view(tree.variables@) =~= Seq::empty());
        assert(tree.remotes@ =~= Seq::empty());
    }
    tree.add_builtin_variables();
    if syntax::is_git_dir(tree.path.get_expr().as_str()) {
        tree.is_bare_repository = true;
    }
    let ghost before = tree.remotes@;
    let var = Variable::new(owned(url), None);
    tree.remotes.insert(owned(constants::ORIGIN), var);
    proof {
        lemma_entry_insert_map(before, |v: Variable| var_view(v), constants::ORIGIN@, var);
        assert(vars_view(before) =~= Seq::empty());
        assert(vars_view(tree.remotes@) =~= seq![(constants::ORIGIN@, (url@, None::<Seq<char>>))]);
        assert(tree.name_of() == read_string(Seq::empty(), *name));
        assert(tree_blank(tree));
        assert(tree.path_of().value_of() == Some(tree.name_of()));
    }
    tree
}

/// Set members after reading a string or list node.
pub open spec fn read_members(s: Seq<Seq<char>>, y: Yaml) -> Seq<Seq<char>> {
    match y {
        Yaml::String(x) => set_insert(s, x@),
        Yaml::Array(a) => set_insert_all(s, yaml_strings(a@)),
        _ => s,
    }
}

/// The plain view of a group: its name and members.
pub open spec fn group_view(g: Group) -> (Seq<char>, Seq<Seq<char>>) {
    (g.name@, g.members@)
}

/// The plain view of a map of groups.
pub open spec fn groups_view(s: Seq<(Seq<char>, Group)>) -> Seq<(Seq<char>, (Seq<char>, Seq<Seq<char>>))> {
    entry_map_values(s, |g: Group| group_view(g))
}

/// The groups after reading the entries of a "groups" block: each entry defines
/// (or redefines) the group named by its key.
pub open spec fn groups_from_entries(
    m: Seq<(Seq<char>, (Seq<char>, Seq<Seq<char>>))>,
    entries: Seq<(Yaml, Yaml)>,
) -> Seq<(Seq<char>, (Seq<char>, Seq<Seq<char>>))>
    decreases entries.len(),
{
    if entries.len() == 0 {
        m
    } else {
        let name = read_string(Seq::empty(), entries.last().0);
        entry_insert(
            groups_from_entries(m, entries.drop_last()),
            name,
            (name, read_members(Seq::empty(), entries.last().1)),
        )
    }
}

/// Read group definitions. Returns `false` when `yaml` is not a mapping.
pub fn get_groups(yaml: &Yaml, groups: &mut GroupMap) -> (r: bool)
    ensures
        r == (*yaml is Hash),
        groups_view(final(groups)@) == (match *yaml {
            Yaml::Hash(e) => groups_from_entries(groups_view(old(groups)@), e@),
            _ => groups_view(old(groups)@),
        }),
{
    match yaml {
        Yaml::Hash(hash) => {
            let mut i: usize = 0;
            while i < hash.len()
                invariant
                    *yaml == Yaml::Hash(*hash),
                    i <= hash@.len(),
                    groups_from_entries(groups_view(old(groups)@), hash@.take(i as int))
                        == groups_view(groups@),
                decreases hash.len() - i,
            {
                assert(hash@.take(i + 1).drop_last() =~= hash@.take(i as int));
                assert(hash@.take(i + 1).last() == hash@[i as int]);
                let mut group = Group::default();
                assert(group.members@ =~= Seq::<Seq<char>>::empty());
                assert(group.name@ =~= Seq::<char>::empty());
                get_str(&hash[i].0, &mut group.name);
                get_indexset_str(&hash[i].1, &mut group.members);
                let ghost before = groups@;
                let key = group.get_name_owned();
                groups.insert(key, group);
                proof {
                    lemma_entry_insert_map(before, |g: Group| group_view(g), key@, group);
                }
                i = i + 1;
            }
            assert(hash@.take(hash@.len() as int) =~= hash@);
            true
        },
        _ => false,
    }
}

/// The plain view of a graft: its config id, name, root and config path.
pub open spec fn graft_view(g: Graft) -> (Option<ConfigId>, Seq<char>, Seq<char>, Seq<char>) {
    (g.id, g.name@, g.root@, g.config@)
}

/// The graft read from one "grafts" entry: a string value is the config path; a
/// mapping may give "config" and "root".
pub open spec fn read_graft(name: Yaml, graft: Yaml) -> (Option<ConfigId>, Seq<char>, Seq<char>, Seq<char>) {
    let config = match spec_as_str(graft) {
        Some(s) => s,
        None => if graft is Hash {
            read_string(Seq::empty(), spec_index(graft, constants::CONFIG@))
        } else {
            Seq::empty()
        },
    };
    let root = if spec_as_str(graft) is None && graft is Hash {
        read_string(Seq::empty(), spec_index(graft, constants::ROOT@))
    } else {
        Seq::empty()
    };
    (None, read_string(Seq::empty(), name), root, config)
}

/// Read a graft entry.
pub fn get_graft(name: &Yaml, graft: &Yaml) -> (g: Graft)
    ensures
        graft_view(g) == read_graft(*name, *graft),
{
    let mut graft_name = String::new();
    let mut config = String::new();
    let mut root = String::new();

    get_str(name, &mut graft_name);

    if !get_str(graft, &mut config) {
        // The root was not specified.
        if let Yaml::Hash(_) = graft {
            // A config expression and root might be specified.
            get_str(graft.index(constants::CONFIG), &mut config);
            get_str(graft.index(constants::ROOT), &mut root);
        }
    }
    Graft::new(graft_name, root, config)
}

/// The plain view of a map of grafts.
pub open spec fn grafts_view(s: Seq<(Seq<char>, Graft)>) -> Seq<
    (Seq<char>, (Option<ConfigId>, Seq<char>, Seq<char>, Seq<char>)),
> {
    entry_map_values(s, |g: Graft| graft_view(g))
}

/// The grafts after reading the entries of a "grafts" block.
pub open spec fn grafts_from_entries(
    m: Seq<(Seq<char>, (Option<ConfigId>, Seq<char>, Seq<char>, Seq<char>))>,
    entries: Seq<(Yaml, Yaml)>,
) -> Seq<(Seq<char>, (Option<ConfigId>, Seq<char>, Seq<char>, Seq<char>))>
    decreases entries.len(),
{
    if entries.len() == 0 {
        m
    } else {
        let g = read_graft(entries.last().0, entries.last().1);
        entry_insert(grafts_from_entries(m, entries.drop_last()), g.1, g)
    }
}

/// Read a "grafts" block. Returns `false` when `yaml` is not a mapping.
pub fn get_grafts(yaml: &Yaml, grafts: &mut OrderedMap<Graft>) -> (r: bool)
    ensures
        r == (*yaml is Hash),
        grafts_view(final(grafts)@) == (match *yaml {
            Yaml::Hash(e) => grafts_from_entries(grafts_view(old(grafts)@), e@),
            _ => grafts_view(old(grafts)@),
        }),
{
    match yaml {
        Yaml::Hash(hash) => {
            let mut i: usize = 0;
            while i < hash.len()
                invariant
                    *yaml == Yaml::Hash(*hash),
                    i <= hash@.len(),
                    grafts_from_entries(grafts_view(old(grafts)@), hash@.take(i as int))
                        == grafts_view(grafts@),
                decreases hash.len() - i,
            {
                assert(hash@.take(i + 1).drop_last() =~= hash@.take(i as int));
                assert(hash@.take(i + 1).last() == hash@[i as int]);
                let graft = get_graft(&hash[i].0, &hash[i].1);
                let ghost before = grafts@;
                let key = graft.get_name().clone();
                grafts.insert(key, graft);
                proof {
                    lemma_entry_insert_map(before, |g: Graft| graft_view(g), key@, graft);
                }
                i = i + 1;
            }
            assert(hash@.take(hash@.len() as int) =~= hash@);
            true
        },
        _ => false,
    }
}


/// The plain view of a garden: name, groups, trees, gitconfig, variables,
/// environment and commands.
pub type GardenView = (
    Seq<char>,
    Seq<Seq<char>>,
    Seq<Seq<char>>,
    Seq<(Seq<char>, Seq<VarView>)>,
    Seq<(Seq<char>, VarView)>,
    Seq<(Seq<char>, Seq<VarView>)>,
    Seq<(Seq<char>, Seq<VarView>)>,
);

/// The plain view of a garden.
pub open spec fn garden_view(g: Garden) -> GardenView {
    (
        g.name@,
        g.groups@,
        g.trees@,
        multivars_view(g.gitconfig@),
        vars_view(g.variables@),
        multivar_views(g.environment@),
        multivars_view(g.commands@),
    )
}

/// The plain view of a map of gardens.
pub open spec fn gardens_view(s: Seq<(Seq<char>, Garden)>) -> Seq<(Seq<char>, GardenView)> {
    entry_map_values(s, |g: Garden| garden_view(g))
}

/// The blocks of a garden definition that must hold valid values.
pub open spec fn garden_valid(value: Yaml) -> bool {
    &&& yaml_valid(spec_index(value, constants::GITCONFIG@), true)
    &&& yaml_valid(spec_index(value, constants::VARIABLES@), true)
    &&& yaml_valid(spec_index(value, constants::ENVIRONMENT@), false)
    &&& yaml_valid(spec_index(value, constants::COMMANDS@), true)
}

/// The garden defined by one "gardens" entry.
pub open spec fn read_garden(name: Yaml, value: Yaml) -> GardenView {
    let field = |k: Seq<char>| spec_index(value, k);
    (
        read_string(Seq::empty(), name),
        read_members(Seq::empty(), field(constants::GROUPS@)),
        read_members(Seq::empty(), field(constants::TREES@)),
        read_multivariable_map(Seq::empty(), field(constants::GITCONFIG@)),
        read_variables(Seq::empty(), field(constants::VARIABLES@)),
        read_multivariables(Seq::empty(), field(constants::ENVIRONMENT@)),
        read_multivariable_map(Seq::empty(), field(constants::COMMANDS@)),
    )
}

/// Read one garden definition.
pub fn get_garden(name: &Yaml, value: &Yaml) -> (r: Result<Garden, GardenError>)
    ensures
        r is Ok <==> garden_valid(*value),
        r matches Ok(g) ==> garden_view(g) == read_garden(*name, *value),
        r is Err ==> r->Err_0 is InvalidConfiguration,
{
    let mut garden = Garden::default();
    proof {
        assert(garden.name@ =~= Seq::<char>::empty());
        assert(garden.groups@ =~= Seq::<Seq<char>>::empty());
        assert(garden.trees@ =~= Seq::<Seq<char>>::empty());
        assert(multivars_view(garden.gitconfig@) =~= Seq::empty());
        assert(vars_view(garden.variables@) =~= Seq::empty());
        assert(multivar_views(garden.environment@) =~= Seq::empty());
        assert(multivars_view(garden.commands@) =~= Seq::empty());
    }
    get_str(name, &mut garden.name);
    get_indexset_str(value.index(constants::GROUPS), &mut garden.groups);
    get_indexset_str(value.index(constants::TREES), &mut garden.trees);
    let y_gitconfig = value.index(constants::GITCONFIG);
    proof {
        if *y_gitconfig is Hash {
            lemma_multivariable_map_valid(Seq::empty(), y_gitconfig->Hash_0@);
        }
    }
    if let Err(e) = get_multivariables_hashmap(y_gitconfig, &mut garden.gitconfig) {
        return Err(e);
    }
    let y_variables = value.index(constants::VARIABLES);
    proof {
        if *y_variables is Hash {
            lemma_variables_valid(Seq::empty(), y_variables->Hash_0@);
        }
    }
    if let Err(e) = get_variables_hashmap(y_variables, &mut garden.variables) {
        return Err(e);
    }
    let y_environment = value.index(constants::ENVIRONMENT);
    proof {
        if *y_environment is Hash {
            lemma_multivariables_valid(y_environment->Hash_0@);
            assert(Seq::<(Seq<char>, Seq<VarView>)>::empty() + multivariables_from_entries(
                y_environment->Hash_0@,
            ).unwrap_or(Seq::empty()) =~= multivariables_from_entries(y_environment->Hash_0@).unwrap_or(
                Seq::empty(),
            ));
        }
    }
    if let Err(e) = get_multivariables(y_environment, &mut garden.environment) {
        return Err(e);
    }
    let y_commands = value.index(constants::COMMANDS);
    proof {
        if *y_commands is Hash {
            lemma_multivariable_map_valid(Seq::empty(), y_commands->Hash_0@);
        }
    }
    if let Err(e) = get_multivariables_hashmap(y_commands, &mut garden.commands) {
        return Err(e);
    }
    Ok(garden)
}

/// The gardens after reading the entries of a "gardens" block.
pub open spec fn gardens_from_entries(
    m: Seq<(Seq<char>, GardenView)>,
    entries: Seq<(Yaml, Yaml)>,
) -> Seq<(Seq<char>, GardenView)>
    decreases entries.len(),
{
    if entries.len() == 0 {
        m
    } else {
        let g = read_garden(entries.last().0, entries.last().1);
        entry_insert(gardens_from_entries(m, entries.drop_last()), g.0, g)
    }
}

/// Read garden definitions. Returns `Ok(false)` when `yaml` is not a mapping, and an
/// invalid-configuration error when a garden holds a value of an unsupported type.
pub fn get_gardens(yaml: &Yaml, gardens: &mut GardenMap) -> (r: Result<bool, GardenError>)
    ensures
        r is Ok <==> (*yaml is Hash ==> forall|i: int|
            0 <= i < yaml->Hash_0@.len() ==> garden_valid(#[trigger] yaml->Hash_0@[i].1)),
        r matches Ok(found) ==> found == (*yaml is Hash),
        r is Ok ==> gardens_view(final(gardens)@) == (match *yaml {
            Yaml::Hash(e) => gardens_from_entries(gardens_view(old(gardens)@), e@),
            _ => gardens_view(old(gardens)@),
        }),
        r is Err ==> r->Err_0 is InvalidConfiguration,
{
    match yaml {
        Yaml::Hash(hash) => {
            let mut i: usize = 0;
            while i < hash.len()
                invariant
                    *yaml == Yaml::Hash(*hash),
                    i <= hash@.len(),
                    forall|j: int| 0 <= j < i ==> garden_valid(#[trigger] hash@[j].1),
                    gardens_from_entries(gardens_view(old(gardens)@), hash@.take(i as int))
                        == gardens_view(gardens@),
                decreases hash.len() - i,
            {
                assert(hash@.take(i + 1).drop_last() =~= hash@.take(i as int));
                assert(hash@.take(i + 1).last() == hash@[i as int]);
                let garden = match get_garden(&hash[i].0, &hash[i].1) {
                    Ok(g) => g,
                    Err(e) => {
                        assert(!garden_valid(hash@[i as int].1));
                        assert(yaml->Hash_0@ == hash@);
                        return Err(e);
                    },
                };
                let ghost before = gardens@;
                let key = garden.get_name().clone();
                gardens.insert(key, garden);
                proof {
                    lemma_entry_insert_map(before, |g: Garden| garden_view(g), key@, garden);
                }
                i = i + 1;
            }
            assert(hash@.take(hash@.len() as int) =~= hash@);
            Ok(true)
        },
        _ => Ok(false),
    }
}


/// `t` is the template defined by the one-line `name: <url>` form.
pub open spec fn template_from_url(t: Template, url: Seq<char>) -> bool {
    &&& vars_view(t.tree.remotes@) == seq![(constants::ORIGIN@, (url, None::<Seq<char>>))]
    &&& t.extend@.len() == 0
    &&& tree_blank(t.tree)
    &&& t.tree.variables@.len() == 0
}

/// The node is a non-empty string.
pub open spec fn is_nonempty_str(y: Yaml) -> bool {
    spec_as_str(y) matches Some(s) && s.len() > 0
}

/// `t` is the template defined by the entry `name: value`: a non-empty string value
/// is its URL; otherwise it lists the templates it extends and its tree reads the
/// tree fields of `value` over the tree of its base templates.
pub open spec fn template_read(t: Template, name: Yaml, value: Yaml) -> bool {
    &&& t.name@ == read_string(Seq::empty(), name)
    &&& is_nonempty_str(value) ==> template_from_url(t, spec_as_str(value)->0)
    &&& !is_nonempty_str(value) ==> {
        &&& t.extend@ == read_members(Seq::empty(), spec_index(value, constants::EXTEND@))
        &&& exists|mid: Tree|
            #[trigger] tree_fields_read(t.tree, mid, value) && (t.extend@.len() > 0
                ==> mid.templates@.len() == 0)
    }
}

/// The base templates that a template definition names in its "extend" field.
pub open spec fn template_bases(value: Yaml) -> Seq<Seq<char>> {
    read_members(Seq::empty(), spec_index(value, constants::EXTEND@))
}

/// Reading the template defined by `value` succeeds: a URL string always does;
/// otherwise each base template defined in the mapping `templates` must be read
/// within `depth` further levels, and the template's own fields must be valid.
pub open spec fn template_ok(value: Yaml, templates: Yaml, depth: nat) -> bool
    decreases depth, 1nat, 0nat,
{
    is_nonempty_str(value) || (bases_ok(template_bases(value), templates, depth) && tree_fields_valid(value))
}

/// Reading the base templates `names` succeeds: each one that the mapping
/// `templates` defines is read within `depth` further levels.
pub open spec fn bases_ok(names: Seq<Seq<char>>, templates: Yaml, depth: nat) -> bool
    decreases depth, 0nat, names.len(),
{
    if names.len() == 0 {
        true
    } else {
        bases_ok(names.drop_last(), templates, depth) && (spec_index(templates, names.last()) is Hash ==> (depth
            > 0 && template_ok(spec_index(templates, names.last()), templates, (depth - 1) as nat)))
    }
}

/// A prefix of base templates that can all be read can be read.
proof fn lemma_bases_ok_prefix(names: Seq<Seq<char>>, templates: Yaml, depth: nat, k: int)
    requires
        0 <= k <= names.len(),
        bases_ok(names, templates, depth),
    ensures
        bases_ok(names.take(k), templates, depth),
    decreases names.len(),
{
    if k == names.len() {
        assert(names.take(k) =~= names);
    } else {
        assert(names.drop_last().take(k) =~= names.take(k));
        lemma_bases_ok_prefix(names.drop_last(), templates, depth, k);
    }
}

/// Read a single template definition. Base templates named by "extend" are read
/// first from `templates` (the YAML mapping being read), else taken from the templates
/// of earlier configuration files. `depth` bounds how deeply templates may extend each
/// other: a template that extends itself, directly or not, is an invalid-configuration
/// error once it is exhausted.
pub fn get_template(
    name: &Yaml,
    value: &Yaml,
    config_templates: &OrderedMap<Template>,
    templates: &Yaml,
    depth: usize,
) -> (r: Result<Template, GardenError>)
    ensures
        r matches Ok(t) ==> template_read(t, *name, *value),
        r is Ok <==> template_ok(*value, *templates, depth as nat),
        !is_nonempty_str(*value) && !tree_fields_valid(*value) ==> r is Err,
        is_nonempty_str(*value) ==> r is Ok,
        r is Err ==> r->Err_0 is InvalidConfiguration,
    decreases depth,
{
    let mut template = Template::default();
    proof {
        assert(template.name@ =~= Seq::<char>::empty());
        assert(template.extend@ =~= Seq::<Seq<char>>::empty());
    }
    get_str(name, &mut template.name);
    let mut url = String::new();
    // A single string value is the URL of the "origin" remote.
    if get_str(value, &mut url) {
        let ghost before = template.tree.remotes@;
        let var = Variable::new(url, None);
        template.tree.remotes.insert(owned(constants::ORIGIN), var);
        proof {
            lemma_entry_insert_map(before, |v: Variable| var_view(v), constants::ORIGIN@, var);
            assert(vars_view(before) =~= Seq::empty());
            assert(vars_view(template.tree.remotes@) =~= seq![(constants::ORIGIN@, (url@, None::<Seq<char>>))]);
        }
        return Ok(template);
    }
    // A configured "url" populates the "origin" remote.
    let mut url = String::new();
    if get_str(value.index(constants::URL), &mut url) {
        template.tree.remotes.insert(owned(constants::ORIGIN), Variable::new(url, None));
    }
    // Base templates are processed in order before the template itself.
    get_indexset_str(value.index(constants::EXTEND), &mut template.extend);
    let n = template.extend.len();
    let mut i: usize = 0;
    while i < n
        invariant
            n == template.extend@.len(),
            i <= n,
            template.extend@ == read_members(Seq::empty(), spec_index(*value, constants::EXTEND@)),
            template.name@ == read_string(Seq::empty(), *name),
            i > 0 ==> template.tree.templates@.len() == 0,
            !is_nonempty_str(*value),
            bases_ok(template_bases(*value).take(i as int), *templates, depth as nat),
        decreases n - i,
    {
        let template_name = template.extend.get_index(i).clone();
        let local = templates.index(template_name.as_str());
        let ghost ext = template_bases(*value);
        proof {
            assert(ext.take(i + 1).drop_last() =~= ext.take(i as int));
            assert(ext.take(i + 1).last() == template_name@);
        }
        if let Yaml::Hash(_) = local {
            if depth == 0 {
                proof {
                    if bases_ok(ext, *templates, depth as nat) {
                        lemma_bases_ok_prefix(ext, *templates, depth as nat, i + 1);
                    }
                }
                return Err(invalid_configuration("templates extend each other"));
            }
            let base_name = Yaml::String(template_name.clone());
            let base = match get_template(&base_name, local, config_templates, templates, depth - 1) {
                Ok(b) => b,
                Err(e) => {
                    proof {
                        if bases_ok(ext, *templates, depth as nat) {
                            lemma_bases_ok_prefix(ext, *templates, depth as nat, i + 1);
                        }
                    }
                    return Err(e);
                },
            };
            base.apply(&mut template.tree);
        } else {
            // The base template may come from an earlier configuration file.
            if let Some(base) = config_templates.get(template_name.as_str()) {
                base.apply(&mut template.tree);
            }
        }
        // The base templates were already processed.
        template.tree.templates.clear();
        i = i + 1;
    }
    assert(template_bases(*value).take(n as int) =~= template_bases(*value));
    let ghost mid = template.tree;
    match get_tree_fields(value, &mut template.tree) {
        Ok(()) => {},
        Err(e) => {
            return Err(e);
        },
    }
    assert(tree_fields_read(template.tree, mid, *value));
    Ok(template)
}


/// The map holds under key `k` the template defined by `name: value`.
pub open spec fn template_at(m: Seq<(Seq<char>, Template)>, k: Seq<char>, name: Yaml, value: Yaml) -> bool {
    entry_get(m, k) matches Some(t) && template_read(t, name, value)
}

/// The string keys of a mapping's entries, each once, in order of first appearance.
pub open spec fn string_keys(entries: Seq<(Yaml, Yaml)>) -> Seq<Seq<char>>
    decreases entries.len(),
{
    if entries.len() == 0 {
        Seq::empty()
    } else {
        let ks = string_keys(entries.drop_last());
        match spec_as_str(entries.last().0) {
            Some(k) => set_insert(ks, k),
            None => ks,
        }
    }
}

/// Entry `j` has a string key that no later entry repeats.
pub open spec fn is_last_string_key(entries: Seq<(Yaml, Yaml)>, j: int) -> bool {
    &&& spec_as_str(entries[j].0) is Some
    &&& forall|l: int| j < l < entries.len() ==> spec_as_str(#[trigger] entries[l].0) != spec_as_str(entries[j].0)
}

/// `m` is the templates map `old` after reading the "templates" block `y`: its
/// string keys are added in order, each holds the template of the last entry with
/// that key, and other keys keep their templates.
pub open spec fn templates_read(m: Seq<(Seq<char>, Template)>, old: Seq<(Seq<char>, Template)>, y: Yaml) -> bool {
    match y {
        Yaml::Hash(h) => {
            let e = h@;
            &&& entry_keys(m) == set_append(entry_keys(old), string_keys(e))
            &&& forall|j: int|
                0 <= j < e.len() && #[trigger] is_last_string_key(e, j) ==> template_at(
                    m,
                    spec_as_str(e[j].0)->0,
                    e[j].0,
                    e[j].1,
                )
            &&& forall|k: Seq<char>|
                !string_keys(e).contains(k) ==> #[trigger] entry_get(m, k) == entry_get(old, k)
        },
        _ => m == old,
    }
}

/// A "templates" block defines a template whose fields hold invalid values.
pub open spec fn templates_invalid(y: Yaml) -> bool {
    y is Hash && exists|j: int|
        0 <= j < y->Hash_0@.len() && spec_as_str(y->Hash_0@[j].0) is Some && !is_nonempty_str(
            y->Hash_0@[j].1,
        ) && !tree_fields_valid(#[trigger] y->Hash_0@[j].1)
}

/// Reading a "templates" block succeeds: every string-keyed template of the mapping
/// can be read, with the number of entries bounding how deeply templates extend each
/// other.
pub open spec fn templates_ok(y: Yaml) -> bool {
    match y {
        Yaml::Hash(h) => forall|j: int|
            0 <= j < h@.len() && spec_as_str(h@[j].0) is Some ==> #[trigger] template_ok(
                h@[j].1,
                y,
                h@.len() as nat,
            ),
        _ => true,
    }
}

/// Read template definitions into `templates`. Base templates are looked up among
/// the templates known before this block. Returns `Ok(false)` when `yaml` is not a
/// mapping.
pub fn get_templates(yaml: &Yaml, templates: &mut OrderedMap<Template>) -> (r: Result<bool, GardenError>)
    ensures
        r matches Ok(found) ==> found == (*yaml is Hash),
        !(*yaml is Hash) ==> r is Ok && final(templates)@ == old(templates)@,
        r is Ok ==> templates_read(final(templates)@, old(templates)@, *yaml),
        r is Ok <==> templates_ok(*yaml),
        templates_invalid(*yaml) ==> r is Err,
        r is Err ==> r->Err_0 is InvalidConfiguration,
{
    let hash = match yaml {
        Yaml::Hash(hash) => hash,
        _ => {
            return Ok(false);
        },
    };
    let mut fresh: OrderedMap<Template> = OrderedMap::new();
    let ghost e = hash@;
    let mut i: usize = 0;
    while i < hash.len()
        invariant
            *yaml == Yaml::Hash(*hash),
            e == hash@,
            i <= e.len(),
            keys_unique(fresh@),
            entry_keys(fresh@) == string_keys(e.take(i as int)),
            forall|j: int|
                0 <= j < i && #[trigger] is_last_string_key(e.take(i as int), j) ==> template_at(fresh@, spec_as_str(e[j].0)->0, e[j].0, e[j].1),
            forall|j: int|
                0 <= j < i && spec_as_str(e[j].0) is Some ==> (is_nonempty_str(#[trigger] e[j].1)
                    || tree_fields_valid(e[j].1)),
            forall|j: int|
                0 <= j < i && spec_as_str(e[j].0) is Some ==> #[trigger] template_ok(e[j].1, *yaml, e.len() as nat),
        decreases hash.len() - i,
    {
        assert(e.take(i + 1).drop_last() =~= e.take(i as int));
        assert(e.take(i + 1).last() == e[i as int]);
        match hash[i].0.as_str() {
            Some(template_name) => {
                let depth = hash.len();
                let template = match get_template(&hash[i].0, &hash[i].1, templates, yaml, depth) {
                    Ok(t) => t,
                    Err(err) => {
                        assert(!template_ok(e[i as int].1, *yaml, e.len() as nat));
                        return Err(err);
                    },
                };
                let ghost before = fresh@;
                fresh.insert(template_name.clone(), template);
                proof {
                    lemma_keys_unique_insert(before, template_name@, template);
                    lemma_entry_keys_insert(before, template_name@, template);
                    assert forall|j: int|
                        0 <= j < i + 1 && #[trigger] is_last_string_key(e.take(i + 1), j) implies template_at(fresh@, spec_as_str(e[j].0)->0, e[j].0, e[j].1) by {
                        lemma_entry_get_insert(before, template_name@, template, spec_as_str(e[j].0)->0);
                        if j < i {
                            assert(e.take(i + 1)[i as int] == e[i as int]);
                            assert(is_last_string_key(e.take(i as int), j)) by {
                                assert forall|l: int| j < l < e.take(i as int).len() implies spec_as_str(
                                    #[trigger] e.take(i as int)[l].0,
                                ) != spec_as_str(e.take(i as int)[j].0) by {
                                    assert(e.take(i as int)[l] == e.take(i + 1)[l]);
                                }
                            }
                        }
                    }
                }
            },
            None => {
                proof {
                    assert forall|j: int|
                        0 <= j < i + 1 && #[trigger] is_last_string_key(e.take(i + 1), j) implies template_at(fresh@, spec_as_str(e[j].0)->0, e[j].0, e[j].1) by {
                        if j < i {
                            assert(is_last_string_key(e.take(i as int), j)) by {
                                assert forall|l: int| j < l < e.take(i as int).len() implies spec_as_str(
                                    #[trigger] e.take(i as int)[l].0,
                                ) != spec_as_str(e.take(i as int)[j].0) by {
                                    assert(e.take(i as int)[l] == e.take(i + 1)[l]);
                                }
                            }
                        }
                    }
                }
            },
        }
        i = i + 1;
    }
    assert(e.take(e.len() as int) =~= e);
    let ghost fresh_view = fresh@;
    templates.extend_from(fresh);
    proof {
        assert forall|k: Seq<char>| !string_keys(e).contains(k) implies #[trigger] entry_get(templates@, k)
            == entry_get(old(templates)@, k) by {
            lemma_entries_append_get(old(templates)@, fresh_view, k);
        }
        assert forall|j: int| 0 <= j < e.len() && #[trigger] is_last_string_key(e, j) implies template_at(templates@, spec_as_str(e[j].0)->0, e[j].0, e[j].1) by {
            let k = spec_as_str(e[j].0)->0;
            lemma_entries_append_get(old(templates)@, fresh_view, k);
            lemma_entry_get_keys(fresh_view, k);
        }
        lemma_entries_append_get(old(templates)@, fresh_view, Seq::empty());
    }
    Ok(true)
}


/// The path expression of a tree entry: its "path" when that is a non-empty string,
/// else the tree name.
pub open spec fn tree_path_expr(name: Yaml, value: Yaml) -> Seq<char> {
    let p = spec_index(value, constants::PATH@);
    if is_nonempty_str(p) {
        spec_as_str(p)->0
    } else {
        read_string(Seq::empty(), name)
    }
}

/// `t` is the tree defined by the entry `name: value`: named after `name`, with its
/// path (an unspecified path defaults to the evaluated tree name), flagged bare when
/// the path names a git directory, with the builtin variables when `variables`, and
/// reading the tree fields of `value` over the tree of its bases.
pub open spec fn tree_read(t: Tree, name: Yaml, value: Yaml, variables: bool) -> bool {
    let n = read_string(Seq::empty(), name);
    let path_expr = tree_path_expr(name, value);
    let path_value = if is_nonempty_str(spec_index(value, constants::PATH@)) {
        None
    } else {
        Some(n)
    };
    exists|mid: Tree|
        #[trigger] tree_fields_read(t, mid, value) && mid.name_of() == n && mid.path_of().expr_of()
            == path_expr && mid.path_of().value_of() == path_value && (syntax::spec_is_git_dir(
            path_expr,
        ) ==> mid.is_bare_repository) && (variables ==> entry_get(
            vars_view(mid.variables@),
            constants::TREE_NAME@,
        ) == Some((n, None::<Seq<char>>)) && entry_get(vars_view(mid.variables@), constants::TREE_PATH@)
            == Some((path_expr, None::<Seq<char>>)))
}

/// Reading the base tree named `base` succeeds: a tree that the mapping `trees`
/// defines must be read within `depth` further levels; any other name adds nothing.
pub open spec fn base_tree_ok(
    trees: Yaml,
    base: Seq<char>,
    worktree_values: Seq<(Seq<char>, String)>,
    depth: nat,
) -> bool
    decreases depth, 0nat,
{
    match spec_get(trees, base) {
        Some(b) => depth > 0 && tree_ok(b, trees, worktree_values, (depth - 1) as nat),
        None => true,
    }
}

/// Reading the tree defined by `value` succeeds: the tree it extends and the parent
/// tree of its worktree (the evaluated worktree expression), when the mapping `trees`
/// defines them, are read within `depth` further levels, and its own fields are
/// valid.
pub open spec fn tree_ok(value: Yaml, trees: Yaml, worktree_values: Seq<(Seq<char>, String)>, depth: nat) -> bool
    decreases depth, 1nat,
{
    let ext = spec_index(value, constants::EXTEND@);
    let wt = spec_index(value, constants::WORKTREE@);
    &&& is_nonempty_str(ext) ==> base_tree_ok(trees, spec_as_str(ext)->0, worktree_values, depth)
    &&& is_nonempty_str(wt) ==> match entry_get(worktree_values, spec_as_str(wt)->0) {
        Some(parent) => base_tree_ok(trees, parent@, worktree_values, depth),
        None => true,
    }
    &&& tree_fields_valid(value)
}

/// Read a single tree definition from the "trees" mapping `trees`. A tree may
/// "extend" another tree of this mapping (or one read from an earlier file), be a
/// "worktree" of a tree of this mapping, and apply the configuration's templates.
/// `worktree_values` holds the evaluated values of worktree expressions; `depth`
/// bounds how deeply trees may build on each other: a tree that builds on itself,
/// directly or not, is an invalid-configuration error once it is exhausted.
pub fn get_tree(
    config: &Configuration,
    name: &Yaml,
    value: &Yaml,
    trees: &Yaml,
    variables: bool,
    worktree_values: &OrderedMap<String>,
    depth: usize,
) -> (r: Result<Tree, GardenError>)
    ensures
        r matches Ok(t) ==> tree_read(t, *name, *value, variables),
        r is Ok <==> tree_ok(*value, *trees, worktree_values@, depth as nat),
        !tree_fields_valid(*value) ==> r is Err,
        r is Err ==> r->Err_0 is InvalidConfiguration,
    decreases depth,
{
    // The tree that will be built and returned.
    let mut tree = Tree::default();

    // Allow extending an existing tree by specifying "extend".
    let mut extend = String::new();
    if get_str(value.index(constants::EXTEND), &mut extend) {
        match trees.get_key(extend.as_str()) {
            Some(tree_values) => {
                if depth == 0 {
                    return Err(invalid_configuration("trees extend each other"));
                }
                let tree_name = Yaml::String(extend.clone());
                let base = match get_tree(
                    config,
                    &tree_name,
                    tree_values,
                    trees,
                    false,
                    worktree_values,
                    depth - 1,
                ) {
                    Ok(b) => b,
                    Err(e) => {
                        return Err(e);
                    },
                };
                tree.clone_from_tree(&base);
            },
            None => {
                // The referenced tree may come from an earlier configuration file.
                if let Some(base) = config.get_tree(extend.as_str()) {
                    tree.clone_from_tree(base);
                }
            },
        }
        // Base templates were already processed.
        tree.templates.clear();
    }
    // Load values from the parent tree when using "worktree: <parent>".
    let mut parent_expr = String::new();
    if get_str(value.index(constants::WORKTREE), &mut parent_expr) {
        if let Some(parent_name) = worktree_values.get(parent_expr.as_str()) {
            if let Some(tree_values) = trees.get_key(parent_name.as_str()) {
                if depth == 0 {
                    return Err(invalid_configuration("trees extend each other"));
                }
                let tree_name = Yaml::String(parent_name.clone());
                let base = match get_tree(
                    config,
                    &tree_name,
                    tree_values,
                    trees,
                    true,
                    worktree_values,
                    depth - 1,
                ) {
                    Ok(b) => b,
                    Err(e) => {
                        return Err(e);
                    },
                };
                tree.clone_from_tree(&base);
            }
        }
        // Base templates were already processed.
        tree.templates.clear();
    }
    // Apply the templates in order.
    get_indexset_str(value.index(constants::TEMPLATES), &mut tree.templates);
    let names = tree.templates.clone();
    let n = names.len();
    let mut i: usize = 0;
    while i < n
        invariant
            n == names@.len(),
            i <= n,
            tree.name_of().len() == 0,
            tree.path_of().expr_of().len() == 0 && tree.path_of().value_of() is None,
        decreases n - i,
    {
        if let Some(template) = config.templates.get(names.get_index(i).as_str()) {
            template.apply(&mut tree);
        }
        i = i + 1;
    }
    // Tree name.
    assert(tree.name@ =~= Seq::<char>::empty());
    assert(tree.path.expr_of() =~= Seq::<char>::empty());
    get_str(name, &mut tree.name);
    // Tree path: default to the name when "path" is unspecified.
    if !get_str(value.index(constants::PATH), tree.path.get_expr_mut()) {
        let tree_name = tree.name.clone();
        tree.path = Variable::new(tree_name.clone(), Some(tree_name));
    }
    // Detect bare repositories.
    if syntax::is_git_dir(tree.path.get_expr().as_str()) {
        tree.is_bare_repository = true;
    }
    if variables {
        let ghost v0 = vars_view(tree.variables@);
        let ghost n0 = tree.name_of();
        let ghost p0 = tree.path_of().expr_of();
        tree.add_builtin_variables();
        proof {
            reveal_strlit("TREE_NAME");
            reveal_strlit("TREE_PATH");
            assert(constants::TREE_NAME@[5] != constants::TREE_PATH@[5]);
            let v1 = entry_insert(v0, constants::TREE_NAME@, (n0, None::<Seq<char>>));
            lemma_entry_get_insert(v0, constants::TREE_NAME@, (n0, None::<Seq<char>>), constants::TREE_NAME@);
            lemma_entry_get_insert(v1, constants::TREE_PATH@, (p0, None::<Seq<char>>), constants::TREE_NAME@);
            lemma_entry_get_insert(v1, constants::TREE_PATH@, (p0, None::<Seq<char>>), constants::TREE_PATH@);
        }
    }
    let ghost mid = tree;
    assert(mid.name_of() == read_string(Seq::empty(), *name));
    assert(mid.path_of().expr_of() == tree_path_expr(*name, *value));
    match get_tree_fields(value, &mut tree) {
        Ok(()) => {},
        Err(e) => {
            return Err(e);
        },
    }
    assert(tree_fields_read(tree, mid, *value));
    Ok(tree)
}


/// The tree names of a "trees" block's entries, in order.
pub open spec fn entry_names(entries: Seq<(Yaml, Yaml)>) -> Seq<Seq<char>> {
    entries.map_values(|p: (Yaml, Yaml)| read_string(Seq::empty(), p.0))
}

/// The trees map holds under the name of entry `name: value` the tree that the entry
/// defines over the tree previously stored under that name in `old`.
pub open spec fn tree_at(m: Seq<(Seq<char>, Tree)>, old: Seq<(Seq<char>, Tree)>, name: Yaml, value: Yaml) -> bool {
    let k = read_string(Seq::empty(), name);
    entry_get(m, k) matches Some(t) && tree_entry_result(t, entry_get(old, k), name, value)
}

/// Entry `j` names a tree that no other entry names.
pub open spec fn is_unique_name(entries: Seq<(Yaml, Yaml)>, j: int) -> bool {
    forall|l: int|
        0 <= l < entries.len() && l != j ==> read_string(Seq::empty(), #[trigger] entries[l].0)
            != read_string(Seq::empty(), entries[j].0)
}

/// The entry asks to replace an existing tree rather than to update it.
pub open spec fn replaces(value: Yaml) -> bool {
    spec_index(value, constants::REPLACE@) matches Yaml::Boolean(b) && b
}

/// `t` is the tree stored for the entry `name: value`, given the tree `old` that was
/// stored under its name before: a new entry, the same entry when it replaces `old`,
/// else `old` updated with it.
pub open spec fn tree_entry_result(t: Tree, old: Option<Tree>, name: Yaml, value: Yaml) -> bool {
    match value {
        Yaml::String(url) => exists|f: Tree|
            #[trigger] url_tree(f, name, url@) && match old {
                Some(o) => tree_merged(t, o, f),
                None => t == f,
            },
        _ => exists|f: Tree|
            #[trigger] tree_read(f, name, value, true) && match old {
                Some(o) => if replaces(value) {
                    t == f
                } else {
                    tree_merged(t, o, f)
                },
                None => t == f,
            },
    }
}

/// `m` is the trees map `old` after reading the "trees" block `y`: the names of its
/// entries are added in order, each uniquely named entry holds the tree it defines
/// over the tree previously stored under its name, and other names keep their trees.
pub open spec fn trees_read(m: Seq<(Seq<char>, Tree)>, old: Seq<(Seq<char>, Tree)>, y: Yaml) -> bool {
    match y {
        Yaml::Hash(h) => {
            let e = h@;
            &&& entry_keys(m) == set_append(entry_keys(old), entry_names(e))
            &&& forall|j: int|
                0 <= j < e.len() && #[trigger] is_unique_name(e, j) ==> tree_at(m, old, e[j].0, e[j].1)
            &&& forall|k: Seq<char>|
                !entry_names(e).contains(k) ==> #[trigger] entry_get(m, k) == entry_get(old, k)
        },
        _ => m == old,
    }
}

/// A "trees" block defines a tree whose fields hold invalid values.
pub open spec fn trees_invalid(y: Yaml) -> bool {
    y is Hash && exists|j: int|
        0 <= j < y->Hash_0@.len() && !(y->Hash_0@[j].1 is String) && !tree_fields_valid(
            #[trigger] y->Hash_0@[j].1,
        )
}

/// Reading a "trees" block succeeds: every tree entry that is not a one-line URL can
/// be read, with the number of entries bounding how deeply trees build on each other.
pub open spec fn trees_ok(y: Yaml, worktree_values: Seq<(Seq<char>, String)>) -> bool {
    match y {
        Yaml::Hash(h) => forall|j: int|
            0 <= j < h@.len() && !(h@[j].1 is String) ==> #[trigger] tree_ok(
                h@[j].1,
                y,
                worktree_values,
                h@.len() as nat,
            ),
        _ => true,
    }
}

/// Read tree definitions into the configuration: a new name adds a tree, an existing
/// name is updated with the entry (or replaced when it says "replace").
/// Returns `Ok(false)` when `yaml` is not a mapping.
#[verifier::spinoff_prover]
#[verifier::rlimit(50)]
pub fn get_trees(config: &mut Configuration, yaml: &Yaml, worktree_values: &OrderedMap<String>) -> (r: Result<
    bool,
    GardenError,
>)
    ensures
        r matches Ok(found) ==> found == (*yaml is Hash),
        *final(config) == (Configuration { trees: final(config).trees, ..*old(config) }),
        !(*yaml is Hash) ==> r is Ok && final(config).trees@ == old(config).trees@,
        r is Ok ==> trees_read(final(config).trees@, old(config).trees@, *yaml),
        r is Ok <==> trees_ok(*yaml, worktree_values@),
        trees_invalid(*yaml) ==> r is Err,
        r is Err ==> r->Err_0 is InvalidConfiguration,
{
    let hash = match yaml {
        Yaml::Hash(hash) => hash,
        _ => {
            return Ok(false);
        },
    };
    let ghost e = hash@;
    let ghost old_trees = config.trees@;
    let mut i: usize = 0;
    while i < hash.len()
        invariant
            *yaml == Yaml::Hash(*hash),
            e == hash@,
            i <= e.len(),
            old_trees == old(config).trees@,
            *config == (Configuration { trees: config.trees, ..*old(config) }),
            entry_keys(config.trees@) == set_append(entry_keys(old_trees), entry_names(e.take(i as int))),
            forall|j: int|
                0 <= j < i && #[trigger] is_unique_name(e.take(i as int), j) ==> tree_at(
                    config.trees@,
                    old_trees,
                    e[j].0,
                    e[j].1,
                ),
            forall|k: Seq<char>|
                !entry_names(e.take(i as int)).contains(k) ==> #[trigger] entry_get(config.trees@, k)
                    == entry_get(old_trees, k),
            forall|j: int|
                0 <= j < i && !(e[j].1 is String) ==> tree_fields_valid(#[trigger] e[j].1),
            forall|j: int|
                0 <= j < i && !(e[j].1 is String) ==> #[trigger] tree_ok(e[j].1, *yaml, worktree_values@, e.len() as nat),
        decreases hash.len() - i,
    {
        assert(e.take(i + 1).drop_last() =~= e.take(i as int));
        assert(entry_names(e.take(i + 1)) =~= entry_names(e.take(i as int)).push(
            read_string(Seq::empty(), e[i as int].0),
        ));
        let ghost cur = config.trees@;
        let ghost k = read_string(Seq::empty(), e[i as int].0);
        let (tree, replace) = match &hash[i].1 {
            Yaml::String(url) => (get_tree_from_url(&hash[i].0, url.as_str()), false),
            _ => {
                let depth = hash.len();
                let t = match get_tree(&*config, &hash[i].0, &hash[i].1, yaml, true, worktree_values, depth) {
                    Ok(t) => t,
                    Err(err) => {
                        assert(!tree_ok(e[i as int].1, *yaml, worktree_values@, e.len() as nat));
                        return Err(err);
                    },
                };
                // Replace the current entry, or sparsely override it (the default)?
                let replace = match hash[i].1.index(constants::REPLACE) {
                    Yaml::Boolean(b) => *b,
                    _ => false,
                };
                (t, replace)
            },
        };
        let ghost tree_g = tree;
        proof {
            if !(e[i as int].1 is String) {
                let mid = choose|mid: Tree|
                    #[trigger] tree_fields_read(tree, mid, e[i as int].1) && mid.name_of() == k
                        && mid.path_of().expr_of() == tree_path_expr(e[i as int].0, e[i as int].1)
                        && mid.path_of().value_of() == (if is_nonempty_str(
                        spec_index(e[i as int].1, constants::PATH@),
                    ) {
                        None
                    } else {
                        Some(k)
                    }) && (syntax::spec_is_git_dir(tree_path_expr(e[i as int].0, e[i as int].1))
                        ==> mid.is_bare_repository) && (true ==> entry_get(
                        vars_view(mid.variables@),
                        constants::TREE_NAME@,
                    ) == Some((k, None::<Seq<char>>)) && entry_get(vars_view(mid.variables@), constants::TREE_PATH@)
                        == Some((tree_path_expr(e[i as int].0, e[i as int].1), None::<Seq<char>>)));
                assert(tree.name_of() == k);
            }
        }
        let ghost new_tree: Tree;
        match config.trees.index_of(tree.name.as_str()) {
            Some(idx) if !replace => {
                proof {
                    crate::collections::lemma_entry_index(cur, k);
                }
                let current = config.trees.value_at_mut(idx);
                current.clone_from_tree(&tree);
                proof {
                    new_tree = config.trees@[idx as int].1;
                    assert(config.trees@ == entry_insert(cur, k, new_tree));
                    assert(entry_get(cur, k) == Some(cur[idx as int].1));
                    assert(tree_merged(new_tree, cur[idx as int].1, tree_g));
                }
            },
            _ => {
                proof {
                    new_tree = tree;
                }
                config.trees.insert(tree.name.clone(), tree);
            },
        }
        proof {
            let value = e[i as int].1;
            assert(e.take(i + 1)[i as int] == e[i as int]);
            lemma_entry_keys_insert(cur, k, new_tree);
            assert(entry_names(e.take(i + 1)).drop_last() =~= entry_names(e.take(i as int)));
            lemma_entry_get_insert(cur, k, new_tree, k);
            assert(entry_get(config.trees@, k) == Some(new_tree));
            if value is String {
                assert(url_tree(tree_g, e[i as int].0, value->String_0@));
            } else {
                assert(tree_read(tree_g, e[i as int].0, value, true));
                assert(replace == replaces(value));
            }
            assert(tree_entry_result(new_tree, entry_get(cur, k), e[i as int].0, value));
            assert forall|j: int|
                0 <= j < i + 1 && #[trigger] is_unique_name(e.take(i + 1), j) implies tree_at(
                config.trees@,
                old_trees,
                e[j].0,
                e[j].1,
            ) by {
                if j < i {
                    let kj = read_string(Seq::empty(), e[j].0);
                    assert(e.take(i + 1)[j] == e[j]);
                    assert(kj != k);
                    lemma_entry_get_insert(cur, k, new_tree, kj);
                    assert(is_unique_name(e.take(i as int), j)) by {
                        assert forall|l: int|
                            0 <= l < e.take(i as int).len() && l != j implies read_string(
                            Seq::empty(),
                            #[trigger] e.take(i as int)[l].0,
                        ) != read_string(Seq::empty(), e.take(i as int)[j].0) by {
                            assert(e.take(i as int)[l] == e.take(i + 1)[l]);
                        }
                    }
                } else {
                    assert(!entry_names(e.take(i as int)).contains(k)) by {
                        if entry_names(e.take(i as int)).contains(k) {
                            let l = choose|l: int|
                                0 <= l < entry_names(e.take(i as int)).len()
                                    && entry_names(e.take(i as int))[l] == k;
                            assert(e.take(i + 1)[l] == e[l]);
                        }
                    }
                    assert(entry_get(cur, k) == entry_get(old_trees, k));
                }
            }
            assert forall|k2: Seq<char>| !entry_names(e.take(i + 1)).contains(k2) implies #[trigger] entry_get(
                config.trees@,
                k2,
            ) == entry_get(old_trees, k2) by {
                lemma_entry_get_insert(cur, k, new_tree, k2);
                assert(entry_names(e.take(i + 1))[i as int] == k);
                if entry_names(e.take(i as int)).contains(k2) {
                    let l = choose|l: int|
                        0 <= l < entry_names(e.take(i as int)).len() && entry_names(e.take(i as int))[l]
                            == k2;
                    assert(entry_names(e.take(i + 1))[l] == k2);
                }
            }
        }
        i = i + 1;
    }
    assert(e.take(e.len() as int) =~= e);
    Ok(true)
}


/// A setting of the "garden" block of a document.
pub open spec fn garden_setting(doc: Yaml, k: Seq<char>) -> Yaml {
    spec_index(spec_index(doc, constants::GARDEN@), k)
}

/// The root expression and dynamic-root flag after reading "garden.root": only the
/// first file that sets it counts, and an empty root is dynamic.
pub open spec fn prelude_root(c: Configuration, doc: Yaml) -> (Seq<char>, bool) {
    if c.root.expr_of().len() == 0 && !c.root_is_dynamic && spec_as_str(
        garden_setting(doc, constants::ROOT@),
    ) is Some {
        let s = spec_as_str(garden_setting(doc, constants::ROOT@))->0;
        (s, s.len() == 0)
    } else {
        (c.root.expr_of(), c.root_is_dynamic)
    }
}

/// The variables after the builtin variables and the document's "variables" block
/// are read.
pub open spec fn prelude_variables(c: Configuration, doc: Yaml, config_dir: Option<Seq<char>>) -> Seq<
    (Seq<char>, VarView),
> {
    let v1 = entry_insert(
        vars_view(c.variables@),
        constants::GARDEN_ROOT@,
        (prelude_root(c, doc).0, None::<Seq<char>>),
    );
    let v2 = match config_dir {
        Some(d) => entry_insert(v1, constants::GARDEN_CONFIG_DIR@, (d, None::<Seq<char>>)),
        None => v1,
    };
    let v3 = entry_insert(
        v2,
        constants::GARDEN_CMD_QUIET@,
        (quiet_flag(c.quiet), Some(quiet_flag(c.quiet))),
    );
    let v4 = entry_insert(
        v3,
        constants::GARDEN_CMD_VERBOSE@,
        (verbose_flags(c.verbose as nat), Some(verbose_flags(c.verbose as nat))),
    );
    read_variables(v4, spec_index(doc, constants::VARIABLES@))
}

/// A boolean setting after reading node `y`.
pub open spec fn read_bool(b: bool, y: Yaml) -> bool {
    match y {
        Yaml::Boolean(x) => x,
        _ => b,
    }
}

/// Read the "garden" settings, the builtin variables and the "variables" block of a
/// document. `config_dir` is the canonical directory of the configuration file, when
/// known. Returns the "garden.includes" entries to read next, if the document has
/// any; fails when the "variables" block holds a value of an unsupported type.
pub fn parse_prelude(config: &mut Configuration, doc: &Yaml, config_dir: Option<String>) -> (r: Result<
    Option<Vec<Variable>>,
    GardenError,
>)
    ensures
        r is Ok <==> yaml_valid(spec_index(*doc, constants::VARIABLES@), true),
        r is Ok ==> vars_view(final(config).variables@) == prelude_variables(
            *old(config),
            *doc,
            opt_view(config_dir),
        ),
        final(config).root.expr_of() == prelude_root(*old(config), *doc).0,
        final(config).root.value_of() == old(config).root.value_of(),
        final(config).root_is_dynamic == prelude_root(*old(config), *doc).1,
        final(config).shell@ == read_string(old(config).shell@, garden_setting(*doc, constants::SHELL@)),
        final(config).interactive_shell@ == read_string(
            old(config).interactive_shell@,
            garden_setting(*doc, constants::INTERACTIVE_SHELL@),
        ),
        final(config).shell_exit_on_error == read_bool(
            old(config).shell_exit_on_error,
            garden_setting(*doc, constants::SHELL_ERREXIT@),
        ),
        final(config).shell_word_split == read_bool(
            old(config).shell_word_split,
            garden_setting(*doc, constants::SHELL_WORDSPLIT@),
        ),
        final(config).tree_branches == read_bool(
            old(config).tree_branches,
            garden_setting(*doc, constants::TREE_BRANCHES@),
        ),
        r matches Ok(includes) ==> (includes is Some <==> (garden_setting(*doc, constants::INCLUDES@) is String
            || garden_setting(*doc, constants::INCLUDES@) is Array)),
        r matches Ok(Some(includes)) ==> var_views(includes@) == read_vec_variables(
            Seq::empty(),
            garden_setting(*doc, constants::INCLUDES@),
        ),
        *final(config) == (Configuration {
            variables: final(config).variables,
            root: final(config).root,
            root_is_dynamic: final(config).root_is_dynamic,
            shell: final(config).shell,
            interactive_shell: final(config).interactive_shell,
            shell_exit_on_error: final(config).shell_exit_on_error,
            shell_word_split: final(config).shell_word_split,
            tree_branches: final(config).tree_branches,
            ..*old(config)
        }),
        r is Err ==> r->Err_0 is InvalidConfiguration,
{
    let garden = doc.index(constants::GARDEN);
    // Only the first file that sets "garden.root" counts; an empty root is dynamic
    // and follows the current directory.
    if config.root.is_empty() && !config.root_is_dynamic && get_raw_str(
        garden.index(constants::ROOT),
        config.root.get_expr_mut(),
    ) {
        if config.root.is_empty() {
            config.root_is_dynamic = true;
        }
    }
    get_str(garden.index(constants::SHELL), &mut config.shell);
    get_str(garden.index(constants::INTERACTIVE_SHELL), &mut config.interactive_shell);
    get_bool(garden.index(constants::SHELL_ERREXIT), &mut config.shell_exit_on_error);
    get_bool(garden.index(constants::SHELL_WORDSPLIT), &mut config.shell_word_split);
    get_bool(garden.index(constants::TREE_BRANCHES), &mut config.tree_branches);

    // GARDEN_ROOT and GARDEN_CONFIG_DIR are relative to the root configuration.
    let ghost v0 = config.variables@;
    let root_var = Variable::new(config.root.get_expr().clone(), None);
    config.variables.insert(owned(constants::GARDEN_ROOT), root_var);
    proof {
        lemma_entry_insert_map(v0, |v: Variable| var_view(v), constants::GARDEN_ROOT@, root_var);
    }
    if let Some(dir) = config_dir {
        let ghost v1 = config.variables@;
        let dir_var = Variable::new(dir, None);
        config.variables.insert(owned(constants::GARDEN_CONFIG_DIR), dir_var);
        proof {
            lemma_entry_insert_map(v1, |v: Variable| var_view(v), constants::GARDEN_CONFIG_DIR@, dir_var);
        }
    }
    // GARDEN_CMD_QUIET and GARDEN_CMD_VERBOSE.
    config.update_quiet_and_verbose_variables(false, 0);

    // Variables are read early to make them available to the "includes" paths.
    let y_variables = doc.index(constants::VARIABLES);
    proof {
        if *y_variables is Hash {
            lemma_variables_valid(vars_view(config.variables@), y_variables->Hash_0@);
        }
    }
    if let Err(e) = get_variables_hashmap(y_variables, &mut config.variables) {
        return Err(e);
    }
    let mut includes: Vec<Variable> = Vec::new();
    if get_vec_variables(garden.index(constants::INCLUDES), &mut includes) {
        assert(var_views(Seq::<Variable>::empty()) =~= Seq::empty());
        Ok(Some(includes))
    } else {
        Ok(None)
    }
}


/// Read the rest of a document's configuration blocks that come before the trees:
/// "variables" again when the document had includes (so that the including file wins),
/// then "grafts", "environment", "commands" and "templates".
pub fn parse_body(config: &mut Configuration, doc: &Yaml, reload: bool) -> (r: Result<(), GardenError>)
    ensures
        r is Ok ==> vars_view(final(config).variables@) == (if reload {
            read_variables(vars_view(old(config).variables@), spec_index(*doc, constants::VARIABLES@))
        } else {
            vars_view(old(config).variables@)
        }),
        r is Ok ==> grafts_view(final(config).grafts@) == (match spec_index(*doc, constants::GRAFTS@) {
            Yaml::Hash(e) => grafts_from_entries(grafts_view(old(config).grafts@), e@),
            _ => grafts_view(old(config).grafts@),
        }),
        r is Ok ==> multivar_views(final(config).environment@) == read_multivariables(
            multivar_views(old(config).environment@),
            spec_index(*doc, constants::ENVIRONMENT@),
        ),
        r is Ok ==> multivars_view(final(config).commands@) == read_multivariable_map(
            multivars_view(old(config).commands@),
            spec_index(*doc, constants::COMMANDS@),
        ),
        r is Ok ==> templates_read(
            final(config).templates@,
            old(config).templates@,
            spec_index(*doc, constants::TEMPLATES@),
        ),
        r is Ok <==> ((reload ==> yaml_valid(spec_index(*doc, constants::VARIABLES@), true)) && yaml_valid(
            spec_index(*doc, constants::ENVIRONMENT@),
            false,
        ) && yaml_valid(spec_index(*doc, constants::COMMANDS@), true) && templates_ok(
            spec_index(*doc, constants::TEMPLATES@),
        )),
        (reload && !yaml_valid(spec_index(*doc, constants::VARIABLES@), true)) || !yaml_valid(
            spec_index(*doc, constants::ENVIRONMENT@),
            false,
        ) || !yaml_valid(spec_index(*doc, constants::COMMANDS@), true) || templates_invalid(
            spec_index(*doc, constants::TEMPLATES@),
        ) ==> r is Err,
        r is Err ==> r->Err_0 is InvalidConfiguration,
        *final(config) == (Configuration {
            variables: final(config).variables,
            grafts: final(config).grafts,
            environment: final(config).environment,
            commands: final(config).commands,
            templates: final(config).templates,
            ..*old(config)
        }),
{
    if reload {
        let y_variables = doc.index(constants::VARIABLES);
        proof {
            if *y_variables is Hash {
                lemma_variables_valid(vars_view(config.variables@), y_variables->Hash_0@);
            }
        }
        if let Err(e) = get_variables_hashmap(y_variables, &mut config.variables) {
            return Err(e);
        }
    }
    get_grafts(doc.index(constants::GRAFTS), &mut config.grafts);
    let y_environment = doc.index(constants::ENVIRONMENT);
    proof {
        if *y_environment is Hash {
            lemma_multivariables_valid(y_environment->Hash_0@);
        }
    }
    if let Err(e) = get_multivariables(y_environment, &mut config.environment) {
        return Err(e);
    }
    let y_commands = doc.index(constants::COMMANDS);
    proof {
        if *y_commands is Hash {
            lemma_multivariable_map_valid(multivars_view(config.commands@), y_commands->Hash_0@);
        }
    }
    if let Err(e) = get_multivariables_hashmap(y_commands, &mut config.commands) {
        return Err(e);
    }
    match get_templates(doc.index(constants::TEMPLATES), &mut config.templates) {
        Ok(_) => Ok(()),
        Err(e) => Err(e),
    }
}

/// A "gardens" block defines a garden whose blocks hold invalid values.
pub open spec fn gardens_invalid(y: Yaml) -> bool {
    y is Hash && exists|i: int| 0 <= i < y->Hash_0@.len() && !garden_valid(#[trigger] y->Hash_0@[i].1)
}

/// Read a document's "trees", "groups" and "gardens" blocks. `worktree_values` holds
/// the evaluated values of the trees' worktree expressions.
pub fn parse_trees(config: &mut Configuration, doc: &Yaml, worktree_values: &OrderedMap<String>) -> (r: Result<
    (),
    GardenError,
>)
    ensures
        r is Ok ==> trees_read(final(config).trees@, old(config).trees@, spec_index(*doc, constants::TREES@)),
        r is Ok ==> groups_view(final(config).groups@) == (match spec_index(*doc, constants::GROUPS@) {
            Yaml::Hash(e) => groups_from_entries(groups_view(old(config).groups@), e@),
            _ => groups_view(old(config).groups@),
        }),
        r is Ok ==> gardens_view(final(config).gardens@) == (match spec_index(*doc, constants::GARDENS@) {
            Yaml::Hash(e) => gardens_from_entries(gardens_view(old(config).gardens@), e@),
            _ => gardens_view(old(config).gardens@),
        }),
        r is Ok <==> (trees_ok(spec_index(*doc, constants::TREES@), worktree_values@) && !gardens_invalid(
            spec_index(*doc, constants::GARDENS@),
        )),
        trees_invalid(spec_index(*doc, constants::TREES@)) || gardens_invalid(
            spec_index(*doc, constants::GARDENS@),
        ) ==> r is Err,
        r is Err ==> r->Err_0 is InvalidConfiguration,
        *final(config) == (Configuration {
            trees: final(config).trees,
            groups: final(config).groups,
            gardens: final(config).gardens,
            ..*old(config)
        }),
{
    if let Err(e) = get_trees(config, doc.index(constants::TREES), worktree_values) {
        return Err(e);
    }
    get_groups(doc.index(constants::GROUPS), &mut config.groups);
    match get_gardens(doc.index(constants::GARDENS), &mut config.gardens) {
        Ok(_) => Ok(()),
        Err(e) => Err(e),
    }
}


/// The worktree expressions of a document's trees, in order: the non-empty
/// "worktree" strings of its tree entries.
pub open spec fn worktree_exprs_of(entries: Seq<(Yaml, Yaml)>) -> Seq<Seq<char>>
    decreases entries.len(),
{
    if entries.len() == 0 {
        Seq::empty()
    } else {
        let rest = worktree_exprs_of(entries.drop_last());
        let w = spec_index(entries.last().1, constants::WORKTREE@);
        if is_nonempty_str(w) {
            rest.push(spec_as_str(w)->0)
        } else {
            rest
        }
    }
}

/// Collect the worktree expressions that must be evaluated before the trees of
/// `doc` are read.
pub fn worktree_exprs(doc: &Yaml) -> (r: Vec<String>)
    ensures
        r@.map_values(|s: String| s@) == (match spec_index(*doc, constants::TREES@) {
            Yaml::Hash(e) => worktree_exprs_of(e@),
            _ => Seq::empty(),
        }),
{
    let mut r: Vec<String> = Vec::new();
    let trees = doc.index(constants::TREES);
    if let Yaml::Hash(hash) = trees {
        let mut i: usize = 0;
        while i < hash.len()
            invariant
                *trees == Yaml::Hash(*hash),
                i <= hash@.len(),
                r@.map_values(|s: String| s@) == worktree_exprs_of(hash@.take(i as int)),
            decreases hash.len() - i,
        {
            assert(hash@.take(i + 1).drop_last() =~= hash@.take(i as int));
            let mut expr = String::new();
            if get_str(hash[i].1.index(constants::WORKTREE), &mut expr) {
                let ghost before = r@;
                r.push(expr);
                assert(r@.map_values(|s: String| s@) =~= before.map_values(|s: String| s@).push(expr@));
            }
            i = i + 1;
        }
        assert(hash@.take(hash@.len() as int) =~= hash@);
    } else {
        assert(r@.map_values(|s: String| s@) =~= Seq::<Seq<char>>::empty());
    }
    r
}

/// An empty mapping document.
pub fn empty_doc() -> (doc: Yaml)
    ensures
        doc matches Yaml::Hash(e) && e@.len() == 0,
{
    Yaml::Hash(Vec::new())
}

/// `e2` is the mapping `e` after setting string key `k` to an empty mapping: an
/// existing key keeps its position, a new key is appended.
pub open spec fn section_added(e2: Seq<(Yaml, Yaml)>, e: Seq<(Yaml, Yaml)>, k: Seq<char>) -> bool {
    match hash_index(e, k) {
        Some(i) => {
            &&& e2 == e.update(i, (e2[i].0, e2[i].1))
            &&& is_string_key(e2[i].0, k)
            &&& e2[i].1 matches Yaml::Hash(h) && h@.len() == 0
        },
        None => {
            &&& e2.len() == e.len() + 1
            &&& e2.drop_last() == e
            &&& is_string_key(e2.last().0, k)
            &&& e2.last().1 matches Yaml::Hash(h) && h@.len() == 0
        },
    }
}

/// Add an empty top-level section to a document unless the document already has a
/// mapping under that key. Fails when the document is not a mapping.
pub fn add_section(key: &str, doc: &mut Yaml) -> (r: Result<(), GardenError>)
    ensures
        spec_index(*old(doc), key@) is Hash ==> r is Ok && *final(doc) == *old(doc),
        !(spec_index(*old(doc), key@) is Hash) ==> match *old(doc) {
            Yaml::Hash(e) => r is Ok && (*final(doc) matches Yaml::Hash(e2) && section_added(e2@, e@, key@)),
            _ => r is Err && r->Err_0 is InvalidConfiguration && *final(doc) == *old(doc),
        },
{
    let exists = match doc.index(key) {
        Yaml::Hash(_) => true,
        _ => false,
    };
    if !exists {
        match doc {
            Yaml::Hash(entries) => {
                let entry = (Yaml::String(owned(key)), Yaml::Hash(Vec::new()));
                match hash_position(entries, key) {
                    Some(i) => {
                        proof {
                            lemma_hash_index(entries@, key@);
                        }
                        let ghost before = entries@;
                        entries.set(i, entry);
                        assert(entries@ == before.update(i as int, (entries@[i as int].0, entries@[i as int].1)));
                    },
                    None => {
                        let ghost before = entries@;
                        entries.push(entry);
                        assert(entries@.drop_last() =~= before);
                    },
                }
            },
            _ => {
                return Err(invalid_configuration("document is not a hash"));
            },
        }
    }
    Ok(())
}

} // verus!

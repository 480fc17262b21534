//! Decisions of variable evaluation: which definition a variable name refers to in
//! each scope, and how environment definitions combine.
use vstd::prelude::*;

use crate::collections::{entry_get, entry_insert, OrderedMap};
use crate::constants;
use crate::config::reader::{multivar_view, var_views, VarView};
use crate::model::{
    clone_variables, context_view, graft_ids_below, multivariable_copied, spec_graft_id, var_view,
    ApplicationContext, ConfigId, Configuration, Garden, MultiVariable, MultiVariableMap, Tree,
    TreeContext, Variable,
};
use crate::pattern::{glob_matches, glob_pattern_is_valid, spec_glob_matches, spec_glob_valid};
use crate::query::{
    contexts_view, spec_trees_from_garden, spec_trees_from_group, trees_from_garden, trees_from_group,
    CanonicalPaths, CtxView,
};
use crate::syntax;
use crate::text::{concat, owned, push_char, str_eq};

verus! {

/// The variable name of an environment definition: "NAME=" replaces and "NAME+"
/// appends; the operator is not part of the name.
pub open spec fn env_name(var_name: Seq<char>) -> Seq<char> {
    if (syntax::spec_is_replace_op(var_name) || syntax::spec_is_append_op(var_name)) && var_name.len()
        > 1 {
        var_name.drop_last()
    } else {
        var_name
    }
}

/// The non-empty value of an outside environment variable.
pub open spec fn outside_value(env: Seq<(Seq<char>, String)>, name: Seq<char>) -> Option<Seq<char>> {
    match entry_get(env, name) {
        Some(v) => if v@.len() > 0 {
            Some(v@)
        } else {
            None
        },
        None => None,
    }
}

/// A value joined onto the current value: at the end when appending, else at the
/// front, separated by ":".
pub open spec fn joined(current: Seq<char>, value: Seq<char>, append: bool) -> Seq<char> {
    if append {
        current + seq![':'] + value
    } else {
        value + seq![':'] + current
    }
}

/// The state of an environment merge: the known values by name, and the
/// `(name, value)` assignments made so far.
pub type MergeState = (Seq<(Seq<char>, Seq<char>)>, Seq<(Seq<char>, Seq<char>)>);

/// One value of an environment definition. An assignment sets the value. Otherwise
/// the value is joined onto the current value: the value known for the name, else
/// the non-empty outside value; a name with neither takes the value.
pub open spec fn merge_value(
    st: MergeState,
    name: Seq<char>,
    assign: bool,
    append: bool,
    value: Seq<char>,
    env: Seq<(Seq<char>, String)>,
) -> MergeState {
    let current = match entry_get(st.0, name) {
        Some(c) => Some(c),
        None => outside_value(env, name),
    };
    let v = match current {
        Some(c) => if assign {
            value
        } else {
            joined(c, value, append)
        },
        None => value,
    };
    (entry_insert(st.0, name, v), st.1.push((name, v)))
}

/// The values of one environment definition, in order.
pub open spec fn merge_values(
    st: MergeState,
    name: Seq<char>,
    assign: bool,
    append: bool,
    values: Seq<Seq<char>>,
    env: Seq<(Seq<char>, String)>,
) -> MergeState
    decreases values.len(),
{
    if values.len() == 0 {
        st
    } else {
        merge_value(
            merge_values(st, name, assign, append, values.drop_last(), env),
            name,
            assign,
            append,
            values.last(),
            env,
        )
    }
}

/// Environment definitions `(name, values)`, in order.
pub open spec fn merge_definitions(
    st: MergeState,
    defs: Seq<(Seq<char>, Seq<Seq<char>>)>,
    env: Seq<(Seq<char>, String)>,
) -> MergeState
    decreases defs.len(),
{
    if defs.len() == 0 {
        st
    } else {
        let prev = merge_definitions(st, defs.drop_last(), env);
        let var_name = defs.last().0;
        merge_values(
            prev,
            env_name(var_name),
            syntax::spec_is_replace_op(var_name),
            syntax::spec_is_append_op(var_name),
            defs.last().1,
            env,
        )
    }
}

/// The plain view of evaluated definitions.
pub open spec fn defs_view(defs: Seq<(String, Vec<String>)>) -> Seq<(Seq<char>, Seq<Seq<char>>)> {
    defs.map_values(|d: (String, Vec<String>)| (d.0@, d.1@.map_values(|s: String| s@)))
}

/// The plain view of a list of string pairs.
pub open spec fn pairs_view(v: Seq<(String, String)>) -> Seq<(Seq<char>, Seq<char>)> {
    v.map_values(|p: (String, String)| (p.0@, p.1@))
}

/// The plain view of a map of strings.
pub open spec fn strings_view(m: Seq<(Seq<char>, String)>) -> Seq<(Seq<char>, Seq<char>)> {
    crate::collections::entry_map_values(m, |s: String| s@)
}

/// `current` joined with `value` (see `joined`).
fn join_value(current: &str, value: &str, append: bool) -> (r: String)
    ensures
        r@ == joined(current@, value@, append),
{
    if append {
        let mut r = owned(current);
        push_char(&mut r, ':');
        let r = concat(r.as_str(), value);
        assert(r@ =~= joined(current@, value@, append));
        r
    } else {
        let mut r = owned(value);
        push_char(&mut r, ':');
        let r = concat(r.as_str(), current);
        assert(r@ =~= joined(current@, value@, append));
        r
    }
}

/// Strip a trailing "=" or "+" operator from an environment definition's name.
fn strip_env_op(var_name: &str) -> (r: (String, bool, bool))
    ensures
        r.0@ == env_name(var_name@),
        r.1 == syntax::spec_is_replace_op(var_name@),
        r.2 == syntax::spec_is_append_op(var_name@),
{
    let mut name = owned(var_name);
    let is_assign = syntax::is_replace_op(var_name);
    let is_append = syntax::is_append_op(var_name);
    if is_assign || is_append {
        syntax::trim_op_inplace(&mut name);
    }
    (name, is_assign, is_append)
}

/// Combine evaluated environment definitions `(name, values)` into the list of
/// `(name, value)` assignments to make, in order (see `merge_definitions`). `env`
/// holds the outside environment.
pub fn environment_merge(definitions: &Vec<(String, Vec<String>)>, env: &OrderedMap<String>) -> (r: Vec<
    (String, String),
>)
    ensures
        pairs_view(r@) == merge_definitions(
            (Seq::empty(), Seq::empty()),
            defs_view(definitions@),
            env@,
        ).1,
{
    let mut values: OrderedMap<String> = OrderedMap::new();
    let mut result: Vec<(String, String)> = Vec::new();
    let mut d: usize = 0;
    while d < definitions.len()
        invariant
            d <= definitions@.len(),
            (strings_view(values@), pairs_view(result@)) == merge_definitions(
                (Seq::empty(), Seq::empty()),
                defs_view(definitions@).take(d as int),
                env@,
            ),
        decreases definitions@.len() - d,
    {
        assert(defs_view(definitions@).take(d + 1).drop_last() =~= defs_view(definitions@).take(d as int));
        let (name, is_assign, is_append) = strip_env_op(definitions[d].0.as_str());
        let env_values = &definitions[d].1;
        let ghost st0 = (strings_view(values@), pairs_view(result@));
        let mut k: usize = 0;
        while k < env_values.len()
            invariant
                k <= env_values@.len(),
                (strings_view(values@), pairs_view(result@)) == merge_values(
                    st0,
                    name@,
                    is_assign,
                    is_append,
                    env_values@.map_values(|s: String| s@).take(k as int),
                    env@,
                ),
            decreases env_values@.len() - k,
        {
            assert(env_values@.map_values(|s: String| s@).take(k + 1).drop_last()
                =~= env_values@.map_values(|s: String| s@).take(k as int));
            let value = &env_values[k];
            let current: Option<String> = match values.get(name.as_str()) {
                Some(c) => Some(c.clone()),
                None => match env.get(name.as_str()) {
                    Some(e) => if e.as_str().is_empty() {
                        None
                    } else {
                        Some(e.clone())
                    },
                    None => None,
                },
            };
            let v = match current {
                Some(c) => if is_assign {
                    value.clone()
                } else {
                    join_value(c.as_str(), value.as_str(), is_append)
                },
                None => value.clone(),
            };
            let ghost before_values = values@;
            let ghost before_result = result@;
            values.insert(name.clone(), v.clone());
            result.push((name.clone(), v));
            proof {
                crate::collections::lemma_entry_insert_map(before_values, |s: String| s@, name@, v);
                assert(pairs_view(result@) =~= pairs_view(before_result).push((name@, v@)));
                assert(strings_view(before_values) == crate::collections::entry_map_values(before_values, |s: String| s@));
                crate::collections::lemma_entry_index_map(before_values, |s: String| s@, name@);
                crate::collections::lemma_entry_index(before_values, name@);
            }
            k = k + 1;
        }
        assert(env_values@.map_values(|s: String| s@).take(env_values@.len() as int)
            =~= env_values@.map_values(|s: String| s@));
        assert(defs_view(definitions@)[d as int].1 == env_values@.map_values(|s: String| s@));
        d = d + 1;
    }
    assert(defs_view(definitions@).take(definitions@.len() as int) =~= defs_view(definitions@));
    result
}


/// Splitting state over a prefix: the completed non-empty components and the
/// component being read.
pub open spec fn colon_fold(s: Seq<char>) -> (Seq<Seq<char>>, Seq<char>)
    decreases s.len(),
{
    if s.len() == 0 {
        (Seq::empty(), Seq::empty())
    } else {
        let (done, cur) = colon_fold(s.drop_last());
        if s.last() == ':' {
            (if cur.len() > 0 {
                done.push(cur)
            } else {
                done
            }, Seq::empty())
        } else {
            (done, cur.push(s.last()))
        }
    }
}

/// The non-empty components of a ":"-separated list, in order.
pub open spec fn colon_parts(s: Seq<char>) -> Seq<Seq<char>> {
    let (done, cur) = colon_fold(s);
    if cur.len() > 0 {
        done.push(cur)
    } else {
        done
    }
}

/// Components joined with ":".
pub open spec fn join_colon(parts: Seq<Seq<char>>) -> Seq<char>
    decreases parts.len(),
{
    if parts.len() == 0 {
        Seq::empty()
    } else if parts.len() == 1 {
        parts[0]
    } else {
        join_colon(parts.drop_last()) + seq![':'] + parts.last()
    }
}

/// A value joined onto the non-empty components of the current value: last when
/// appending, else first.
pub open spec fn merged_path(current: Seq<char>, value: Seq<char>, append: bool) -> Seq<char> {
    if append {
        join_colon(colon_parts(current).push(value))
    } else {
        join_colon(seq![value] + colon_parts(current))
    }
}

/// One value of a definition of the variable being evaluated (see `merge_value`);
/// joining drops empty components of the current value.
pub open spec fn single_value_step(
    fv: Option<Seq<char>>,
    name: Seq<char>,
    assign: bool,
    append: bool,
    value: Seq<char>,
    env: Seq<(Seq<char>, String)>,
) -> Option<Seq<char>> {
    let current = match fv {
        Some(c) => Some(c),
        None => outside_value(env, name),
    };
    match current {
        Some(c) => if assign {
            Some(value)
        } else {
            Some(merged_path(c, value, append))
        },
        None => Some(value),
    }
}

/// The values of one definition of the variable being evaluated, in order.
pub open spec fn single_values(
    fv: Option<Seq<char>>,
    name: Seq<char>,
    assign: bool,
    append: bool,
    values: Seq<Seq<char>>,
    env: Seq<(Seq<char>, String)>,
) -> Option<Seq<char>>
    decreases values.len(),
{
    if values.len() == 0 {
        fv
    } else {
        single_value_step(
            single_values(fv, name, assign, append, values.drop_last(), env),
            name,
            assign,
            append,
            values.last(),
            env,
        )
    }
}

/// The definitions of the variable being evaluated, in order.
pub open spec fn single_definitions(
    fv: Option<Seq<char>>,
    defs: Seq<(Seq<char>, Seq<Seq<char>>)>,
    env: Seq<(Seq<char>, String)>,
) -> Option<Seq<char>>
    decreases defs.len(),
{
    if defs.len() == 0 {
        fv
    } else {
        let prev = single_definitions(fv, defs.drop_last(), env);
        let var_name = defs.last().0;
        single_values(
            prev,
            env_name(var_name),
            syntax::spec_is_replace_op(var_name),
            syntax::spec_is_append_op(var_name),
            defs.last().1,
            env,
        )
    }
}

/// The non-empty ":"-separated components of a string.
pub fn split_colon(s: &str) -> (r: Vec<String>)
    ensures
        r@.map_values(|p: String| p@) == colon_parts(s@),
{
    let chars = crate::text::chars_of(s);
    let mut parts: Vec<String> = Vec::new();
    let mut cur = String::new();
    let mut i: usize = 0;
    while i < chars.len()
        invariant
            chars@ == s@,
            i <= chars@.len(),
            (parts@.map_values(|p: String| p@), cur@) == colon_fold(chars@.take(i as int)),
        decreases chars@.len() - i,
    {
        assert(chars@.take(i + 1).drop_last() =~= chars@.take(i as int));
        let c = chars[i];
        if c == ':' {
            if cur.as_str().unicode_len() > 0 {
                let ghost before = parts@;
                let done = cur;
                parts.push(done);
                assert(parts@.map_values(|p: String| p@) =~= before.map_values(|p: String| p@).push(done@));
            }
            cur = String::new();
        } else {
            push_char(&mut cur, c);
        }
        i = i + 1;
    }
    assert(chars@.take(chars@.len() as int) =~= chars@);
    if cur.as_str().unicode_len() > 0 {
        let ghost before = parts@;
        let last = cur;
        parts.push(last);
        assert(parts@.map_values(|p: String| p@) =~= before.map_values(|p: String| p@).push(last@));
    }
    parts
}

/// Components joined with ":".
pub fn join_parts(parts: &Vec<String>) -> (r: String)
    ensures
        r@ == join_colon(parts@.map_values(|p: String| p@)),
{
    let ghost ps = parts@.map_values(|p: String| p@);
    let mut r = String::new();
    let mut i: usize = 0;
    while i < parts.len()
        invariant
            ps == parts@.map_values(|p: String| p@),
            i <= parts@.len(),
            r@ == join_colon(ps.take(i as int)),
        decreases parts@.len() - i,
    {
        assert(ps.take(i + 1).drop_last() =~= ps.take(i as int));
        if i == 0 {
            r = parts[i].clone();
            assert(ps.take(1)[0] == ps[0]);
        } else {
            push_char(&mut r, ':');
            r = concat(r.as_str(), parts[i].as_str());
            assert(r@ =~= join_colon(ps.take(i as int)) + seq![':'] + ps[i as int]);
        }
        i = i + 1;
    }
    assert(ps.take(parts@.len() as int) =~= ps);
    r
}

/// `value` joined onto the non-empty components of `current` (see `merged_path`).
fn merge_path(current: &str, value: &str, append: bool) -> (r: String)
    ensures
        r@ == merged_path(current@, value@, append),
{
    let mut path_values: Vec<String> = Vec::new();
    if !append {
        path_values.push(owned(value));
    }
    let mut parts = split_colon(current);
    let ghost front = path_values@;
    let ghost ps = parts@;
    path_values.append(&mut parts);
    if append {
        let ghost mid = path_values@;
        path_values.push(owned(value));
        assert(path_values@.map_values(|p: String| p@) =~= mid.map_values(|p: String| p@).push(value@));
    }
    assert(path_values@.map_values(|p: String| p@) =~= (if append {
        colon_parts(current@).push(value@)
    } else {
        seq![value@] + colon_parts(current@)
    }));
    join_parts(&path_values)
}

/// Combine the evaluated definitions of one environment variable into its value
/// (see `single_definitions`); `None` when no definition gives it a value.
pub fn environment_value_merge(definitions: &Vec<(String, Vec<String>)>, env: &OrderedMap<String>) -> (r:
    Option<String>)
    ensures
        crate::model::opt_view(r) == single_definitions(None, defs_view(definitions@), env@),
{
    let mut final_value: Option<String> = None;
    let mut d: usize = 0;
    while d < definitions.len()
        invariant
            d <= definitions@.len(),
            crate::model::opt_view(final_value) == single_definitions(
                None,
                defs_view(definitions@).take(d as int),
                env@,
            ),
        decreases definitions@.len() - d,
    {
        assert(defs_view(definitions@).take(d + 1).drop_last() =~= defs_view(definitions@).take(d as int));
        let (name, is_assign, is_append) = strip_env_op(definitions[d].0.as_str());
        let env_values = &definitions[d].1;
        let ghost fv0 = crate::model::opt_view(final_value);
        let mut k: usize = 0;
        while k < env_values.len()
            invariant
                k <= env_values@.len(),
                crate::model::opt_view(final_value) == single_values(
                    fv0,
                    name@,
                    is_assign,
                    is_append,
                    env_values@.map_values(|s: String| s@).take(k as int),
                    env@,
                ),
            decreases env_values@.len() - k,
        {
            assert(env_values@.map_values(|s: String| s@).take(k + 1).drop_last()
                =~= env_values@.map_values(|s: String| s@).take(k as int));
            let value = &env_values[k];
            let current: Option<String> = match &final_value {
                Some(c) => Some(c.clone()),
                None => match env.get(name.as_str()) {
                    Some(e) => if e.as_str().is_empty() {
                        None
                    } else {
                        Some(e.clone())
                    },
                    None => None,
                },
            };
            final_value = match current {
                Some(c) => if is_assign {
                    Some(value.clone())
                } else {
                    Some(merge_path(c.as_str(), value.as_str(), is_append))
                },
                None => Some(value.clone()),
            };
            k = k + 1;
        }
        assert(env_values@.map_values(|s: String| s@).take(env_values@.len() as int)
            =~= env_values@.map_values(|s: String| s@));
        d = d + 1;
    }
    assert(defs_view(definitions@).take(definitions@.len() as int) =~= defs_view(definitions@));
    final_value
}


/// Where the value of a variable name comes from, as plain values.
pub enum VarSourceView {
    Literal(Seq<char>),
    Variable(Variable),
    Graft(ConfigId, Seq<char>),
    Environment,
}

/// Where the value of a variable name comes from: a literal value, a variable to
/// evaluate, the same name (the remainder) to expand again within a graft
/// configuration, or the environment (the tree's environment definitions, then the
/// outside environment, else the empty string).
pub enum TreeVarSource {
    Literal(String),
    Variable(Variable),
    Graft(ConfigId, String),
    Environment,
}

impl View for TreeVarSource {
    type V = VarSourceView;

    open spec fn view(&self) -> VarSourceView {
        match self {
            TreeVarSource::Literal(s) => VarSourceView::Literal(s@),
            TreeVarSource::Variable(v) => VarSourceView::Variable(*v),
            TreeVarSource::Graft(id, r) => VarSourceView::Graft(*id, r@),
            TreeVarSource::Environment => VarSourceView::Environment,
        }
    }
}

/// The graft and remainder that a "graft::name" variable refers to: a graft of the
/// configuration, else of its parent, else of the root configuration.
pub open spec fn graft_target(cfgs: Seq<Configuration>, root: ConfigId, config: Configuration, name: Seq<char>) -> Option<
    (ConfigId, Seq<char>),
> {
    if spec_graft_id(&config, name) is Some {
        spec_graft_id(&config, name)
    } else if config.parent_id matches Some(pid) && pid < cfgs.len() && spec_graft_id(
        &cfgs[pid as int],
        name,
    ) is Some {
        spec_graft_id(&cfgs[config.parent_id->0 as int], name)
    } else {
        spec_graft_id(&cfgs[root as int], name)
    }
}

/// The variable defined for `name` by garden `garden` of `gardens`.
pub open spec fn garden_var(gardens: Seq<(Seq<char>, Garden)>, garden: Seq<char>, name: Seq<char>) -> Option<Variable> {
    match entry_get(gardens, garden) {
        Some(g) => entry_get(g.variables@, name),
        None => None,
    }
}

/// The variable defined for `name` by tree `tree` of `trees`.
pub open spec fn tree_var(trees: Seq<(Seq<char>, Tree)>, tree: Seq<char>, name: Seq<char>) -> Option<Variable> {
    match entry_get(trees, tree) {
        Some(t) => entry_get(t.variables@, name),
        None => None,
    }
}

/// The source of `name` for tree `tree` (in garden `garden`): "$N" stays literal;
/// then the overrides given on the command line; "graft::name" in its graft; the
/// garden's variables (in the graft configuration, then in `config`); the tree's and
/// the global variables of the graft configuration; the tree's variables; the tree
/// name for TREE_NAME; the global variables; and last the environment.
pub open spec fn spec_tree_var_source(
    cfgs: Seq<Configuration>,
    root: ConfigId,
    config: Configuration,
    graft: Option<Configuration>,
    tree: Seq<char>,
    garden: Option<Seq<char>>,
    name: Seq<char>,
) -> VarSourceView {
    let copy = |v: Option<Variable>| VarSourceView::Variable(v->0.copied());
    if syntax::spec_is_digit(name) {
        VarSourceView::Literal(seq!['$'] + name)
    } else if entry_get(config.override_variables@, name) is Some {
        copy(entry_get(config.override_variables@, name))
    } else if syntax::spec_is_graft(name) && graft_target(cfgs, root, config, name) is Some {
        let (id, rest) = graft_target(cfgs, root, config, name)->0;
        VarSourceView::Graft(id, rest)
    } else if garden is Some && graft is Some && garden_var(graft->0.gardens@, garden->0, name) is Some {
        copy(garden_var(graft->0.gardens@, garden->0, name))
    } else if garden is Some && garden_var(config.gardens@, garden->0, name) is Some {
        copy(garden_var(config.gardens@, garden->0, name))
    } else if graft is Some && tree_var(graft->0.trees@, tree, name) is Some {
        copy(tree_var(graft->0.trees@, tree, name))
    } else if graft is Some && entry_get(graft->0.variables@, name) is Some {
        copy(entry_get(graft->0.variables@, name))
    } else if tree_var(config.trees@, tree, name) is Some {
        copy(tree_var(config.trees@, tree, name))
    } else if name == constants::TREE_NAME@ {
        VarSourceView::Literal(tree)
    } else if entry_get(config.variables@, name) is Some {
        copy(entry_get(config.variables@, name))
    } else {
        VarSourceView::Environment
    }
}

/// Look up a variable of garden `garden` of `gardens`.
fn find_garden_var<'a>(gardens: &'a OrderedMap<Garden>, garden: &str, name: &str) -> (r: Option<&'a Variable>)
    ensures
        r matches Some(v) ==> garden_var(gardens@, garden@, name@) == Some(*v),
        r is None ==> garden_var(gardens@, garden@, name@) is None,
{
    match gardens.get(garden) {
        Some(g) => g.variables.get(name),
        None => None,
    }
}

/// Look up a variable of tree `tree` of `trees`.
fn find_tree_var<'a>(trees: &'a OrderedMap<Tree>, tree: &str, name: &str) -> (r: Option<&'a Variable>)
    ensures
        r matches Some(v) ==> tree_var(trees@, tree@, name@) == Some(*v),
        r is None ==> tree_var(trees@, tree@, name@) is None,
{
    match trees.get(tree) {
        Some(t) => t.variables.get(name),
        None => None,
    }
}

/// Decide where the value of variable `name` comes from when expanding an expression
/// for a tree (see `spec_tree_var_source`).
pub fn expand_tree_vars(
    app_context: &ApplicationContext,
    config: &Configuration,
    graft_config: Option<&Configuration>,
    tree_name: &str,
    garden_name: Option<&String>,
    name: &str,
) -> (r: TreeVarSource)
    requires
        app_context.wf(),
    ensures
        r@ == spec_tree_var_source(
            app_context.configs(),
            app_context.root_of(),
            *config,
            crate::query::opt_config(graft_config),
            tree_name@,
            match garden_name {
                Some(g) => Some(g@),
                None => None,
            },
            name@,
        ),
{
    // "$0", "$1", .. "$N" stay as they are so that commands can use them.
    if syntax::is_digit(name) {
        let mut literal = String::new();
        push_char(&mut literal, '$');
        let literal = concat(literal.as_str(), name);
        assert(literal@ =~= seq!['$'] + name@);
        return TreeVarSource::Literal(literal);
    }
    // Overrides defined by "garden -D name=value".
    if let Some(var) = config.override_variables.get(name) {
        return TreeVarSource::Variable(var.clone());
    }
    // "graft::name" expands within the graft.
    if syntax::is_graft(name) {
        if let Ok((graft_id, remainder)) = config.get_graft_id(name) {
            return TreeVarSource::Graft(graft_id, owned(remainder));
        }
        if let Some(parent_id) = config.parent_id {
            if parent_id < app_context.config_count() {
                let parent_config = app_context.get_config(parent_id);
                if let Ok((graft_id, remainder)) = parent_config.get_graft_id(name) {
                    return TreeVarSource::Graft(graft_id, owned(remainder));
                }
            }
        }
        if let Ok((graft_id, remainder)) = app_context.get_root_config().get_graft_id(name) {
            return TreeVarSource::Graft(graft_id, owned(remainder));
        }
    }
    // Garden scope overrides tree and global scope.
    if let Some(garden) = garden_name {
        if let Some(graft_cfg) = graft_config {
            if let Some(var) = find_garden_var(&graft_cfg.gardens, garden.as_str(), name) {
                return TreeVarSource::Variable(var.clone());
            }
        }
        if let Some(var) = find_garden_var(&config.gardens, garden.as_str(), name) {
            return TreeVarSource::Variable(var.clone());
        }
    }
    // Grafted scopes.
    if let Some(graft_cfg) = graft_config {
        if let Some(var) = find_tree_var(&graft_cfg.trees, tree_name, name) {
            return TreeVarSource::Variable(var.clone());
        }
        if let Some(var) = graft_cfg.variables.get(name) {
            return TreeVarSource::Variable(var.clone());
        }
    }
    // Tree scope.
    if let Some(var) = find_tree_var(&config.trees, tree_name, name) {
        return TreeVarSource::Variable(var.clone());
    }
    if str_eq(name, constants::TREE_NAME) {
        return TreeVarSource::Literal(owned(tree_name));
    }
    // Global scope.
    if let Some(var) = config.variables.get(name) {
        return TreeVarSource::Variable(var.clone());
    }
    TreeVarSource::Environment
}


/// Where the value of a global variable name comes from, as plain values.
pub enum GlobalSourceView {
    Literal(Seq<char>),
    Variable(Variable),
    Graft(ConfigId, Seq<char>),
    Parent(ConfigId),
    Environment,
}

/// Where the value of a global variable name comes from: a literal value, a
/// variable to evaluate, a "graft::name" remainder to expand within a graft, the
/// same name in the parent configuration, or the outside environment (else the empty
/// string).
pub enum GlobalVarSource {
    Literal(String),
    Variable(Variable),
    Graft(ConfigId, String),
    Parent(ConfigId),
    Environment,
}

impl View for GlobalVarSource {
    type V = GlobalSourceView;

    open spec fn view(&self) -> GlobalSourceView {
        match self {
            GlobalVarSource::Literal(s) => GlobalSourceView::Literal(s@),
            GlobalVarSource::Variable(v) => GlobalSourceView::Variable(*v),
            GlobalVarSource::Graft(id, r) => GlobalSourceView::Graft(*id, r@),
            GlobalVarSource::Parent(id) => GlobalSourceView::Parent(*id),
            GlobalVarSource::Environment => GlobalSourceView::Environment,
        }
    }
}

/// The source of a global variable `name` in `config`: "$N" stays literal; a
/// "graft::name" expands within its graft (and is empty when the graft is unknown);
/// then the configuration's variables, its parent configuration, and the outside
/// environment.
pub open spec fn spec_global_var_source(config: Configuration, name: Seq<char>) -> GlobalSourceView {
    if syntax::spec_is_digit(name) {
        GlobalSourceView::Literal(seq!['$'] + name)
    } else if syntax::spec_is_graft(name) {
        match spec_graft_id(&config, name) {
            Some((id, rest)) => GlobalSourceView::Graft(id, rest),
            None => GlobalSourceView::Literal(Seq::empty()),
        }
    } else if entry_get(config.variables@, name) is Some {
        GlobalSourceView::Variable(entry_get(config.variables@, name)->0.copied())
    } else if config.parent_id is Some {
        GlobalSourceView::Parent(config.parent_id->0)
    } else {
        GlobalSourceView::Environment
    }
}

/// Decide where the value of a global variable comes from (see
/// `spec_global_var_source`).
pub fn expand_vars(config: &Configuration, name: &str) -> (r: GlobalVarSource)
    ensures
        r@ == spec_global_var_source(*config, name@),
{
    if syntax::is_digit(name) {
        let mut literal = String::new();
        push_char(&mut literal, '$');
        let literal = concat(literal.as_str(), name);
        assert(literal@ =~= seq!['$'] + name@);
        return GlobalVarSource::Literal(literal);
    }
    if syntax::is_graft(name) {
        return match config.get_graft_id(name) {
            Ok((graft_id, remainder)) => GlobalVarSource::Graft(graft_id, owned(remainder)),
            Err(_) => GlobalVarSource::Literal(String::new()),
        };
    }
    if let Some(var) = config.variables.get(name) {
        return GlobalVarSource::Variable(var.clone());
    }
    if let Some(parent_id) = config.parent_id {
        return GlobalVarSource::Parent(parent_id);
    }
    GlobalVarSource::Environment
}

/// The source of variable `name` within graft configuration `graft`: a nested
/// "graft::name" descends into that graft (empty when unknown), anything else is a
/// global variable of the graft.
pub open spec fn spec_graft_var_source(graft: Configuration, name: Seq<char>) -> GlobalSourceView {
    if syntax::spec_is_graft(name) {
        match spec_graft_id(&graft, name) {
            Some((id, rest)) => GlobalSourceView::Graft(id, rest),
            None => GlobalSourceView::Literal(Seq::empty()),
        }
    } else {
        spec_global_var_source(graft, name)
    }
}

/// Decide where the value of a "graft::name" remainder comes from within the graft
/// configuration `graft_id` (see `spec_graft_var_source`).
pub fn expand_graft_vars(app_context: &ApplicationContext, graft_id: ConfigId, name: &str) -> (r: GlobalVarSource)
    requires
        graft_id < app_context.configs().len(),
    ensures
        r@ == spec_graft_var_source(app_context.configs()[graft_id as int], name@),
{
    let graft = app_context.get_config(graft_id);
    if syntax::is_graft(name) {
        return match graft.get_graft_id(name) {
            Ok((id, remainder)) => GlobalVarSource::Graft(id, owned(remainder)),
            Err(_) => GlobalVarSource::Literal(String::new()),
        };
    }
    expand_vars(graft, name)
}


/// An environment definition with the tree context it is evaluated in, as plain
/// values.
pub type EnvSourceView = (CtxView, (Seq<char>, Seq<VarView>));

/// The plain view of environment definitions with their contexts.
pub open spec fn sources_view(v: Seq<(TreeContext, MultiVariable)>) -> Seq<EnvSourceView> {
    v.map_values(|p: (TreeContext, MultiVariable)| (context_view(p.0), multivar_view(p.1)))
}

/// Environment definitions, each with context `c`.
pub open spec fn with_ctx(c: CtxView, vars: Seq<MultiVariable>) -> Seq<EnvSourceView> {
    vars.map_values(|m: MultiVariable| (c, multivar_view(m)))
}

/// Copying a multi-variable keeps its view.
pub proof fn lemma_multivar_view_copied(a: MultiVariable, b: MultiVariable)
    requires
        multivariable_copied(a, b),
    ensures
        multivar_view(b) == multivar_view(a),
{
    assert forall|i: int| 0 <= i < a.variables_of().len() implies #[trigger] var_view(
        b.variables_of()[i],
    ) == var_view(a.variables_of()[i]) by {
        a.variables_of()[i].lemma_copied();
    }
    assert(var_views(b.variables_of()) =~= var_views(a.variables_of()));
}

/// Append copies of environment definitions, each with context `ctx`.
fn push_envs(ctx: &TreeContext, vars: &Vec<MultiVariable>, out: &mut Vec<(TreeContext, MultiVariable)>)
    ensures
        sources_view(final(out)@) == sources_view(old(out)@) + with_ctx(context_view(*ctx), vars@),
{
    let mut i: usize = 0;
    while i < vars.len()
        invariant
            i <= vars@.len(),
            sources_view(out@) == sources_view(old(out)@) + with_ctx(context_view(*ctx), vars@.take(i as int)),
        decreases vars@.len() - i,
    {
        let ghost before = out@;
        let var = vars[i].clone();
        proof {
            lemma_multivar_view_copied(vars@[i as int], var);
        }
        let c = ctx.clone();
        out.push((c, var));
        assert(with_ctx(context_view(*ctx), vars@.take(i + 1)) =~= with_ctx(
            context_view(*ctx),
            vars@.take(i as int),
        ).push((context_view(*ctx), multivar_view(vars@[i as int]))));
        assert(sources_view(out@) =~= sources_view(before).push((context_view(c), multivar_view(var))));
        i = i + 1;
    }
    assert(vars@.take(vars@.len() as int) =~= vars@);
}

/// The tree of a context: found in the context's configuration, else in `config`.
pub open spec fn ctx_tree(cfgs: Seq<Configuration>, config: Configuration, c: CtxView) -> Option<Tree> {
    if c.1 matches Some(id) && id < cfgs.len() && entry_get(cfgs[id as int].trees@, c.0) is Some {
        entry_get(cfgs[c.1->0 as int].trees@, c.0)
    } else {
        entry_get(config.trees@, c.0)
    }
}

/// Find the tree of a context (see `ctx_tree`).
fn find_ctx_tree<'a>(app_context: &'a ApplicationContext, config: &'a Configuration, ctx: &TreeContext) -> (r:
    Option<&'a Tree>)
    ensures
        r matches Some(t) ==> ctx_tree(app_context.configs(), *config, context_view(*ctx)) == Some(*t),
        r is None ==> ctx_tree(app_context.configs(), *config, context_view(*ctx)) is None,
{
    if let Some(id) = ctx.config {
        if id < app_context.config_count() {
            if let Some(tree) = app_context.get_config(id).trees.get(ctx.tree.as_str()) {
                return Some(tree);
            }
        }
    }
    config.trees.get(ctx.tree.as_str())
}

/// The environment definitions of the trees of each context, in order.
pub open spec fn ctx_envs(cfgs: Seq<Configuration>, config: Configuration, ctxs: Seq<CtxView>) -> Seq<EnvSourceView>
    decreases ctxs.len(),
{
    if ctxs.len() == 0 {
        Seq::empty()
    } else {
        ctx_envs(cfgs, config, ctxs.drop_last()) + match ctx_tree(cfgs, config, ctxs.last()) {
            Some(t) => with_ctx(ctxs.last(), t.environment@),
            None => Seq::empty(),
        }
    }
}

/// Append the environment definitions of the trees of each context.
fn push_ctx_envs(
    app_context: &ApplicationContext,
    config: &Configuration,
    ctxs: &Vec<TreeContext>,
    out: &mut Vec<(TreeContext, MultiVariable)>,
)
    ensures
        sources_view(final(out)@) == sources_view(old(out)@) + ctx_envs(
            app_context.configs(),
            *config,
            contexts_view(ctxs@),
        ),
{
    let mut i: usize = 0;
    while i < ctxs.len()
        invariant
            i <= ctxs@.len(),
            sources_view(out@) == sources_view(old(out)@) + ctx_envs(
                app_context.configs(),
                *config,
                contexts_view(ctxs@).take(i as int),
            ),
        decreases ctxs@.len() - i,
    {
        assert(contexts_view(ctxs@).take(i + 1).drop_last() =~= contexts_view(ctxs@).take(i as int));
        let ghost before = out@;
        if let Some(tree) = find_ctx_tree(app_context, config, &ctxs[i]) {
            push_envs(&ctxs[i], &tree.environment, out);
        }
        i = i + 1;
    }
    assert(contexts_view(ctxs@).take(ctxs@.len() as int) =~= contexts_view(ctxs@));
}

/// The environment definitions that apply to a context, each with the context it is
/// evaluated in: the global definitions; then, for a garden, those of the garden's
/// trees and of the garden; for a group, those of the group's trees; otherwise those
/// of the context's tree.
pub open spec fn spec_environment_sources(
    cfgs: Seq<Configuration>,
    config: Configuration,
    context: CtxView,
    paths: CanonicalPaths,
) -> Seq<EnvSourceView> {
    with_ctx(context, config.environment@) + if context.2 is Some && entry_get(
        config.gardens@,
        context.2->0,
    ) is Some {
        let garden = entry_get(config.gardens@, context.2->0)->0;
        ctx_envs(cfgs, config, spec_trees_from_garden(cfgs, config, None, garden, paths)) + with_ctx(
            context,
            garden.environment@,
        )
    } else if context.2 is None && context.3 is Some && entry_get(config.groups@, context.3->0) is Some {
        let group = entry_get(config.groups@, context.3->0)->0;
        ctx_envs(
            cfgs,
            config,
            spec_trees_from_group(cfgs, config, None, None, group.name@, group.members@, paths),
        )
    } else {
        match entry_get(config.trees@, context.0) {
            Some(t) => with_ctx(context, t.environment@),
            None => Seq::empty(),
        }
    }
}

/// Collect the environment definitions that apply to a context (see
/// `spec_environment_sources`); their names and values are evaluated next and then
/// combined by `environment_merge`.
pub fn environment_sources(
    app_context: &ApplicationContext,
    config: &Configuration,
    context: &TreeContext,
    paths: &CanonicalPaths,
) -> (r: Vec<(TreeContext, MultiVariable)>)
    requires
        app_context.wf(),
        graft_ids_below(*config, app_context.configs().len()),
    ensures
        sources_view(r@) == spec_environment_sources(
            app_context.configs(),
            *config,
            context_view(*context),
            *paths,
        ),
{
    let mut vars: Vec<(TreeContext, MultiVariable)> = Vec::new();
    assert(sources_view(vars@) =~= Seq::<EnvSourceView>::empty());
    push_envs(context, &config.environment, &mut vars);
    let mut ready = false;
    if let Some(garden_name) = &context.garden {
        if let Some(garden) = config.gardens.get(garden_name.as_str()) {
            let ctxs = trees_from_garden(app_context, config, None, garden, paths);
            push_ctx_envs(app_context, config, &ctxs, &mut vars);
            push_envs(context, &garden.environment, &mut vars);
            ready = true;
        }
    } else if let Some(name) = &context.group {
        if let Some(group) = config.groups.get(name.as_str()) {
            let ctxs = trees_from_group(app_context, config, None, &None, group, paths);
            push_ctx_envs(app_context, config, &ctxs, &mut vars);
            ready = true;
        }
    }
    if !ready {
        if let Some(tree) = config.trees.get(context.tree.as_str()) {
            push_envs(context, &tree.environment, &mut vars);
        }
    }
    vars
}


/// The graft configuration in which an environment definition is evaluated: the
/// graft configuration of the variable being evaluated, a configuration by id, or
/// none.
#[derive(PartialEq, Eq, Structural, Clone, Copy)]
pub enum EnvGraft {
    Outer,
    Config(ConfigId),
    NoGraft,
}

/// An environment definition for one variable's value, with its context and the
/// graft configuration it is evaluated in, as plain values.
pub type ValueSourceView = (CtxView, EnvGraft, (Seq<char>, Seq<VarView>));

/// The plain view of environment definitions with contexts and graft choices.
pub open spec fn value_sources_view(v: Seq<(TreeContext, EnvGraft, MultiVariable)>) -> Seq<ValueSourceView> {
    v.map_values(|p: (TreeContext, EnvGraft, MultiVariable)| (context_view(p.0), p.1, multivar_view(p.2)))
}

/// Environment definitions, each with context `c` and graft choice `g`.
pub open spec fn with_ctx_graft(c: CtxView, g: EnvGraft, vars: Seq<MultiVariable>) -> Seq<ValueSourceView> {
    vars.map_values(|m: MultiVariable| (c, g, multivar_view(m)))
}

/// Append copies of environment definitions with a context and a graft choice.
fn push_value_envs(
    ctx: &TreeContext,
    g: EnvGraft,
    vars: &Vec<MultiVariable>,
    out: &mut Vec<(TreeContext, EnvGraft, MultiVariable)>,
)
    ensures
        value_sources_view(final(out)@) == value_sources_view(old(out)@) + with_ctx_graft(
            context_view(*ctx),
            g,
            vars@,
        ),
{
    let mut i: usize = 0;
    while i < vars.len()
        invariant
            i <= vars@.len(),
            value_sources_view(out@) == value_sources_view(old(out)@) + with_ctx_graft(
                context_view(*ctx),
                g,
                vars@.take(i as int),
            ),
        decreases vars@.len() - i,
    {
        let ghost before = out@;
        let var = vars[i].clone();
        proof {
            lemma_multivar_view_copied(vars@[i as int], var);
        }
        let c = ctx.clone();
        out.push((c, g, var));
        assert(with_ctx_graft(context_view(*ctx), g, vars@.take(i + 1)) =~= with_ctx_graft(
            context_view(*ctx),
            g,
            vars@.take(i as int),
        ).push((context_view(*ctx), g, multivar_view(vars@[i as int]))));
        assert(value_sources_view(out@) =~= value_sources_view(before).push(
            (context_view(c), g, multivar_view(var)),
        ));
        i = i + 1;
    }
    assert(vars@.take(vars@.len() as int) =~= vars@);
}

/// The definitions of the trees of a garden's contexts: a tree of the context's
/// configuration is evaluated there, a tree of `config` in the outer graft.
pub open spec fn garden_ctx_envs(cfgs: Seq<Configuration>, config: Configuration, ctxs: Seq<CtxView>) -> Seq<
    ValueSourceView,
>
    decreases ctxs.len(),
{
    if ctxs.len() == 0 {
        Seq::empty()
    } else {
        let c = ctxs.last();
        garden_ctx_envs(cfgs, config, ctxs.drop_last()) + if c.1 matches Some(id) && id < cfgs.len()
            && entry_get(cfgs[id as int].trees@, c.0) is Some {
            with_ctx_graft(c, EnvGraft::Config(c.1->0), entry_get(cfgs[c.1->0 as int].trees@, c.0)->0.environment@)
        } else if entry_get(config.trees@, c.0) is Some {
            with_ctx_graft(c, EnvGraft::Outer, entry_get(config.trees@, c.0)->0.environment@)
        } else {
            Seq::empty()
        }
    }
}

/// The definitions of the trees of a group's contexts: a context with a
/// configuration uses that configuration's tree, otherwise the tree of `config`
/// without a graft. Also whether any tree was found.
pub open spec fn group_ctx_envs(cfgs: Seq<Configuration>, config: Configuration, ctxs: Seq<CtxView>) -> (Seq<
    ValueSourceView,
>, bool)
    decreases ctxs.len(),
{
    if ctxs.len() == 0 {
        (Seq::empty(), false)
    } else {
        let c = ctxs.last();
        let (prev, found) = group_ctx_envs(cfgs, config, ctxs.drop_last());
        if c.1 is Some {
            if c.1->0 < cfgs.len() && entry_get(cfgs[c.1->0 as int].trees@, c.0) is Some {
                (
                    prev + with_ctx_graft(
                        c,
                        EnvGraft::Config(c.1->0),
                        entry_get(cfgs[c.1->0 as int].trees@, c.0)->0.environment@,
                    ),
                    true,
                )
            } else {
                (prev, found)
            }
        } else if entry_get(config.trees@, c.0) is Some {
            (prev + with_ctx_graft(c, EnvGraft::NoGraft, entry_get(config.trees@, c.0)->0.environment@), true)
        } else {
            (prev, found)
        }
    }
}

/// The environment definitions that may define one variable's value in a context,
/// in order: the global definitions, the graft configuration's; then for a garden
/// (found in the graft configuration, else in `config`) those of its trees and its
/// own; for a group those of its trees; and when neither applied, those of the
/// context's tree.
pub open spec fn spec_environment_value_sources(
    cfgs: Seq<Configuration>,
    config: Configuration,
    graft: Option<Configuration>,
    context: CtxView,
    paths: CanonicalPaths,
) -> Seq<ValueSourceView> {
    let globals = with_ctx_graft(context, EnvGraft::Outer, config.environment@) + match graft {
        Some(g) => with_ctx_graft(context, EnvGraft::Outer, g.environment@),
        None => Seq::empty(),
    };
    let garden = match context.2 {
        Some(name) => if graft is Some && entry_get(graft->0.gardens@, name) is Some {
            entry_get(graft->0.gardens@, name)
        } else {
            entry_get(config.gardens@, name)
        },
        None => None,
    };
    let (scoped, ready) = if context.2 is Some {
        match garden {
            Some(g) => (
                garden_ctx_envs(cfgs, config, spec_trees_from_garden(cfgs, config, graft, g, paths))
                    + with_ctx_graft(context, EnvGraft::Outer, g.environment@),
                true,
            ),
            None => (Seq::empty(), false),
        }
    } else if context.3 is Some && entry_get(config.groups@, context.3->0) is Some {
        let group = entry_get(config.groups@, context.3->0)->0;
        group_ctx_envs(
            cfgs,
            config,
            spec_trees_from_group(cfgs, config, graft, None, group.name@, group.members@, paths),
        )
    } else {
        (Seq::empty(), false)
    };
    let single = if ready {
        Seq::empty()
    } else {
        match graft {
            Some(g) => match entry_get(g.trees@, context.0) {
                Some(t) => with_ctx_graft(context, EnvGraft::Outer, t.environment@),
                None => Seq::empty(),
            },
            None => match entry_get(config.trees@, context.0) {
                Some(t) => with_ctx_graft(context, EnvGraft::Outer, t.environment@),
                None => Seq::empty(),
            },
        }
    };
    globals + scoped + single
}

/// Collect the environment definitions that may define one variable's value (see
/// `spec_environment_value_sources`); those whose (evaluated) names define the
/// variable are evaluated next and combined by `environment_value_merge`.
pub fn environment_value_sources(
    app_context: &ApplicationContext,
    config: &Configuration,
    graft_config: Option<&Configuration>,
    context: &TreeContext,
    paths: &CanonicalPaths,
) -> (r: Vec<(TreeContext, EnvGraft, MultiVariable)>)
    requires
        app_context.wf(),
        graft_ids_below(*config, app_context.configs().len()),
    ensures
        value_sources_view(r@) == spec_environment_value_sources(
            app_context.configs(),
            *config,
            crate::query::opt_config(graft_config),
            context_view(*context),
            *paths,
        ),
{
    let mut vars: Vec<(TreeContext, EnvGraft, MultiVariable)> = Vec::new();
    assert(value_sources_view(vars@) =~= Seq::<ValueSourceView>::empty());
    push_value_envs(context, EnvGraft::Outer, &config.environment, &mut vars);
    if let Some(graft_cfg) = graft_config {
        push_value_envs(context, EnvGraft::Outer, &graft_cfg.environment, &mut vars);
    }
    let ghost globals = value_sources_view(vars@);
    let mut ready = false;
    if let Some(garden_name) = &context.garden {
        let mut garden_ref: Option<&Garden> = None;
        if let Some(graft_cfg) = graft_config {
            garden_ref = graft_cfg.gardens.get(garden_name.as_str());
        }
        if garden_ref.is_none() {
            garden_ref = config.gardens.get(garden_name.as_str());
        }
        if let Some(garden) = garden_ref {
            let ctxs = trees_from_garden(app_context, config, graft_config, garden, paths);
            let mut i: usize = 0;
            while i < ctxs.len()
                invariant
                    i <= ctxs@.len(),
                    value_sources_view(vars@) == globals + garden_ctx_envs(
                        app_context.configs(),
                        *config,
                        contexts_view(ctxs@).take(i as int),
                    ),
                decreases ctxs@.len() - i,
            {
                assert(contexts_view(ctxs@).take(i + 1).drop_last() =~= contexts_view(ctxs@).take(i as int));
                let ctx = &ctxs[i];
                let mut done = false;
                if let Some(id) = ctx.config {
                    if id < app_context.config_count() {
                        if let Some(tree) = app_context.get_config(id).trees.get(ctx.tree.as_str()) {
                            push_value_envs(ctx, EnvGraft::Config(id), &tree.environment, &mut vars);
                            done = true;
                        }
                    }
                }
                if !done {
                    if let Some(tree) = config.trees.get(ctx.tree.as_str()) {
                        push_value_envs(ctx, EnvGraft::Outer, &tree.environment, &mut vars);
                    }
                }
                i = i + 1;
            }
            assert(contexts_view(ctxs@).take(ctxs@.len() as int) =~= contexts_view(ctxs@));
            push_value_envs(context, EnvGraft::Outer, &garden.environment, &mut vars);
            ready = true;
        }
    } else if let Some(group_name) = &context.group {
        if let Some(group) = config.groups.get(group_name.as_str()) {
            let ctxs = trees_from_group(app_context, config, graft_config, &None, group, paths);
            let mut i: usize = 0;
            while i < ctxs.len()
                invariant
                    i <= ctxs@.len(),
                    (value_sources_view(vars@), ready) == ({
                        let (p, f) = group_ctx_envs(
                            app_context.configs(),
                            *config,
                            contexts_view(ctxs@).take(i as int),
                        );
                        (globals + p, f)
                    }),
                decreases ctxs@.len() - i,
            {
                assert(contexts_view(ctxs@).take(i + 1).drop_last() =~= contexts_view(ctxs@).take(i as int));
                let ctx = &ctxs[i];
                if let Some(id) = ctx.config {
                    if id < app_context.config_count() {
                        if let Some(tree) = app_context.get_config(id).trees.get(ctx.tree.as_str()) {
                            push_value_envs(ctx, EnvGraft::Config(id), &tree.environment, &mut vars);
                            ready = true;
                        }
                    }
                } else if let Some(tree) = config.trees.get(ctx.tree.as_str()) {
                    push_value_envs(ctx, EnvGraft::NoGraft, &tree.environment, &mut vars);
                    ready = true;
                }
                i = i + 1;
            }
            assert(contexts_view(ctxs@).take(ctxs@.len() as int) =~= contexts_view(ctxs@));
        }
    }
    let ghost before_single = value_sources_view(vars@);
    if !ready {
        match graft_config {
            Some(graft_cfg) => {
                if let Some(tree) = graft_cfg.trees.get(context.tree.as_str()) {
                    push_value_envs(context, EnvGraft::Outer, &tree.environment, &mut vars);
                }
            },
            None => {
                if let Some(tree) = config.trees.get(context.tree.as_str()) {
                    push_value_envs(context, EnvGraft::Outer, &tree.environment, &mut vars);
                }
            },
        }
    }
    vars
}

/// The names that define a variable's value: the name itself, "name+" and "name=".
pub open spec fn defines_name(name: Seq<char>, candidate: Seq<char>) -> bool {
    candidate == name || candidate == name.push('+') || candidate == name.push('=')
}

/// Does an environment definition's (evaluated) name define variable `name`?
pub fn env_defines(name: &str, candidate: &str) -> (r: bool)
    ensures
        r == defines_name(name@, candidate@),
{
    let mut append = owned(name);
    push_char(&mut append, '+');
    let mut replace = owned(name);
    push_char(&mut replace, '=');
    str_eq(candidate, name) || str_eq(candidate, append.as_str()) || str_eq(candidate, replace.as_str())
}


/// The variable lists of the commands whose names match `pattern`, in order.
pub open spec fn matching_commands(commands: Seq<(Seq<char>, Vec<Variable>)>, pattern: Seq<char>) -> Seq<
    Seq<VarView>,
>
    decreases commands.len(),
{
    if commands.len() == 0 {
        Seq::empty()
    } else {
        let rest = matching_commands(commands.drop_last(), pattern);
        if spec_glob_matches(pattern, commands.last().0) {
            rest.push(var_views(commands.last().1@))
        } else {
            rest
        }
    }
}

/// The plain view of a list of variable lists.
pub open spec fn var_lists_view(v: Seq<Vec<Variable>>) -> Seq<Seq<VarView>> {
    v.map_values(|l: Vec<Variable>| var_views(l@))
}

/// Append copies of the variable lists of the commands whose names match `pattern`.
fn push_matching_commands(commands: &MultiVariableMap, pattern: &str, out: &mut Vec<Vec<Variable>>)
    ensures
        var_lists_view(final(out)@) == var_lists_view(old(out)@) + matching_commands(commands@, pattern@),
{
    let mut i: usize = 0;
    while i < commands.len()
        invariant
            i <= commands@.len(),
            var_lists_view(out@) == var_lists_view(old(out)@) + matching_commands(
                commands@.take(i as int),
                pattern@,
            ),
        decreases commands@.len() - i,
    {
        assert(commands@.take(i + 1).drop_last() =~= commands@.take(i as int));
        if glob_matches(pattern, commands.key_at(i).as_str()) {
            let ghost before = out@;
            let vars = clone_variables(commands.value_at(i));
            proof {
                assert forall|k: int| 0 <= k < vars@.len() implies #[trigger] var_view(vars@[k]) == var_view(
                    commands@[i as int].1@[k],
                ) by {
                    commands@[i as int].1@[k].lemma_copied();
                }
                assert(var_views(vars@) =~= var_views(commands@[i as int].1@));
            }
            out.push(vars);
            assert(var_lists_view(out@) =~= var_lists_view(before).push(var_views(vars@)));
        }
        i = i + 1;
    }
    assert(commands@.take(commands@.len() as int) =~= commands@);
}

/// The configuration of a context: the context's configuration, else the root.
pub open spec fn ctx_config(cfgs: Seq<Configuration>, root: ConfigId, c: CtxView) -> Configuration {
    match c.1 {
        Some(id) => cfgs[id as int],
        None => cfgs[root as int],
    }
}

/// The variable lists of the commands named by pattern `name` in a context: global
/// commands, then the tree's, then the garden's. An invalid pattern names nothing.
pub open spec fn spec_command_sources(cfgs: Seq<Configuration>, root: ConfigId, c: CtxView, name: Seq<char>) -> Seq<
    Seq<VarView>,
> {
    let config = ctx_config(cfgs, root, c);
    if !spec_glob_valid(name) {
        Seq::empty()
    } else {
        matching_commands(config.commands@, name) + match entry_get(config.trees@, c.0) {
            Some(t) => matching_commands(t.commands@, name),
            None => Seq::empty(),
        } + match c.2 {
            Some(g) => match entry_get(config.gardens@, g) {
                Some(garden) => matching_commands(garden.commands@, name),
                None => Seq::empty(),
            },
            None => Seq::empty(),
        }
    }
}

/// Select the variable lists of the commands named by a pattern in a context (see
/// `spec_command_sources`); each list is then evaluated for the shell.
pub fn command_sources(app_context: &ApplicationContext, context: &TreeContext, name: &str) -> (r: Vec<Vec<Variable>>)
    requires
        app_context.wf(),
        context.config matches Some(id) ==> id < app_context.configs().len(),
    ensures
        var_lists_view(r@) == spec_command_sources(
            app_context.configs(),
            app_context.root_of(),
            context_view(*context),
            name@,
        ),
{
    let mut result: Vec<Vec<Variable>> = Vec::new();
    assert(var_lists_view(result@) =~= Seq::<Seq<VarView>>::empty());
    let config = match context.config {
        Some(config_id) => app_context.get_config(config_id),
        None => app_context.get_root_config(),
    };
    if !glob_pattern_is_valid(name) {
        return result;
    }
    push_matching_commands(&config.commands, name, &mut result);
    let ghost globals = var_lists_view(result@);
    if let Some(tree) = config.trees.get(context.tree.as_str()) {
        push_matching_commands(&tree.commands, name, &mut result);
    } else {
        assert(var_lists_view(result@) =~= globals + Seq::<Seq<VarView>>::empty());
    }
    let ghost with_tree = var_lists_view(result@);
    let mut garden_found = false;
    if let Some(garden_name) = &context.garden {
        if let Some(garden) = config.gardens.get(garden_name.as_str()) {
            push_matching_commands(&garden.commands, name, &mut result);
            garden_found = true;
        }
    }
    if !garden_found {
        assert(var_lists_view(result@) =~= with_tree + Seq::<Seq<VarView>>::empty());
    }
    result
}


/// The variable list of a command, when it is defined.
pub open spec fn opt_var_list(o: Option<Vec<Variable>>) -> Seq<Seq<VarView>> {
    match o {
        Some(v) => seq![var_views(v@)],
        None => Seq::empty(),
    }
}

/// The variable lists of the commands named exactly `name` in a context: the global
/// command, then the tree's, then the garden's. These are the values of a command's
/// pre-commands ("name<") and post-commands ("name>").
pub open spec fn spec_hook_sources(cfgs: Seq<Configuration>, root: ConfigId, c: CtxView, name: Seq<char>) -> Seq<
    Seq<VarView>,
> {
    let config = ctx_config(cfgs, root, c);
    opt_var_list(entry_get(config.commands@, name)) + match entry_get(config.trees@, c.0) {
        Some(t) => opt_var_list(entry_get(t.commands@, name)),
        None => Seq::empty(),
    } + match c.2 {
        Some(g) => match entry_get(config.gardens@, g) {
            Some(garden) => opt_var_list(entry_get(garden.commands@, name)),
            None => Seq::empty(),
        },
        None => Seq::empty(),
    }
}

/// Append a copy of the variable list of the command named `name`, if defined.
fn push_named_command(commands: &MultiVariableMap, name: &str, out: &mut Vec<Vec<Variable>>)
    ensures
        var_lists_view(final(out)@) == var_lists_view(old(out)@) + opt_var_list(entry_get(commands@, name@)),
{
    let ghost before = out@;
    match commands.get(name) {
        Some(vars) => {
            let copy = clone_variables(vars);
            proof {
                assert forall|k: int| 0 <= k < copy@.len() implies #[trigger] var_view(copy@[k]) == var_view(
                    vars@[k],
                ) by {
                    vars@[k].lemma_copied();
                }
                assert(var_views(copy@) =~= var_views(vars@));
            }
            out.push(copy);
            assert(var_lists_view(out@) =~= var_lists_view(before) + seq![var_views(vars@)]);
        },
        None => {
            assert(var_lists_view(out@) =~= var_lists_view(before) + Seq::<Seq<VarView>>::empty());
        },
    }
}

/// Select the variable lists of the commands named exactly `name` in a context (see
/// `spec_hook_sources`); each list is then evaluated for the shell.
pub fn hook_sources(app_context: &ApplicationContext, context: &TreeContext, name: &str) -> (r: Vec<Vec<Variable>>)
    requires
        app_context.wf(),
        context.config matches Some(id) ==> id < app_context.configs().len(),
    ensures
        var_lists_view(r@) == spec_hook_sources(
            app_context.configs(),
            app_context.root_of(),
            context_view(*context),
            name@,
        ),
{
    let mut result: Vec<Vec<Variable>> = Vec::new();
    assert(var_lists_view(result@) =~= Seq::<Seq<VarView>>::empty());
    let config = match context.config {
        Some(config_id) => app_context.get_config(config_id),
        None => app_context.get_root_config(),
    };
    push_named_command(&config.commands, name, &mut result);
    let ghost globals = var_lists_view(result@);
    if let Some(tree) = config.trees.get(context.tree.as_str()) {
        push_named_command(&tree.commands, name, &mut result);
    } else {
        assert(var_lists_view(result@) =~= globals + Seq::<Seq<VarView>>::empty());
    }
    let ghost with_tree = var_lists_view(result@);
    let mut garden_found = false;
    if let Some(garden_name) = &context.garden {
        if let Some(garden) = config.gardens.get(garden_name.as_str()) {
            push_named_command(&garden.commands, name, &mut result);
            garden_found = true;
        }
    }
    if !garden_found {
        assert(var_lists_view(result@) =~= with_tree + Seq::<Seq<VarView>>::empty());
    }
    result
}

/// An assignment ("NAME=value") gives the variable exactly the value, whatever it
/// held before or in the outside environment.
pub proof fn law_env_assignment_sets_value(
    st: MergeState,
    name: Seq<char>,
    append: bool,
    value: Seq<char>,
    env: Seq<(Seq<char>, String)>,
)
    ensures
        entry_get(merge_value(st, name, true, append, value, env).0, name) == Some(value),
        merge_value(st, name, true, append, value, env).1 == st.1.push((name, value)),
{
    crate::collections::lemma_entry_get_insert(st.0, name, value, name);
}

/// Appending ("NAME+value") puts the value after the current value, and prepending
/// ("NAME" value) puts it in front, separated by ":".
pub proof fn law_env_append_prepend(
    st: MergeState,
    name: Seq<char>,
    value: Seq<char>,
    env: Seq<(Seq<char>, String)>,
)
    requires
        entry_get(st.0, name) is Some,
    ensures
        entry_get(merge_value(st, name, false, true, value, env).0, name) == Some(
            entry_get(st.0, name)->0 + seq![':'] + value,
        ),
        entry_get(merge_value(st, name, false, false, value, env).0, name) == Some(
            value + seq![':'] + entry_get(st.0, name)->0,
        ),
{
    let c = entry_get(st.0, name)->0;
    crate::collections::lemma_entry_get_insert(st.0, name, joined(c, value, true), name);
    crate::collections::lemma_entry_get_insert(st.0, name, joined(c, value, false), name);
}

/// Each value of each definition makes exactly one assignment.
pub proof fn law_env_one_assignment_per_value(
    st: MergeState,
    defs: Seq<(Seq<char>, Seq<Seq<char>>)>,
    env: Seq<(Seq<char>, String)>,
)
    ensures
        merge_definitions(st, defs, env).1.len() == st.1.len() + total_values(defs),
    decreases defs.len(),
{
    if defs.len() > 0 {
        law_env_one_assignment_per_value(st, defs.drop_last(), env);
        let prev = merge_definitions(st, defs.drop_last(), env);
        let var_name = defs.last().0;
        lemma_merge_values_len(
            prev,
            env_name(var_name),
            syntax::spec_is_replace_op(var_name),
            syntax::spec_is_append_op(var_name),
            defs.last().1,
            env,
        );
    }
}

/// The number of values of a list of definitions.
pub open spec fn total_values(defs: Seq<(Seq<char>, Seq<Seq<char>>)>) -> nat
    decreases defs.len(),
{
    if defs.len() == 0 {
        0
    } else {
        total_values(defs.drop_last()) + defs.last().1.len()
    }
}

/// Each value makes one assignment.
proof fn lemma_merge_values_len(
    st: MergeState,
    name: Seq<char>,
    assign: bool,
    append: bool,
    values: Seq<Seq<char>>,
    env: Seq<(Seq<char>, String)>,
)
    ensures
        merge_values(st, name, assign, append, values, env).1.len() == st.1.len() + values.len(),
    decreases values.len(),
{
    if values.len() > 0 {
        lemma_merge_values_len(st, name, assign, append, values.drop_last(), env);
    }
}

/// Tree scope comes before global scope: when a tree defines variable `name` and no
/// override, graft reference or garden variable applies, the tree's variable is
/// the source, whatever the global variables define.
pub proof fn law_tree_variable_wins_over_global(
    cfgs: Seq<Configuration>,
    root: ConfigId,
    config: Configuration,
    tree: Seq<char>,
    garden: Option<Seq<char>>,
    name: Seq<char>,
    t: Tree,
    v: Variable,
)
    requires
        !syntax::spec_is_digit(name),
        entry_get(config.override_variables@, name) is None,
        !syntax::spec_is_graft(name),
        match garden {
            Some(g) => match entry_get(config.gardens@, g) {
                Some(gd) => entry_get(gd.variables@, name) is None,
                None => true,
            },
            None => true,
        },
        entry_get(config.trees@, tree) == Some(t),
        entry_get(t.variables@, name) == Some(v),
    ensures
        spec_tree_var_source(cfgs, root, config, None, tree, garden, name) == VarSourceView::Variable(v.copied()),
{
}

/// Command-line overrides win over every scope: a variable given on the command
/// line is the source of its name (unless the name is a positional "$N").
pub proof fn law_override_variable_wins(
    cfgs: Seq<Configuration>,
    root: ConfigId,
    config: Configuration,
    graft: Option<Configuration>,
    tree: Seq<char>,
    garden: Option<Seq<char>>,
    name: Seq<char>,
    v: Variable,
)
    requires
        !syntax::spec_is_digit(name),
        entry_get(config.override_variables@, name) == Some(v),
    ensures
        spec_tree_var_source(cfgs, root, config, graft, tree, garden, name) == VarSourceView::Variable(v.copied()),
{
}

/// Garden scope comes before tree scope: a variable of the context's garden is the
/// source of its name, whatever the tree and the global variables define.
pub proof fn law_garden_variable_wins_over_tree(
    cfgs: Seq<Configuration>,
    root: ConfigId,
    config: Configuration,
    tree: Seq<char>,
    garden: Seq<char>,
    name: Seq<char>,
    gd: Garden,
    v: Variable,
)
    requires
        !syntax::spec_is_digit(name),
        entry_get(config.override_variables@, name) is None,
        !syntax::spec_is_graft(name),
        entry_get(config.gardens@, garden) == Some(gd),
        entry_get(gd.variables@, name) == Some(v),
    ensures
        spec_tree_var_source(cfgs, root, config, None, tree, Some(garden), name) == VarSourceView::Variable(
            v.copied(),
        ),
{
}

/// TREE_NAME is the tree's name unless an override, garden or the tree itself
/// defines it, whatever the global variables define.
pub proof fn law_tree_name_variable(cfgs: Seq<Configuration>, root: ConfigId, config: Configuration, tree: Seq<char>)
    requires
        entry_get(config.override_variables@, constants::TREE_NAME@) is None,
        match entry_get(config.trees@, tree) {
            Some(t) => entry_get(t.variables@, constants::TREE_NAME@) is None,
            None => true,
        },
    ensures
        spec_tree_var_source(cfgs, root, config, None, tree, None, constants::TREE_NAME@) == VarSourceView::Literal(
            tree,
        ),
{
    reveal_strlit("TREE_NAME");
    assert(!syntax::spec_is_digit(constants::TREE_NAME@)) by {
        assert(!('0' <= constants::TREE_NAME@[0] <= '9'));
    }
    let n = constants::TREE_NAME@;
    assert(!syntax::spec_is_graft(n)) by {
        if syntax::spec_is_graft(n) {
            let i = choose|i: int| crate::text::occurs_at(n, syntax::graft_separator(), i);
            assert(n.subrange(i, i + 2)[0] == ':');
            assert(n[i] == ':');
        }
    }
}

/// Global scope is used only when neither the tree nor TREE_NAME gives the name:
/// a global variable is the source exactly when no earlier scope applies.
pub proof fn law_global_variable_when_tree_silent(
    cfgs: Seq<Configuration>,
    root: ConfigId,
    config: Configuration,
    tree: Seq<char>,
    name: Seq<char>,
    v: Variable,
)
    requires
        !syntax::spec_is_digit(name),
        entry_get(config.override_variables@, name) is None,
        !syntax::spec_is_graft(name),
        match entry_get(config.trees@, tree) {
            Some(t) => entry_get(t.variables@, name) is None,
            None => true,
        },
        name != constants::TREE_NAME@,
        entry_get(config.variables@, name) == Some(v),
    ensures
        spec_tree_var_source(cfgs, root, config, None, tree, None, name) == VarSourceView::Variable(v.copied()),
{
}

/// The commands that match `pattern`, in order.
pub open spec fn commands_matching(cmds: Seq<(Seq<char>, Vec<Variable>)>, pattern: Seq<char>) -> Seq<
    (Seq<char>, Vec<Variable>),
> {
    cmds.filter(|e: (Seq<char>, Vec<Variable>)| spec_glob_matches(pattern, e.0))
}

/// `matching_commands` lists the variable lists of the commands that match.
proof fn lemma_matching_commands_filter(cmds: Seq<(Seq<char>, Vec<Variable>)>, pattern: Seq<char>)
    ensures
        matching_commands(cmds, pattern).len() == commands_matching(cmds, pattern).len(),
        forall|j: int|
            0 <= j < commands_matching(cmds, pattern).len() ==> #[trigger] matching_commands(cmds, pattern)[j]
                == var_views(commands_matching(cmds, pattern)[j].1@),
    decreases cmds.len(),
{
    reveal(Seq::filter);
    if cmds.len() > 0 {
        lemma_matching_commands_filter(cmds.drop_last(), pattern);
    }
}

/// The commands that a context runs: for a valid pattern, every command of the
/// configuration whose name matches, in order, then every matching command of the
/// context's tree, then every matching command of its garden, each giving its
/// variable list, and nothing else; an invalid pattern runs nothing.
pub proof fn law_command_sources_scopes(cfgs: Seq<Configuration>, root: ConfigId, c: CtxView, name: Seq<char>)
    ensures
        !spec_glob_valid(name) ==> spec_command_sources(cfgs, root, c, name).len() == 0,
        spec_glob_valid(name) ==> ({
            let config = ctx_config(cfgs, root, c);
            let r = spec_command_sources(cfgs, root, c, name);
            let g = commands_matching(config.commands@, name);
            let t = match entry_get(config.trees@, c.0) {
                Some(tr) => commands_matching(tr.commands@, name),
                None => Seq::empty(),
            };
            let d = match c.2 {
                Some(gn) => match entry_get(config.gardens@, gn) {
                    Some(garden) => commands_matching(garden.commands@, name),
                    None => Seq::empty(),
                },
                None => Seq::empty(),
            };
            &&& r.len() == g.len() + t.len() + d.len()
            &&& forall|j: int| 0 <= j < g.len() ==> r[j] == var_views(#[trigger] g[j].1@)
            &&& forall|j: int| 0 <= j < t.len() ==> r[g.len() + j] == var_views(#[trigger] t[j].1@)
            &&& forall|j: int| 0 <= j < d.len() ==> r[g.len() + t.len() + j] == var_views(#[trigger] d[j].1@)
        }),
{
    let config = ctx_config(cfgs, root, c);
    lemma_matching_commands_filter(config.commands@, name);
    match entry_get(config.trees@, c.0) {
        Some(tr) => lemma_matching_commands_filter(tr.commands@, name),
        None => {},
    }
    match c.2 {
        Some(gn) => match entry_get(config.gardens@, gn) {
            Some(garden) => lemma_matching_commands_filter(garden.commands@, name),
            None => {},
        },
        None => {},
    }
}

} // verus!

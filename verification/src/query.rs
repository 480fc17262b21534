//! Resolve tree queries into tree contexts.
use vstd::prelude::*;

use crate::collections::{entry_get, lemma_entry_index, OrderedMap};
use crate::constants;
use crate::errors::GardenError;
use crate::model::{
    context_view, opt_view, clone_opt, ApplicationContext, ConfigId, Configuration, Garden, Group,
    Tree, TreeContext, TreeQuery, spec_graft_id, graft_ids_below, lemma_graft_id_below,
};
use crate::pattern::{glob_matches, glob_pattern_is_valid, spec_glob_matches, spec_glob_valid};
use crate::syntax;
use crate::text::{owned, str_eq};

verus! {

/// The plain view of a tree context: tree name, config id, garden and group.
pub type CtxView = (Seq<char>, Option<ConfigId>, Option<Seq<char>>, Option<Seq<char>>);

/// The views of a list of tree contexts.
pub open spec fn contexts_view(v: Seq<TreeContext>) -> Seq<CtxView> {
    v.map_values(|c: TreeContext| context_view(c))
}

/// Canonical forms of path strings: each path that exists on disk maps to its
/// canonical absolute path. Paths are looked up here instead of on the filesystem.
pub struct CanonicalPaths {
    pub paths: OrderedMap<String>,
}

/// The canonical form of path `p`, when known.
pub open spec fn canon_of(paths: CanonicalPaths, p: Seq<char>) -> Option<Seq<char>> {
    match entry_get(paths.paths@, p) {
        Some(c) => Some(c@),
        None => None,
    }
}

/// Look up the canonical form of a path.
pub fn canonical(paths: &CanonicalPaths, p: &str) -> (r: Option<String>)
    ensures
        opt_view(r) == canon_of(*paths, p@),
{
    match paths.paths.get(p) {
        Some(c) => Some(c.clone()),
        None => None,
    }
}

/// The canonical form of a tree's evaluated path, when it has one.
pub open spec fn tree_canon(t: Tree, paths: CanonicalPaths) -> Option<Seq<char>> {
    match t.path_of().value_of() {
        Some(v) => canon_of(paths, v),
        None => None,
    }
}

/// Index of the first tree whose canonical path is `c`.
pub open spec fn first_tree_at(trees: Seq<(Seq<char>, Tree)>, c: Seq<char>, paths: CanonicalPaths) -> Option<int>
    decreases trees.len(),
{
    if trees.len() == 0 {
        None
    } else {
        match first_tree_at(trees.drop_last(), c, paths) {
            Some(i) => Some(i),
            None => if tree_canon(trees.last().1, paths) == Some(c) {
                Some(trees.len() - 1)
            } else {
                None
            },
        }
    }
}

/// Facts about `first_tree_at`.
proof fn lemma_first_tree_at(trees: Seq<(Seq<char>, Tree)>, c: Seq<char>, paths: CanonicalPaths)
    ensures
        first_tree_at(trees, c, paths) matches Some(i) ==> 0 <= i < trees.len() && tree_canon(
            trees[i].1,
            paths,
        ) == Some(c) && forall|j: int| 0 <= j < i ==> tree_canon(#[trigger] trees[j].1, paths) != Some(c),
        first_tree_at(trees, c, paths) is None ==> forall|j: int|
            0 <= j < trees.len() ==> tree_canon(#[trigger] trees[j].1, paths) != Some(c),
    decreases trees.len(),
{
    if trees.len() > 0 {
        let t = trees.drop_last();
        lemma_first_tree_at(t, c, paths);
        assert(forall|j: int| 0 <= j < t.len() ==> t[j] == trees[j]);
    }
}

/// Find the first tree whose canonical path is `c`.
fn find_tree_at(trees: &OrderedMap<Tree>, c: &str, paths: &CanonicalPaths) -> (r: Option<usize>)
    ensures
        r matches Some(i) ==> first_tree_at(trees@, c@, *paths) == Some(i as int),
        r is None ==> first_tree_at(trees@, c@, *paths) is None,
{
    let mut i: usize = 0;
    while i < trees.len()
        invariant
            i <= trees@.len(),
            forall|j: int| 0 <= j < i ==> tree_canon(#[trigger] trees@[j].1, *paths) != Some(c@),
        decreases trees@.len() - i,
    {
        let tree = trees.value_at(i);
        let found = match tree.path.get_value() {
            Some(tree_path) => match paths.paths.get(tree_path.as_str()) {
                Some(tree_canon) => str_eq(tree_canon.as_str(), c),
                None => false,
            },
            None => false,
        };
        if found {
            proof {
                lemma_first_tree_at(trees@, c@, *paths);
                match first_tree_at(trees@, c@, *paths) {
                    Some(m) => {
                        if m < i {
                        } else if i < m {
                        }
                    },
                    None => {},
                }
            }
            return Some(i);
        }
        i = i + 1;
    }
    proof {
        lemma_first_tree_at(trees@, c@, *paths);
        if let Some(m) = first_tree_at(trees@, c@, *paths) {
            assert(tree_canon(trees@[m].1, *paths) != Some(c@));
        }
    }
    None
}

/// The context of the tree found on disk at `path`: the first tree whose canonical
/// path is the canonical form of `path`; for "." the first tree at the configuration
/// directory.
pub open spec fn spec_tree_from_path(config: Configuration, path: Seq<char>, paths: CanonicalPaths) -> Option<CtxView> {
    match canon_of(paths, path) {
        None => None,
        Some(c) => match first_tree_at(config.trees@, c, paths) {
            Some(i) => Some((config.trees@[i].0, config.id, None, None)),
            None => if path == constants::DOT@ && config.dirname is Some {
                match first_tree_at(config.trees@, config.dirname->0@, paths) {
                    Some(i) => Some((config.trees@[i].0, config.id, None, None)),
                    None => None,
                }
            } else {
                None
            },
        },
    }
}

/// Return a tree context for the tree found on disk at `path`.
pub fn tree_from_path(config: &Configuration, path: &str, paths: &CanonicalPaths) -> (r: Option<TreeContext>)
    ensures
        r matches Some(c) ==> spec_tree_from_path(*config, path@, *paths) == Some(context_view(c)),
        r is None ==> spec_tree_from_path(*config, path@, *paths) is None,
{
    // First check whether the path (including ".") is a configured tree.
    let canon = match paths.paths.get(path) {
        Some(c) => c,
        None => return None,
    };
    if let Some(i) = find_tree_at(&config.trees, canon.as_str(), paths) {
        proof {
            lemma_first_tree_at(config.trees@, canon@, *paths);
        }
        return Some(TreeContext::new(config.trees.key_at(i).as_str(), config.id, None, None));
    }
    // "." falls back to the configuration directory, to find trees at the root.
    if str_eq(path, constants::DOT) {
        if let Some(dirname) = &config.dirname {
            if let Some(i) = find_tree_at(&config.trees, dirname.as_str(), paths) {
                proof {
                    lemma_first_tree_at(config.trees@, dirname@, *paths);
                }
                return Some(TreeContext::new(config.trees.key_at(i).as_str(), config.id, None, None));
            }
        }
    }
    None
}

/// Return the name of an existing tree whose evaluated path is, canonically, the
/// absolute path `path`.
pub fn tree_name_from_abspath(config: &Configuration, path: &str, paths: &CanonicalPaths) -> (r: Option<String>)
    ensures
        r matches Some(n) ==> first_tree_at(config.trees@, path@, *paths) matches Some(i) && n@
            == config.trees@[i].1.name_of(),
        r is None ==> first_tree_at(config.trees@, path@, *paths) is None,
{
    match find_tree_at(&config.trees, path, paths) {
        Some(i) => {
            proof {
                lemma_first_tree_at(config.trees@, path@, *paths);
            }
            Some(config.trees.value_at(i).name.clone())
        },
        None => None,
    }
}

/// The config id recorded in contexts of trees found through `config.graft_id()`.
pub open spec fn spec_graft_config_id(config: Configuration) -> Option<ConfigId> {
    if config.parent_id is Some {
        config.id
    } else {
        None
    }
}

/// Contexts for the trees whose names match `pattern`, in order.
pub open spec fn spec_matching_trees(
    trees: Seq<(Seq<char>, Tree)>,
    pattern: Seq<char>,
    id: Option<ConfigId>,
    garden: Option<Seq<char>>,
    group: Option<Seq<char>>,
) -> Seq<CtxView>
    decreases trees.len(),
{
    if trees.len() == 0 {
        Seq::empty()
    } else {
        let rest = spec_matching_trees(trees.drop_last(), pattern, id, garden, group);
        if spec_glob_matches(pattern, trees.last().0) {
            rest.push((trees.last().1.name_of(), id, garden, group))
        } else {
            rest
        }
    }
}

/// Append contexts for the trees whose names match `pattern`.
fn push_matching_trees(
    trees: &OrderedMap<Tree>,
    pattern: &str,
    id: Option<ConfigId>,
    garden: &Option<String>,
    group: &Option<String>,
    result: &mut Vec<TreeContext>,
)
    ensures
        contexts_view(final(result)@) == contexts_view(old(result)@) + spec_matching_trees(
            trees@,
            pattern@,
            id,
            opt_view(*garden),
            opt_view(*group),
        ),
{
    let mut i: usize = 0;
    while i < trees.len()
        invariant
            i <= trees@.len(),
            contexts_view(result@) == contexts_view(old(result)@) + spec_matching_trees(
                trees@.take(i as int),
                pattern@,
                id,
                opt_view(*garden),
                opt_view(*group),
            ),
        decreases trees@.len() - i,
    {
        assert(trees@.take(i + 1).drop_last() =~= trees@.take(i as int));
        if glob_matches(pattern, trees.key_at(i).as_str()) {
            let ghost before = result@;
            let ctx = TreeContext::new(trees.value_at(i).name.as_str(), id, clone_opt(garden), clone_opt(group));
            result.push(ctx);
            assert(contexts_view(result@) =~= contexts_view(before).push(context_view(ctx)));
        }
        i = i + 1;
    }
    assert(trees@.take(trees@.len() as int) =~= trees@);
}

/// Return tree contexts for the trees whose names match `pattern`.
pub fn trees(config: &Configuration, pattern: &str) -> (r: Vec<TreeContext>)
    ensures
        contexts_view(r@) == spec_matching_trees(
            config.trees@,
            pattern@,
            spec_graft_config_id(*config),
            None,
            None,
        ),
{
    let mut result: Vec<TreeContext> = Vec::new();
    push_matching_trees(&config.trees, pattern, config.graft_id(), &None, &None, &mut result);
    assert(contexts_view(Seq::<TreeContext>::empty()) =~= Seq::<CtxView>::empty());
    result
}

/// The context found for a tree name: the configured tree of that name, else the
/// tree found on disk at that path.
pub open spec fn spec_tree_from_name(
    config: Configuration,
    name: Seq<char>,
    garden: Option<Seq<char>>,
    group: Option<Seq<char>>,
    paths: CanonicalPaths,
) -> Option<CtxView> {
    match entry_get(config.trees@, name) {
        Some(t) => Some((t.name_of(), spec_graft_config_id(config), garden, group)),
        None => spec_tree_from_path(config, name, paths),
    }
}

/// Find a tree by name.
pub fn tree_from_name(
    config: &Configuration,
    tree_name: &str,
    garden_name: &Option<String>,
    group: &Option<String>,
    paths: &CanonicalPaths,
) -> (r: Option<TreeContext>)
    ensures
        r matches Some(c) ==> spec_tree_from_name(
            *config,
            tree_name@,
            opt_view(*garden_name),
            opt_view(*group),
            *paths,
        ) == Some(context_view(c)),
        r is None ==> spec_tree_from_name(
            *config,
            tree_name@,
            opt_view(*garden_name),
            opt_view(*group),
            *paths,
        ) is None,
{
    if let Some(tree) = config.trees.get(tree_name) {
        return Some(
            TreeContext::new(tree.name.as_str(), config.graft_id(), clone_opt(garden_name), clone_opt(group)),
        );
    }
    tree_from_path(config, tree_name, paths)
}


/// The contexts of the trees matching `tree` (a glob pattern, or "graft::pattern" to
/// search a graft), found in the graft configuration first and then in `config`;
/// when none match, the tree found on disk at that path. An invalid pattern matches
/// nothing.
pub open spec fn spec_trees_from_pattern(
    cfgs: Seq<Configuration>,
    config: Configuration,
    graft: Option<Configuration>,
    tree: Seq<char>,
    garden: Option<Seq<char>>,
    group: Option<Seq<char>>,
    paths: CanonicalPaths,
) -> Seq<CtxView>
    decreases tree.len(),
{
    if syntax::spec_is_graft(tree) && spec_graft_id(&config, tree) is Some {
        let (id, rest) = spec_graft_id(&config, tree)->0;
        proof {
            crate::model::lemma_graft_rest_shorter(config, tree);
        }
        spec_trees_from_pattern(cfgs, config, Some(cfgs[id as int]), rest, garden, group, paths)
    } else if !spec_glob_valid(tree) {
        Seq::empty()
    } else {
        let found = match graft {
            Some(g) => spec_matching_trees(g.trees@, tree, g.id, garden, group),
            None => Seq::empty(),
        } + spec_matching_trees(config.trees@, tree, config.id, garden, group);
        if found.len() == 0 {
            match spec_tree_from_path(config, tree, paths) {
                Some(c) => seq![c],
                None => Seq::empty(),
            }
        } else {
            found
        }
    }
}


/// Find the trees matching a pattern (see `spec_trees_from_pattern`).
pub fn trees_from_pattern(
    app_context: &ApplicationContext,
    config: &Configuration,
    graft_config: Option<&Configuration>,
    tree: &str,
    garden_name: &Option<String>,
    group: &Option<String>,
    paths: &CanonicalPaths,
) -> (r: Vec<TreeContext>)
    requires
        app_context.wf(),
        graft_ids_below(*config, app_context.configs().len()),
    ensures
        contexts_view(r@) == spec_trees_from_pattern(
            app_context.configs(),
            *config,
            opt_config(graft_config),
            tree@,
            opt_view(*garden_name),
            opt_view(*group),
            *paths,
        ),
    decreases tree@.len(),
{
    if syntax::is_graft(tree) {
        // First, try the current config.
        if let Ok((graft_id, remainder)) = config.get_graft_id(tree) {
            proof {
                lemma_graft_id_below(*config, app_context.configs().len(), tree@);
            }
            return trees_from_pattern(
                app_context,
                config,
                Some(app_context.get_config(graft_id)),
                remainder,
                garden_name,
                group,
                paths,
            );
        }
    }
    let mut result: Vec<TreeContext> = Vec::new();
    if !glob_pattern_is_valid(tree) {
        assert(contexts_view(result@) =~= Seq::<CtxView>::empty());
        return result;
    }
    if let Some(graft_cfg) = graft_config {
        push_matching_trees(&graft_cfg.trees, tree, graft_cfg.get_id(), garden_name, group, &mut result);
    }
    push_matching_trees(&config.trees, tree, config.get_id(), garden_name, group, &mut result);
    assert(contexts_view(result@) =~= (match opt_config(graft_config) {
        Some(g) => spec_matching_trees(g.trees@, tree@, g.id, opt_view(*garden_name), opt_view(*group)),
        None => Seq::empty(),
    }) + spec_matching_trees(config.trees@, tree@, config.id, opt_view(*garden_name), opt_view(*group)));
    // When nothing matched, look for the tree on disk.
    if result.len() == 0 {
        if let Some(ctx) = tree_from_path(config, tree, paths) {
            result.push(ctx);
            assert(contexts_view(result@) =~= seq![context_view(ctx)]);
        }
    }
    result
}

/// An optional configuration reference as an optional value.
pub open spec fn opt_config(c: Option<&Configuration>) -> Option<Configuration> {
    match c {
        Some(x) => Some(*x),
        None => None,
    }
}


/// The contexts of a group's members, in order, each resolved as a pattern.
pub open spec fn spec_trees_from_group(
    cfgs: Seq<Configuration>,
    config: Configuration,
    graft: Option<Configuration>,
    garden: Option<Seq<char>>,
    group_name: Seq<char>,
    members: Seq<Seq<char>>,
    paths: CanonicalPaths,
) -> Seq<CtxView>
    decreases members.len(),
{
    if members.len() == 0 {
        Seq::empty()
    } else {
        spec_trees_from_group(cfgs, config, graft, garden, group_name, members.drop_last(), paths)
            + spec_trees_from_pattern(cfgs, config, graft, members.last(), garden, Some(group_name), paths)
    }
}

/// Return the tree contexts for a group.
pub fn trees_from_group(
    app_context: &ApplicationContext,
    config: &Configuration,
    graft_config: Option<&Configuration>,
    garden: &Option<String>,
    group: &Group,
    paths: &CanonicalPaths,
) -> (r: Vec<TreeContext>)
    requires
        app_context.wf(),
        graft_ids_below(*config, app_context.configs().len()),
    ensures
        contexts_view(r@) == spec_trees_from_group(
            app_context.configs(),
            *config,
            opt_config(graft_config),
            opt_view(*garden),
            group.name@,
            group.members@,
            *paths,
        ),
{
    let mut result: Vec<TreeContext> = Vec::new();
    let group_name = Some(group.name.clone());
    let mut i: usize = 0;
    while i < group.members.len()
        invariant
            app_context.wf(),
            graft_ids_below(*config, app_context.configs().len()),
            i <= group.members@.len(),
            opt_view(group_name) == Some(group.name@),
            contexts_view(result@) == spec_trees_from_group(
                app_context.configs(),
                *config,
                opt_config(graft_config),
                opt_view(*garden),
                group.name@,
                group.members@.take(i as int),
                *paths,
            ),
        decreases group.members@.len() - i,
    {
        assert(group.members@.take(i + 1).drop_last() =~= group.members@.take(i as int));
        let mut found = trees_from_pattern(
            app_context,
            config,
            graft_config,
            group.members.get_index(i).as_str(),
            garden,
            &group_name,
            paths,
        );
        let ghost before = result@;
        let ghost more = found@;
        result.append(&mut found);
        assert(contexts_view(result@) =~= contexts_view(before) + contexts_view(more));
        i = i + 1;
    }
    assert(group.members@.take(group.members@.len() as int) =~= group.members@);
    result
}

/// The contexts of the groups whose names match `pattern`, in order.
pub open spec fn spec_groups_matching(
    cfgs: Seq<Configuration>,
    config: Configuration,
    graft: Option<Configuration>,
    garden: Option<Seq<char>>,
    pattern: Seq<char>,
    groups: Seq<(Seq<char>, Group)>,
    paths: CanonicalPaths,
) -> Seq<CtxView>
    decreases groups.len(),
{
    if groups.len() == 0 {
        Seq::empty()
    } else {
        let rest = spec_groups_matching(cfgs, config, graft, garden, pattern, groups.drop_last(), paths);
        if spec_glob_matches(pattern, groups.last().0) {
            rest + spec_trees_from_group(
                cfgs,
                config,
                graft,
                garden,
                groups.last().1.name@,
                groups.last().1.members@,
                paths,
            )
        } else {
            rest
        }
    }
}

/// Append the contexts of the groups whose names match `pattern`.
fn push_groups_matching(
    app_context: &ApplicationContext,
    config: &Configuration,
    graft_config: Option<&Configuration>,
    garden: &Option<String>,
    pattern: &str,
    groups: &OrderedMap<Group>,
    paths: &CanonicalPaths,
    result: &mut Vec<TreeContext>,
)
    requires
        app_context.wf(),
        graft_ids_below(*config, app_context.configs().len()),
    ensures
        contexts_view(final(result)@) == contexts_view(old(result)@) + spec_groups_matching(
            app_context.configs(),
            *config,
            opt_config(graft_config),
            opt_view(*garden),
            pattern@,
            groups@,
            *paths,
        ),
{
    let mut i: usize = 0;
    while i < groups.len()
        invariant
            app_context.wf(),
            graft_ids_below(*config, app_context.configs().len()),
            i <= groups@.len(),
            contexts_view(result@) == contexts_view(old(result)@) + spec_groups_matching(
                app_context.configs(),
                *config,
                opt_config(graft_config),
                opt_view(*garden),
                pattern@,
                groups@.take(i as int),
                *paths,
            ),
        decreases groups@.len() - i,
    {
        assert(groups@.take(i + 1).drop_last() =~= groups@.take(i as int));
        if glob_matches(pattern, groups.key_at(i).as_str()) {
            let mut found = trees_from_group(app_context, config, graft_config, garden, groups.value_at(i), paths);
            let ghost before = result@;
            let ghost more = found@;
            result.append(&mut found);
            assert(contexts_view(result@) =~= contexts_view(before) + contexts_view(more));
        }
        i = i + 1;
    }
    assert(groups@.take(groups@.len() as int) =~= groups@);
}

/// The contexts of a garden's group patterns over `groups`; invalid patterns match
/// nothing.
pub open spec fn spec_garden_groups(
    cfgs: Seq<Configuration>,
    config: Configuration,
    graft: Option<Configuration>,
    garden: Seq<char>,
    patterns: Seq<Seq<char>>,
    groups: Seq<(Seq<char>, Group)>,
    paths: CanonicalPaths,
) -> Seq<CtxView>
    decreases patterns.len(),
{
    if patterns.len() == 0 {
        Seq::empty()
    } else {
        let rest = spec_garden_groups(cfgs, config, graft, garden, patterns.drop_last(), groups, paths);
        if spec_glob_valid(patterns.last()) {
            rest + spec_groups_matching(cfgs, config, graft, Some(garden), patterns.last(), groups, paths)
        } else {
            rest
        }
    }
}

/// The contexts of a garden's tree patterns.
pub open spec fn spec_garden_tree_patterns(
    cfgs: Seq<Configuration>,
    config: Configuration,
    graft: Option<Configuration>,
    garden: Seq<char>,
    patterns: Seq<Seq<char>>,
    paths: CanonicalPaths,
) -> Seq<CtxView>
    decreases patterns.len(),
{
    if patterns.len() == 0 {
        Seq::empty()
    } else {
        spec_garden_tree_patterns(cfgs, config, graft, garden, patterns.drop_last(), paths)
            + spec_trees_from_pattern(cfgs, config, graft, patterns.last(), Some(garden), None, paths)
    }
}

/// The contexts of a garden: the trees of its matching groups (taken from the graft
/// configuration when there is one), then the trees of its tree patterns.
pub open spec fn spec_trees_from_garden(
    cfgs: Seq<Configuration>,
    config: Configuration,
    graft: Option<Configuration>,
    garden: Garden,
    paths: CanonicalPaths,
) -> Seq<CtxView> {
    let groups = match graft {
        Some(g) => g.groups@,
        None => config.groups@,
    };
    spec_garden_groups(cfgs, config, graft, garden.name@, garden.groups@, groups, paths)
        + spec_garden_tree_patterns(cfgs, config, graft, garden.name@, garden.trees@, paths)
}

/// Return the tree contexts for a garden.
pub fn trees_from_garden(
    app_context: &ApplicationContext,
    config: &Configuration,
    graft_config: Option<&Configuration>,
    garden: &Garden,
    paths: &CanonicalPaths,
) -> (r: Vec<TreeContext>)
    requires
        app_context.wf(),
        graft_ids_below(*config, app_context.configs().len()),
    ensures
        contexts_view(r@) == spec_trees_from_garden(
            app_context.configs(),
            *config,
            opt_config(graft_config),
            *garden,
            *paths,
        ),
{
    let mut result: Vec<TreeContext> = Vec::new();
    let garden_name = Some(garden.name.clone());
    let config_groups = match graft_config {
        Some(graft_cfg) => &graft_cfg.groups,
        None => &config.groups,
    };
    // The garden's groups.
    let mut i: usize = 0;
    while i < garden.groups.len()
        invariant
            app_context.wf(),
            graft_ids_below(*config, app_context.configs().len()),
            i <= garden.groups@.len(),
            opt_view(garden_name) == Some(garden.name@),
            config_groups@ == (match opt_config(graft_config) {
                Some(g) => g.groups@,
                None => config.groups@,
            }),
            contexts_view(result@) == spec_garden_groups(
                app_context.configs(),
                *config,
                opt_config(graft_config),
                garden.name@,
                garden.groups@.take(i as int),
                config_groups@,
                *paths,
            ),
        decreases garden.groups@.len() - i,
    {
        assert(garden.groups@.take(i + 1).drop_last() =~= garden.groups@.take(i as int));
        let group = garden.groups.get_index(i);
        if glob_pattern_is_valid(group.as_str()) {
            push_groups_matching(
                app_context,
                config,
                graft_config,
                &garden_name,
                group.as_str(),
                config_groups,
                paths,
                &mut result,
            );
        }
        i = i + 1;
    }
    assert(garden.groups@.take(garden.groups@.len() as int) =~= garden.groups@);
    let ghost groups_part = contexts_view(result@);
    // The garden's trees.
    let mut j: usize = 0;
    while j < garden.trees.len()
        invariant
            app_context.wf(),
            graft_ids_below(*config, app_context.configs().len()),
            j <= garden.trees@.len(),
            opt_view(garden_name) == Some(garden.name@),
            contexts_view(result@) == groups_part + spec_garden_tree_patterns(
                app_context.configs(),
                *config,
                opt_config(graft_config),
                garden.name@,
                garden.trees@.take(j as int),
                *paths,
            ),
        decreases garden.trees@.len() - j,
    {
        assert(garden.trees@.take(j + 1).drop_last() =~= garden.trees@.take(j as int));
        let mut found = trees_from_pattern(
            app_context,
            config,
            graft_config,
            garden.trees.get_index(j).as_str(),
            &garden_name,
            &None,
            paths,
        );
        let ghost before = result@;
        let ghost more = found@;
        result.append(&mut found);
        assert(contexts_view(result@) =~= contexts_view(before) + contexts_view(more));
        j = j + 1;
    }
    assert(garden.trees@.take(garden.trees@.len() as int) =~= garden.trees@);
    result
}


/// Some entry's name matches `pattern`.
pub open spec fn any_name_matches<V>(entries: Seq<(Seq<char>, V)>, pattern: Seq<char>) -> bool {
    exists|i: int| 0 <= i < entries.len() && spec_glob_matches(pattern, #[trigger] entries[i].0)
}

/// The contexts of the gardens whose names match `pattern`, in order.
pub open spec fn spec_gardens_matching(
    cfgs: Seq<Configuration>,
    config: Configuration,
    graft: Option<Configuration>,
    pattern: Seq<char>,
    gardens: Seq<(Seq<char>, Garden)>,
    paths: CanonicalPaths,
) -> Seq<CtxView>
    decreases gardens.len(),
{
    if gardens.len() == 0 {
        Seq::empty()
    } else {
        let rest = spec_gardens_matching(cfgs, config, graft, pattern, gardens.drop_last(), paths);
        if spec_glob_matches(pattern, gardens.last().0) {
            rest + spec_trees_from_garden(cfgs, config, graft, gardens.last().1, paths)
        } else {
            rest
        }
    }
}

/// The contexts of every garden matching `pattern`: the graft configuration's
/// gardens when any of them matches, else the gardens of `config`.
pub open spec fn spec_garden_trees(
    cfgs: Seq<Configuration>,
    config: Configuration,
    graft: Option<Configuration>,
    pattern: Seq<char>,
    paths: CanonicalPaths,
) -> Seq<CtxView> {
    if graft is Some && any_name_matches(graft->0.gardens@, pattern) {
        spec_gardens_matching(cfgs, config, graft, pattern, graft->0.gardens@, paths)
    } else {
        spec_gardens_matching(cfgs, config, graft, pattern, config.gardens@, paths)
    }
}

/// Append the contexts of the gardens whose names match `pattern`; returns whether
/// any garden matched.
fn push_gardens_matching(
    app_context: &ApplicationContext,
    config: &Configuration,
    graft_config: Option<&Configuration>,
    pattern: &str,
    gardens: &OrderedMap<Garden>,
    paths: &CanonicalPaths,
    result: &mut Vec<TreeContext>,
) -> (found: bool)
    requires
        app_context.wf(),
        graft_ids_below(*config, app_context.configs().len()),
    ensures
        found == any_name_matches(gardens@, pattern@),
        contexts_view(final(result)@) == contexts_view(old(result)@) + spec_gardens_matching(
            app_context.configs(),
            *config,
            opt_config(graft_config),
            pattern@,
            gardens@,
            *paths,
        ),
{
    let mut found = false;
    let mut i: usize = 0;
    while i < gardens.len()
        invariant
            app_context.wf(),
            graft_ids_below(*config, app_context.configs().len()),
            i <= gardens@.len(),
            found == any_name_matches(gardens@.take(i as int), pattern@),
            contexts_view(result@) == contexts_view(old(result)@) + spec_gardens_matching(
                app_context.configs(),
                *config,
                opt_config(graft_config),
                pattern@,
                gardens@.take(i as int),
                *paths,
            ),
        decreases gardens@.len() - i,
    {
        assert(gardens@.take(i + 1).drop_last() =~= gardens@.take(i as int));
        assert(gardens@.take(i + 1)[i as int] == gardens@[i as int]);
        if glob_matches(pattern, gardens.key_at(i).as_str()) {
            let mut more = trees_from_garden(app_context, config, graft_config, gardens.value_at(i), paths);
            let ghost before = result@;
            let ghost more_v = more@;
            result.append(&mut more);
            assert(contexts_view(result@) =~= contexts_view(before) + contexts_view(more_v));
            found = true;
        }
        assert(found == any_name_matches(gardens@.take(i + 1), pattern@)) by {
            if any_name_matches(gardens@.take(i + 1), pattern@) && !spec_glob_matches(pattern@, gardens@[i as int].0) {
                let k = choose|k: int|
                    0 <= k < gardens@.take(i + 1).len() && spec_glob_matches(
                        pattern@,
                        #[trigger] gardens@.take(i + 1)[k].0,
                    );
                assert(gardens@.take(i as int)[k] == gardens@.take(i + 1)[k]);
            }
            if any_name_matches(gardens@.take(i as int), pattern@) {
                let k = choose|k: int|
                    0 <= k < gardens@.take(i as int).len() && spec_glob_matches(
                        pattern@,
                        #[trigger] gardens@.take(i as int)[k].0,
                    );
                assert(gardens@.take(i as int)[k] == gardens@.take(i + 1)[k]);
            }
        }
        i = i + 1;
    }
    assert(gardens@.take(gardens@.len() as int) =~= gardens@);
    found
}

/// Return tree contexts for every garden matching `pattern` (see `spec_garden_trees`).
pub fn garden_trees(
    app_context: &ApplicationContext,
    config: &Configuration,
    graft_config: Option<&Configuration>,
    pattern: &str,
    paths: &CanonicalPaths,
) -> (r: Vec<TreeContext>)
    requires
        app_context.wf(),
        graft_ids_below(*config, app_context.configs().len()),
    ensures
        contexts_view(r@) == spec_garden_trees(
            app_context.configs(),
            *config,
            opt_config(graft_config),
            pattern@,
            *paths,
        ),
{
    let mut result: Vec<TreeContext> = Vec::new();
    let mut garden_found = false;
    if let Some(graft_cfg) = graft_config {
        garden_found = push_gardens_matching(
            app_context,
            config,
            graft_config,
            pattern,
            &graft_cfg.gardens,
            paths,
            &mut result,
        );
    }
    if !garden_found {
        let mut more: Vec<TreeContext> = Vec::new();
        push_gardens_matching(app_context, config, graft_config, pattern, &config.gardens, paths, &mut more);
        assert(contexts_view(Seq::<TreeContext>::empty()) =~= Seq::<CtxView>::empty());
        return more;
    }
    assert(contexts_view(Seq::<TreeContext>::empty()) =~= Seq::<CtxView>::empty());
    assert(contexts_view(result@) =~= Seq::<CtxView>::empty() + spec_gardens_matching(
        app_context.configs(),
        *config,
        opt_config(graft_config),
        pattern@,
        graft_config->0.gardens@,
        *paths,
    ));
    result
}


/// The contexts that a tree query resolves to. Gardens come first, then groups
/// (those of the graft configuration when any of them matches), then trees (a
/// "graft::query" resolves in the graft), and last the tree found on disk at the
/// query's path; the first kind that yields contexts ends the search, except that
/// groups found in the graft configuration are kept together with its trees.
pub open spec fn spec_resolve_trees(
    cfgs: Seq<Configuration>,
    config: Configuration,
    graft: Option<Configuration>,
    query: Seq<char>,
    paths: CanonicalPaths,
) -> Seq<CtxView>
    decreases query.len(),
{
    let pattern = syntax::spec_trim(query);
    let is_garden = syntax::spec_is_garden(query);
    let is_group = !is_garden && syntax::spec_is_group(query);
    let is_tree = !is_garden && !is_group && syntax::spec_is_tree(query);
    let is_default = !is_garden && !is_group && !is_tree;
    let gardens = if is_garden || is_default {
        spec_garden_trees(cfgs, config, graft, pattern, paths)
    } else {
        Seq::empty()
    };
    if gardens.len() > 0 {
        gardens
    } else {
        let graft_groups = graft is Some && any_name_matches(graft->0.groups@, pattern);
        let groups = if is_group || is_default {
            if graft_groups {
                spec_groups_matching(cfgs, config, graft, None, pattern, graft->0.groups@, paths)
            } else {
                spec_groups_matching(cfgs, config, graft, None, pattern, config.groups@, paths)
            }
        } else {
            Seq::empty()
        };
        if (is_group || is_default) && !graft_groups && groups.len() > 0 {
            groups
        } else {
            let with_trees = if is_tree || is_default {
                groups + if syntax::spec_is_graft(query) {
                    match spec_graft_id(&config, query) {
                        Some((id, rest)) => {
                            proof {
                                crate::model::lemma_graft_rest_shorter(config, query);
                            }
                            spec_resolve_trees(cfgs, config, Some(cfgs[id as int]), rest, paths)
                        },
                        None => Seq::empty(),
                    }
                } else {
                    match graft {
                        Some(g) => spec_matching_trees(g.trees@, pattern, spec_graft_config_id(g), None, None),
                        None => spec_matching_trees(
                            config.trees@,
                            pattern,
                            spec_graft_config_id(config),
                            None,
                            None,
                        ),
                    }
                }
            } else {
                groups
            };
            if (is_tree || is_default) && with_trees.len() > 0 {
                with_trees
            } else if is_default {
                match spec_tree_from_path(config, query, paths) {
                    Some(c) => with_trees.push(c),
                    None => with_trees,
                }
            } else {
                with_trees
            }
        }
    }
}

/// Append the contexts of the groups of `groups` whose names match `pattern`;
/// returns whether any group matched.
fn push_groups_found(
    app_context: &ApplicationContext,
    config: &Configuration,
    graft_config: Option<&Configuration>,
    pattern: &str,
    groups: &OrderedMap<Group>,
    paths: &CanonicalPaths,
    result: &mut Vec<TreeContext>,
) -> (found: bool)
    requires
        app_context.wf(),
        graft_ids_below(*config, app_context.configs().len()),
    ensures
        found == any_name_matches(groups@, pattern@),
        contexts_view(final(result)@) == contexts_view(old(result)@) + spec_groups_matching(
            app_context.configs(),
            *config,
            opt_config(graft_config),
            None,
            pattern@,
            groups@,
            *paths,
        ),
{
    push_groups_matching(app_context, config, graft_config, &None, pattern, groups, paths, result);
    let mut i: usize = 0;
    while i < groups.len()
        invariant
            i <= groups@.len(),
            contexts_view(result@) == contexts_view(old(result)@) + spec_groups_matching(
                app_context.configs(),
                *config,
                opt_config(graft_config),
                None,
                pattern@,
                groups@,
                *paths,
            ),
            forall|j: int| 0 <= j < i ==> !spec_glob_matches(pattern@, #[trigger] groups@[j].0),
        decreases groups@.len() - i,
    {
        if glob_matches(pattern, groups.key_at(i).as_str()) {
            return true;
        }
        i = i + 1;
    }
    false
}

/// Resolve a tree query into tree contexts (see `spec_resolve_trees`).
pub fn resolve_trees(
    app_context: &ApplicationContext,
    config: &Configuration,
    graft_config: Option<&Configuration>,
    query: &str,
    paths: &CanonicalPaths,
) -> (r: Vec<TreeContext>)
    requires
        app_context.wf(),
        graft_ids_below(*config, app_context.configs().len()),
    ensures
        contexts_view(r@) == spec_resolve_trees(
            app_context.configs(),
            *config,
            opt_config(graft_config),
            query@,
            *paths,
        ),
    decreases query@.len(),
{
    let mut result: Vec<TreeContext> = Vec::new();
    let tree_query = TreeQuery::new(query);
    let pattern = tree_query.pattern.as_str();
    if tree_query.include_gardens {
        result = garden_trees(app_context, config, graft_config, pattern, paths);
        if result.len() > 0 {
            return result;
        }
    }
    assert(contexts_view(result@) =~= Seq::<CtxView>::empty());
    let mut group_found = false;
    if tree_query.include_groups {
        if let Some(graft_cfg) = graft_config {
            group_found = push_groups_found(
                app_context,
                config,
                graft_config,
                pattern,
                &graft_cfg.groups,
                paths,
                &mut result,
            );
        }
        if !group_found {
            let mut groups: Vec<TreeContext> = Vec::new();
            push_groups_matching(app_context, config, graft_config, &None, pattern, &config.groups, paths, &mut groups);
            assert(contexts_view(groups@) =~= spec_groups_matching(
                app_context.configs(),
                *config,
                opt_config(graft_config),
                None,
                pattern@,
                config.groups@,
                *paths,
            ));
            if groups.len() > 0 {
                return groups;
            }
            result = groups;
        }
    }
    assert(contexts_view(result@) =~= (if tree_query.include_groups {
        if opt_config(graft_config) is Some && any_name_matches(graft_config->0.groups@, pattern@) {
            spec_groups_matching(app_context.configs(), *config, opt_config(graft_config), None, pattern@, graft_config->0.groups@, *paths)
        } else {
            spec_groups_matching(app_context.configs(), *config, opt_config(graft_config), None, pattern@, config.groups@, *paths)
        }
    } else {
        Seq::<CtxView>::empty()
    }));
    // Search for matching trees.
    if tree_query.include_trees {
        let ghost before = result@;
        if syntax::is_graft(query) {
            match config.get_graft_id(query) {
                Ok((graft_id, remainder)) => {
                    proof {
                        lemma_graft_id_below(*config, app_context.configs().len(), query@);
                    }
                    let mut found = resolve_trees(
                        app_context,
                        config,
                        Some(app_context.get_config(graft_id)),
                        remainder,
                        paths,
                    );
                    let ghost more = found@;
                    result.append(&mut found);
                    assert(contexts_view(result@) =~= contexts_view(before) + contexts_view(more));
                },
                Err(_) => {
                    assert(contexts_view(result@) =~= contexts_view(before) + Seq::<CtxView>::empty());
                },
            }
        } else if let Some(graft_cfg) = graft_config {
            let mut found = trees(graft_cfg, pattern);
            let ghost more = found@;
            result.append(&mut found);
            assert(contexts_view(result@) =~= contexts_view(before) + contexts_view(more));
        } else {
            let mut found = trees(config, pattern);
            let ghost more = found@;
            result.append(&mut found);
            assert(contexts_view(result@) =~= contexts_view(before) + contexts_view(more));
        }
        if result.len() > 0 {
            return result;
        }
    }
    // Lowest precedence: the tree found on disk at the query's path.
    if tree_query.is_default {
        if let Some(ctx) = tree_from_path(config, tree_query.query.as_str(), paths) {
            let ghost before = result@;
            result.push(ctx);
            assert(contexts_view(result@) =~= contexts_view(before).push(context_view(ctx)));
        }
    }
    result
}

/// Resolve a tree query and keep the contexts whose tree names match `pattern`.
pub open spec fn spec_filter_contexts(v: Seq<CtxView>, pattern: Seq<char>) -> Seq<CtxView>
    decreases v.len(),
{
    if v.len() == 0 {
        v
    } else {
        let rest = spec_filter_contexts(v.drop_last(), pattern);
        if spec_glob_matches(pattern, v.last().0) {
            rest.push(v.last())
        } else {
            rest
        }
    }
}

/// Resolve a tree query into contexts filtered by a tree name glob pattern.
pub fn resolve_and_filter_trees(
    app_context: &ApplicationContext,
    config: &Configuration,
    query: &str,
    pattern: &str,
    paths: &CanonicalPaths,
) -> (r: Vec<TreeContext>)
    requires
        app_context.wf(),
        graft_ids_below(*config, app_context.configs().len()),
    ensures
        contexts_view(r@) == spec_filter_contexts(
            spec_resolve_trees(app_context.configs(), *config, None, query@, *paths),
            pattern@,
        ),
{
    let contexts = resolve_trees(app_context, config, None, query, paths);
    let mut result: Vec<TreeContext> = Vec::new();
    let mut i: usize = 0;
    while i < contexts.len()
        invariant
            i <= contexts@.len(),
            contexts_view(result@) == spec_filter_contexts(contexts_view(contexts@.take(i as int)), pattern@),
        decreases contexts@.len() - i,
    {
        let ghost before = result@;
        assert(contexts_view(contexts@.take(i + 1)) =~= contexts_view(contexts@.take(i as int)).push(
            context_view(contexts@[i as int]),
        ));
        assert(contexts_view(contexts@.take(i + 1)).drop_last() =~= contexts_view(contexts@.take(i as int)));
        if glob_matches(pattern, contexts[i].tree.as_str()) {
            result.push(contexts[i].clone());
            assert(contexts_view(result@) =~= contexts_view(before).push(context_view(contexts@[i as int])));
        }
        i = i + 1;
    }
    assert(contexts@.take(contexts@.len() as int) =~= contexts@);
    result
}


/// `r` is the outcome of looking up tree `tree` (optionally within garden `garden`)
/// in `config`: a tree that is not found is `TreeNotFound`; a context found in a
/// grafted configuration records that configuration; with a garden, an invalid
/// garden pattern is `GardenPatternError`, a garden without trees is
/// `GardenNotFound` and a tree outside the garden is `InvalidGardenArgument`.
pub open spec fn tree_context_result(
    r: Result<TreeContext, GardenError>,
    cfgs: Seq<Configuration>,
    root: ConfigId,
    config: Configuration,
    tree: Seq<char>,
    garden: Option<Seq<char>>,
    paths: CanonicalPaths,
) -> bool {
    match spec_tree_from_name(config, tree, None, None, paths) {
        None => r matches Err(GardenError::TreeNotFound { tree: t }) && t@ == tree,
        Some(c0) => {
            let id = if config.parent_id is Some {
                config.id
            } else {
                c0.1
            };
            match garden {
                None => r matches Ok(ctx) && context_view(ctx) == (c0.0, id, c0.2, c0.3),
                Some(g) => if !spec_glob_valid(g) {
                    r matches Err(GardenError::GardenPatternError { garden: e }) && e@ == g
                } else {
                    let cs = spec_garden_trees(cfgs, cfgs[root as int], Some(config), g, paths);
                    if cs.len() == 0 {
                        r matches Err(GardenError::GardenNotFound { garden: e }) && e@ == g
                    } else if exists|i: int| 0 <= i < cs.len() && (#[trigger] cs[i]).0 == c0.0 {
                        r matches Ok(ctx) && context_view(ctx) == (c0.0, id, Some(g), c0.3)
                    } else {
                        r matches Err(GardenError::InvalidGardenArgument { tree: t, garden: e }) && t@
                            == tree && e@ == g
                    }
                },
            }
        },
    }
}

/// Return the context of a tree, optionally checked against a garden.
pub fn tree_context(
    app_context: &ApplicationContext,
    config: &Configuration,
    tree: &str,
    garden: Option<&str>,
    paths: &CanonicalPaths,
) -> (r: Result<TreeContext, GardenError>)
    requires
        app_context.wf(),
    ensures
        tree_context_result(
            r,
            app_context.configs(),
            app_context.root_of(),
            *config,
            tree@,
            match garden {
                Some(g) => Some(g@),
                None => None,
            },
            *paths,
        ),
{
    let mut ctx = match tree_from_name(config, tree, &None, &None, paths) {
        Some(ctx) => ctx,
        None => {
            return Err(GardenError::TreeNotFound { tree: owned(tree) });
        },
    };
    // A tree of a grafted configuration records the graft's config id.
    if config.parent_id.is_some() {
        ctx.config = config.get_id();
    }
    if let Some(garden_name) = garden {
        if !glob_pattern_is_valid(garden_name) {
            return Err(GardenError::GardenPatternError { garden: owned(garden_name) });
        }
        let root = app_context.get_root_config();
        proof {
            assert(graft_ids_below(app_context.configs()[app_context.root_of() as int], app_context.configs().len()));
        }
        let contexts = garden_trees(app_context, root, Some(config), garden_name, paths);
        if contexts.len() == 0 {
            return Err(GardenError::GardenNotFound { garden: owned(garden_name) });
        }
        ctx.garden = Some(owned(garden_name));
        let mut found = false;
        let mut i: usize = 0;
        while i < contexts.len() && !found
            invariant
                i <= contexts@.len(),
                found ==> exists|j: int| 0 <= j < contexts@.len() && (#[trigger] contexts_view(contexts@)[j]).0 == ctx.tree@,
                !found ==> forall|j: int| 0 <= j < i ==> (#[trigger] contexts_view(contexts@)[j]).0 != ctx.tree@,
            decreases contexts@.len() - i,
        {
            if str_eq(contexts[i].tree.as_str(), ctx.tree.as_str()) {
                assert(contexts_view(contexts@)[i as int].0 == ctx.tree@);
                found = true;
            }
            i = i + 1;
        }
        if !found {
            return Err(GardenError::InvalidGardenArgument { tree: owned(tree), garden: owned(garden_name) });
        }
    }
    Ok(ctx)
}

/// The configuration and tree name that a tree expression refers to after
/// following its "graft::" prefixes, or the name of a graft that is not attached.
pub open spec fn spec_find_tree_target(cfgs: Seq<Configuration>, id: ConfigId, tree: Seq<char>) -> Result<
    (ConfigId, Seq<char>),
    Seq<char>,
>
    decreases tree.len(),
{
    let config = cfgs[id as int];
    match syntax::spec_graft_basename(tree) {
        Some(graft_name) => if syntax::spec_is_graft(tree) && entry_get(
            config.grafts@,
            syntax::spec_trim(graft_name),
        ) is Some {
            let graft = entry_get(config.grafts@, syntax::spec_trim(graft_name))->0;
            match graft.id {
                None => Err(graft_name),
                Some(graft_id) => match syntax::spec_trim_graft(tree) {
                    Some(next) => {
                        proof {
                            lemma_trim_graft_shorter(tree);
                        }
                        spec_find_tree_target(cfgs, graft_id, next)
                    },
                    None => Ok((id, tree)),
                },
            }
        } else {
            Ok((id, tree))
        },
        None => Ok((id, tree)),
    }
}

/// Trimming a graft prefix shortens the expression.
pub proof fn lemma_trim_graft_shorter(tree: Seq<char>)
    ensures
        syntax::spec_trim_graft(tree) matches Some(next) ==> next.len() < tree.len(),
{
    let (ok, before, after) = syntax::spec_split_string(tree, syntax::graft_separator());
    if ok {
        syntax::lemma_split_after_shorter(tree, syntax::graft_separator());
    }
}


/// What finding tree expression `tree` from configuration `id` gives: the tree
/// context of the configuration and name that the expression leads to, or a
/// configuration error for a graft that is not attached.
pub open spec fn find_tree_result(
    r: Result<TreeContext, GardenError>,
    cfgs: Seq<Configuration>,
    root: ConfigId,
    id: ConfigId,
    tree: Seq<char>,
    garden: Option<Seq<char>>,
    paths: CanonicalPaths,
) -> bool {
    match spec_find_tree_target(cfgs, id, tree) {
        Ok((cid, name)) => tree_context_result(r, cfgs, root, cfgs[cid as int], name, garden, paths),
        Err(_) => r matches Err(GardenError::ConfigurationError(_)),
    }
}

/// Find a tree by an expression that may name it through grafts ("graft::tree"),
/// starting from the configuration `id`, and return its context.
pub fn find_tree(
    app_context: &ApplicationContext,
    id: ConfigId,
    tree: &str,
    garden: Option<&str>,
    paths: &CanonicalPaths,
) -> (r: Result<TreeContext, GardenError>)
    requires
        app_context.wf(),
        id < app_context.configs().len(),
    ensures
        find_tree_result(
            r,
            app_context.configs(),
            app_context.root_of(),
            id,
            tree@,
            match garden {
                Some(g) => Some(g@),
                None => None,
            },
            *paths,
        ),
    decreases tree@.len(),
{
    let config = app_context.get_config(id);
    if let Some(graft_name) = syntax::graft_basename(tree) {
        if syntax::is_graft(tree) && config.contains_graft(graft_name.as_str()) {
            let graft = match config.get_graft(graft_name.as_str()) {
                Ok(g) => g,
                Err(e) => {
                    proof {
                        crate::collections::lemma_entry_index(config.grafts@, syntax::spec_trim(graft_name@));
                    }
                    return Err(e);
                },
            };
            let graft_id = match graft.get_id() {
                Some(graft_id) => graft_id,
                None => {
                    return Err(GardenError::ConfigurationError(crate::text::concat("invalid graft: ", graft_name.as_str())));
                },
            };
            if let Some(next_graft) = syntax::trim_graft(tree) {
                proof {
                    lemma_trim_graft_shorter(tree@);
                    crate::collections::lemma_entry_index(config.grafts@, syntax::spec_trim(graft_name@));
                    assert(graft_ids_below(app_context.configs()[id as int], app_context.configs().len()));
                }
                return find_tree(app_context, graft_id, next_graft.as_str(), garden, paths);
            }
        }
    }
    tree_context(app_context, config, tree, garden, paths)
}


/// The path of a context's tree, or of its parent worktree's tree when it is a
/// worktree (`worktree` is its evaluated worktree expression): the tree is found in
/// the context's configuration, else in the root configuration; a tree without an
/// evaluated path gives its name, and a missing tree the empty string.
pub open spec fn spec_shared_worktree_path(
    cfgs: Seq<Configuration>,
    root: ConfigId,
    config: Configuration,
    c: CtxView,
    worktree: Seq<char>,
    paths: CanonicalPaths,
) -> Seq<char> {
    let cfg = match c.1 {
        Some(id) => cfgs[id as int],
        None => config,
    };
    let tree = match entry_get(cfg.trees@, c.0) {
        Some(t) => Some(t),
        None => entry_get(cfgs[root as int].trees@, c.0),
    };
    match tree {
        None => Seq::empty(),
        Some(t) => {
            let parent_path = if t.is_worktree {
                match spec_tree_from_name(cfg, worktree, c.2, c.3, paths) {
                    Some(p) => match entry_get(cfg.trees@, p.0) {
                        Some(pt) => pt.path_of().value_of(),
                        None => None,
                    },
                    None => None,
                }
            } else {
                None
            };
            match parent_path {
                Some(p) => p,
                None => match t.path_of().value_of() {
                    Some(p) => p,
                    None => t.name_of(),
                },
            }
        },
    }
}

/// Return a path that is either the tree's path or the tree's shared worktree path
/// (see `spec_shared_worktree_path`).
pub fn shared_worktree_path(
    app_context: &ApplicationContext,
    config: &Configuration,
    ctx: &TreeContext,
    worktree: &str,
    paths: &CanonicalPaths,
) -> (r: String)
    requires
        app_context.wf(),
        ctx.config matches Some(id) ==> id < app_context.configs().len(),
    ensures
        r@ == spec_shared_worktree_path(
            app_context.configs(),
            app_context.root_of(),
            *config,
            context_view(*ctx),
            worktree@,
            *paths,
        ),
{
    let cfg = match ctx.config {
        Some(config_id) => app_context.get_config(config_id),
        None => config,
    };
    let tree = match cfg.trees.get(ctx.tree.as_str()) {
        Some(tree) => tree,
        None => match app_context.get_root_config().trees.get(ctx.tree.as_str()) {
            Some(tree) => tree,
            None => return String::new(),
        },
    };
    if tree.is_worktree {
        if let Some(parent_ctx) = tree_from_name(cfg, worktree, &ctx.garden, &ctx.group, paths) {
            if let Some(parent) = cfg.trees.get(parent_ctx.tree.as_str()) {
                if let Some(path) = parent.path.get_value() {
                    return path.clone();
                }
            }
        }
    }
    if let Some(path) = tree.path.get_value() {
        return path.clone();
    }
    tree.name.clone()
}


/// A path made absolute: its canonical form when known, else the path itself.
pub fn abspath(paths: &CanonicalPaths, p: &str) -> (r: String)
    ensures
        r@ == (match canon_of(*paths, p@) {
            Some(c) => c,
            None => p@,
        }),
{
    match paths.paths.get(p) {
        Some(c) => c.clone(),
        None => owned(p),
    }
}

/// Return the name of an existing tree at `path` (made absolute first).
pub fn tree_name_from_path(config: &Configuration, path: &str, paths: &CanonicalPaths) -> (r: Option<String>)
    ensures
        ({
            let abs = match canon_of(*paths, path@) {
                Some(c) => c,
                None => path@,
            };
            &&& r matches Some(n) ==> first_tree_at(config.trees@, abs, *paths) matches Some(i) && n@
                == config.trees@[i].1.name_of()
            &&& r is None ==> first_tree_at(config.trees@, abs, *paths) is None
        }),
{
    let abs = abspath(paths, path);
    tree_name_from_abspath(config, abs.as_str(), paths)
}


/// A tree name without a graft separator names a tree of the configuration itself.
pub proof fn law_plain_tree_name_stays(cfgs: Seq<Configuration>, id: ConfigId, tree: Seq<char>)
    requires
        !syntax::spec_split_string(tree, syntax::graft_separator()).0,
    ensures
        spec_find_tree_target(cfgs, id, tree) == Ok::<(ConfigId, Seq<char>), Seq<char>>((id, tree)),
{
}

/// Index of the first context for tree `name`.
pub open spec fn first_context_of(ctxs: Seq<CtxView>, name: Seq<char>) -> Option<int>
    decreases ctxs.len(),
{
    if ctxs.len() == 0 {
        None
    } else {
        match first_context_of(ctxs.drop_last(), name) {
            Some(i) => Some(i),
            None => if ctxs.last().0 == name {
                Some(ctxs.len() - 1)
            } else {
                None
            },
        }
    }
}

/// What "garden shell" opens: a tree context of the query, or why there is none.
pub enum ShellTarget {
    Context(TreeContext),
    /// The query finds no trees.
    NoTrees,
    /// The tree to open is not a tree of the configuration.
    UnknownTree,
    /// The tree to open is not among the trees of the query.
    NotInQuery,
}

/// The context that "garden shell" opens, over plain values: the context of the tree
/// given with the query (found by `spec_tree_from_name`) among the query's contexts;
/// without one, the context of a tree named like the query, else the first.
pub open spec fn spec_shell_context(
    config: Configuration,
    ctxs: Seq<CtxView>,
    query: Seq<char>,
    tree: Option<Seq<char>>,
    paths: CanonicalPaths,
) -> Option<Result<CtxView, bool>> {
    if ctxs.len() == 0 {
        None
    } else {
        match tree {
            Some(t) => match spec_tree_from_name(config, t, None, None, paths) {
                Some(found) => match first_context_of(ctxs, found.0) {
                    Some(i) => Some(Ok(ctxs[i])),
                    None => Some(Err(false)),
                },
                None => Some(Err(true)),
            },
            None => match first_context_of(ctxs, query) {
                Some(i) => Some(Ok(ctxs[i])),
                None => Some(Ok(ctxs[0])),
            },
        }
    }
}

/// Position of the first context for tree `name`.
fn find_context(contexts: &Vec<TreeContext>, name: &str) -> (r: Option<usize>)
    ensures
        r matches Some(i) ==> i < contexts@.len() && first_context_of(contexts_view(contexts@), name@) == Some(
            i as int,
        ),
        r is None ==> first_context_of(contexts_view(contexts@), name@) is None,
{
    let ghost cv = contexts_view(contexts@);
    let mut i: usize = 0;
    while i < contexts.len()
        invariant
            i <= contexts@.len(),
            cv == contexts_view(contexts@),
            first_context_of(cv.take(i as int), name@) is None,
        decreases contexts@.len() - i,
    {
        assert(cv.take(i + 1).drop_last() =~= cv.take(i as int));
        if str_eq(contexts[i].tree.as_str(), name) {
            proof {
                lemma_first_context_prefix(cv, name@, i as int);
            }
            return Some(i);
        }
        i = i + 1;
    }
    assert(cv.take(contexts@.len() as int) =~= cv);
    None
}

/// A match at `i`, with none before it, is the first match.
proof fn lemma_first_context_prefix(cv: Seq<CtxView>, name: Seq<char>, i: int)
    requires
        0 <= i < cv.len(),
        first_context_of(cv.take(i), name) is None,
        cv[i].0 == name,
    ensures
        first_context_of(cv, name) == Some(i),
    decreases cv.len(),
{
    if i < cv.len() - 1 {
        assert(cv.drop_last().take(i) =~= cv.take(i));
        lemma_first_context_prefix(cv.drop_last(), name, i);
    } else {
        assert(cv.drop_last() =~= cv.take(i));
    }
}

/// Choose the tree context that "garden shell" opens (see `spec_shell_context`).
pub fn shell_context(
    config: &Configuration,
    contexts: &Vec<TreeContext>,
    query: &str,
    tree: &Option<String>,
    paths: &CanonicalPaths,
) -> (r: ShellTarget)
    ensures
        match spec_shell_context(*config, contexts_view(contexts@), query@, opt_view(*tree), *paths) {
            None => r is NoTrees,
            Some(Ok(c)) => r matches ShellTarget::Context(rc) && context_view(rc) == c,
            Some(Err(unknown)) => if unknown {
                r is UnknownTree
            } else {
                r is NotInQuery
            },
        },
{
    if contexts.len() == 0 {
        return ShellTarget::NoTrees;
    }
    match tree {
        Some(t) => {
            let no_garden: Option<String> = None;
            let no_group: Option<String> = None;
            match tree_from_name(config, t.as_str(), &no_garden, &no_group, paths) {
                Some(found) => match find_context(contexts, found.tree.as_str()) {
                    Some(i) => {
                        assert(contexts_view(contexts@)[i as int] == context_view(contexts@[i as int]));
                        ShellTarget::Context(contexts[i].clone())
                    },
                    None => ShellTarget::NotInQuery,
                },
                None => ShellTarget::UnknownTree,
            }
        },
        None => match find_context(contexts, query) {
            Some(i) => {
                assert(contexts_view(contexts@)[i as int] == context_view(contexts@[i as int]));
                ShellTarget::Context(contexts[i].clone())
            },
            None => {
                assert(contexts_view(contexts@)[0] == context_view(contexts@[0]));
                ShellTarget::Context(contexts[0].clone())
            },
        },
    }
}

/// Finding a tree through a graft: "graft::rest", where configuration `id` has an
/// attached graft of that name, gives what finding "rest" in the graft's
/// configuration gives; a graft without a configuration is a configuration error.
pub proof fn law_find_tree_through_graft(
    r: Result<TreeContext, GardenError>,
    cfgs: Seq<Configuration>,
    root: ConfigId,
    id: ConfigId,
    tree: Seq<char>,
    graft_name: Seq<char>,
    rest: Seq<char>,
    garden: Option<Seq<char>>,
    paths: CanonicalPaths,
)
    requires
        syntax::spec_graft_basename(tree) == Some(graft_name),
        syntax::spec_is_graft(tree),
        syntax::spec_trim_graft(tree) == Some(rest),
        entry_get(cfgs[id as int].grafts@, syntax::spec_trim(graft_name)) is Some,
    ensures
        match entry_get(cfgs[id as int].grafts@, syntax::spec_trim(graft_name))->0.id {
            Some(graft_id) => find_tree_result(r, cfgs, root, id, tree, garden, paths)
                == find_tree_result(r, cfgs, root, graft_id, rest, garden, paths),
            None => find_tree_result(r, cfgs, root, id, tree, garden, paths) <==> r matches Err(
                GardenError::ConfigurationError(_),
            ),
        },
{
}

/// Any other tree expression (no graft prefix, or a graft that configuration `id`
/// does not have) gives the tree context of the expression in configuration `id`
/// itself, as `tree_context` does.
pub proof fn law_find_tree_plain(
    r: Result<TreeContext, GardenError>,
    cfgs: Seq<Configuration>,
    root: ConfigId,
    id: ConfigId,
    tree: Seq<char>,
    garden: Option<Seq<char>>,
    paths: CanonicalPaths,
)
    requires
        !syntax::spec_is_graft(tree) || match syntax::spec_graft_basename(tree) {
            Some(g) => entry_get(cfgs[id as int].grafts@, syntax::spec_trim(g)) is None,
            None => true,
        },
    ensures
        find_tree_result(r, cfgs, root, id, tree, garden, paths) == tree_context_result(
            r,
            cfgs,
            root,
            cfgs[id as int],
            tree,
            garden,
            paths,
        ),
{
}

proof fn lemma_no_garden_matches(
    cfgs: Seq<Configuration>,
    config: Configuration,
    graft: Option<Configuration>,
    pattern: Seq<char>,
    gardens: Seq<(Seq<char>, Garden)>,
    paths: CanonicalPaths,
)
    requires
        forall|k: int| 0 <= k < gardens.len() ==> !spec_glob_matches(pattern, #[trigger] gardens[k].0),
    ensures
        spec_gardens_matching(cfgs, config, graft, pattern, gardens, paths) == Seq::<CtxView>::empty(),
    decreases gardens.len(),
{
    if gardens.len() > 0 {
        let t = gardens.drop_last();
        assert(forall|k: int| 0 <= k < t.len() ==> t[k] == gardens[k]);
        lemma_no_garden_matches(cfgs, config, graft, pattern, t, paths);
        assert(!spec_glob_matches(pattern, gardens[gardens.len() - 1].0));
    }
}

proof fn lemma_no_group_matches(
    cfgs: Seq<Configuration>,
    config: Configuration,
    graft: Option<Configuration>,
    pattern: Seq<char>,
    groups: Seq<(Seq<char>, Group)>,
    paths: CanonicalPaths,
)
    requires
        forall|k: int| 0 <= k < groups.len() ==> !spec_glob_matches(pattern, #[trigger] groups[k].0),
    ensures
        spec_groups_matching(cfgs, config, graft, None, pattern, groups, paths) == Seq::<CtxView>::empty(),
    decreases groups.len(),
{
    if groups.len() > 0 {
        let t = groups.drop_last();
        assert(forall|k: int| 0 <= k < t.len() ==> t[k] == groups[k]);
        lemma_no_group_matches(cfgs, config, graft, pattern, t, paths);
        assert(!spec_glob_matches(pattern, groups[groups.len() - 1].0));
    }
}

proof fn lemma_no_tree_matches(trees: Seq<(Seq<char>, Tree)>, pattern: Seq<char>, id: Option<ConfigId>)
    requires
        forall|k: int| 0 <= k < trees.len() ==> !spec_glob_matches(pattern, #[trigger] trees[k].0),
    ensures
        spec_matching_trees(trees, pattern, id, None, None) == Seq::<CtxView>::empty(),
    decreases trees.len(),
{
    if trees.len() > 0 {
        let t = trees.drop_last();
        assert(forall|k: int| 0 <= k < t.len() ==> t[k] == trees[k]);
        lemma_no_tree_matches(t, pattern, id);
        assert(!spec_glob_matches(pattern, trees[trees.len() - 1].0));
    }
}

/// A query that is a path finds the tree on disk there: a plain query (no "@",
/// "%" or ":" prefix, no graft) that matches no garden, group or tree name, and
/// whose path has the canonical form of a configured tree's path, names exactly the
/// first such tree of the configuration.
pub proof fn law_query_path_finds_tree(
    cfgs: Seq<Configuration>,
    config: Configuration,
    query: Seq<char>,
    paths: CanonicalPaths,
    c: Seq<char>,
    j: int,
)
    requires
        !syntax::spec_is_garden(query),
        !syntax::spec_is_group(query),
        !syntax::spec_is_tree(query),
        !syntax::spec_is_graft(query),
        forall|k: int|
            0 <= k < config.gardens@.len() ==> !spec_glob_matches(syntax::spec_trim(query), #[trigger] config.gardens@[k].0),
        forall|k: int|
            0 <= k < config.groups@.len() ==> !spec_glob_matches(syntax::spec_trim(query), #[trigger] config.groups@[k].0),
        forall|k: int|
            0 <= k < config.trees@.len() ==> !spec_glob_matches(syntax::spec_trim(query), #[trigger] config.trees@[k].0),
        canon_of(paths, query) == Some(c),
        0 <= j < config.trees@.len(),
        tree_canon(config.trees@[j].1, paths) == Some(c),
        forall|k: int| 0 <= k < j ==> tree_canon(#[trigger] config.trees@[k].1, paths) != Some(c),
    ensures
        spec_resolve_trees(cfgs, config, None, query, paths) == seq![
            (config.trees@[j].0, config.id, None::<Seq<char>>, None::<Seq<char>>),
        ],
{
    let pattern = syntax::spec_trim(query);
    lemma_no_garden_matches(cfgs, config, None, pattern, config.gardens@, paths);
    lemma_no_group_matches(cfgs, config, None, pattern, config.groups@, paths);
    lemma_no_tree_matches(config.trees@, pattern, spec_graft_config_id(config));
    lemma_first_tree_at(config.trees@, c, paths);
    match first_tree_at(config.trees@, c, paths) {
        Some(i) => {
            if i < j {
            } else if j < i {
            }
        },
        None => {},
    }
    assert(Seq::<CtxView>::empty() + Seq::<CtxView>::empty() =~= Seq::<CtxView>::empty());
    assert(Seq::<CtxView>::empty().push((config.trees@[j].0, config.id, None::<Seq<char>>, None::<Seq<char>>))
        =~= seq![(config.trees@[j].0, config.id, None::<Seq<char>>, None::<Seq<char>>)]);
}

/// The trees whose names match `pattern`, in order.
pub open spec fn trees_matching(trees: Seq<(Seq<char>, Tree)>, pattern: Seq<char>) -> Seq<(Seq<char>, Tree)> {
    trees.filter(|e: (Seq<char>, Tree)| spec_glob_matches(pattern, e.0))
}

proof fn lemma_matching_trees_filter(trees: Seq<(Seq<char>, Tree)>, pattern: Seq<char>, id: Option<ConfigId>)
    ensures
        spec_matching_trees(trees, pattern, id, None, None).len() == trees_matching(trees, pattern).len(),
        forall|m: int|
            0 <= m < trees_matching(trees, pattern).len() ==> #[trigger] spec_matching_trees(
                trees,
                pattern,
                id,
                None,
                None,
            )[m] == (trees_matching(trees, pattern)[m].1.name_of(), id, None::<Seq<char>>, None::<Seq<char>>),
        (exists|k: int| 0 <= k < trees.len() && spec_glob_matches(pattern, #[trigger] trees[k].0)) ==> trees_matching(
            trees,
            pattern,
        ).len() > 0,
    decreases trees.len(),
{
    reveal(Seq::filter);
    if trees.len() > 0 {
        let t = trees.drop_last();
        lemma_matching_trees_filter(t, pattern, id);
        if exists|k: int| 0 <= k < trees.len() && spec_glob_matches(pattern, #[trigger] trees[k].0) {
            let k = choose|k: int| 0 <= k < trees.len() && spec_glob_matches(pattern, #[trigger] trees[k].0);
            if k < trees.len() - 1 {
                assert(t[k] == trees[k]);
            }
        }
    }
}

/// A tree query ("@pattern", or a plain query that names no garden or group but
/// some tree) names exactly the trees whose names match the pattern, in the order
/// of the configuration.
pub proof fn law_query_names_matching_trees(
    cfgs: Seq<Configuration>,
    config: Configuration,
    query: Seq<char>,
    paths: CanonicalPaths,
)
    requires
        !syntax::spec_is_garden(query),
        !syntax::spec_is_group(query),
        !syntax::spec_is_graft(query),
        syntax::spec_is_tree(query) || ({
            &&& forall|k: int|
                0 <= k < config.gardens@.len() ==> !spec_glob_matches(
                    syntax::spec_trim(query),
                    #[trigger] config.gardens@[k].0,
                )
            &&& forall|k: int|
                0 <= k < config.groups@.len() ==> !spec_glob_matches(
                    syntax::spec_trim(query),
                    #[trigger] config.groups@[k].0,
                )
            &&& exists|k: int|
                0 <= k < config.trees@.len() && spec_glob_matches(syntax::spec_trim(query), #[trigger] config.trees@[k].0)
        }),
    ensures
        ({
            let r = spec_resolve_trees(cfgs, config, None, query, paths);
            let f = trees_matching(config.trees@, syntax::spec_trim(query));
            &&& r.len() == f.len()
            &&& forall|m: int|
                0 <= m < f.len() ==> r[m] == (#[trigger] f[m].1.name_of(), spec_graft_config_id(config), None::<
                    Seq<char>,
                >, None::<Seq<char>>)
        }),
{
    let pattern = syntax::spec_trim(query);
    lemma_matching_trees_filter(config.trees@, pattern, spec_graft_config_id(config));
    if !syntax::spec_is_tree(query) {
        lemma_no_garden_matches(cfgs, config, None, pattern, config.gardens@, paths);
        lemma_no_group_matches(cfgs, config, None, pattern, config.groups@, paths);
    }
    assert(Seq::<CtxView>::empty() + spec_matching_trees(config.trees@, pattern, spec_graft_config_id(config), None, None)
        =~= spec_matching_trees(config.trees@, pattern, spec_graft_config_id(config), None, None));
}

} // verus!

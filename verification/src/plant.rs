//! Recording existing worktrees in a garden file.
use vstd::prelude::*;

use crate::collections::{entry_get, OrderedMap};
use crate::constants;
use crate::git::{lines, name_from_url_or_path, spec_lines, spec_name_from_url_or_path, strs_view};
use crate::grow::pairs_view;
use crate::prune::{spec_to_lowercase, to_lowercase};
use crate::sort::{chars_lt, lemma_lt_total, lemma_lt_transitive, seq_le, seq_lt};
use crate::text::{chars_of, owned, str_eq};
use crate::yaml::{
    entries_view, lemma_entries_view, hash_get, hash_remove, hash_set, vhash_get, vhash_remove, vhash_set, yaml_clone, yaml_view,
    Yaml, YamlView,
};

verus! {

/// The default remote and the other remotes of a repository, from the output of
/// "git config checkout.defaultRemoteName" and of "git remote" (each when the command
/// succeeded): the configured default, else a single remote, else "origin".
pub open spec fn spec_plant_remotes(default_name: Option<Seq<char>>, remote_output: Option<Seq<char>>) -> (
    Seq<char>,
    Seq<Seq<char>>,
) {
    let d1 = match default_name {
        Some(n) => if n.len() > 0 {
            n
        } else {
            constants::ORIGIN@
        },
        None => constants::ORIGIN@,
    };
    match remote_output {
        Some(out) => {
            let d2 = if out.len() > 0 && spec_lines(out).len() == 1 {
                out
            } else {
                d1
            };
            (d2, spec_lines(out).filter(|l: Seq<char>| l != d2))
        },
        None => (d1, Seq::empty()),
    }
}

/// Find the default remote and the other remotes (see `spec_plant_remotes`).
pub fn plant_remotes(default_name: Option<&str>, remote_output: Option<&str>) -> (r: (String, Vec<String>))
    ensures
        (r.0@, strs_view(r.1@)) == spec_plant_remotes(
            match default_name {
                Some(n) => Some(n@),
                None => None,
            },
            match remote_output {
                Some(o) => Some(o@),
                None => None,
            },
        ),
{
    let mut default_remote = owned(constants::ORIGIN);
    if let Some(name) = default_name {
        if !name.is_empty() {
            default_remote = owned(name);
        }
    }
    let mut remote_names: Vec<String> = Vec::new();
    if let Some(output) = remote_output {
        let all = lines(output);
        // A single remote is the default remote whatever its name.
        if !output.is_empty() && all.len() == 1 {
            default_remote = owned(output);
        }
        let ghost ls = strs_view(all@);
        let ghost d = default_remote@;
        let mut i: usize = 0;
        while i < all.len()
            invariant
                ls == strs_view(all@),
                d == default_remote@,
                i <= all@.len(),
                strs_view(remote_names@) == ls.take(i as int).filter(|l: Seq<char>| l != d),
            decreases all@.len() - i,
        {
            proof {
                assert(ls.take(i + 1).drop_last() =~= ls.take(i as int));
                reveal(Seq::filter);
            }
            // The default remote is recorded by the "url" entry.
            if !str_eq(all[i].as_str(), default_remote.as_str()) {
                let ghost before = remote_names@;
                remote_names.push(all[i].clone());
                assert(strs_view(remote_names@) =~= strs_view(before).push(ls[i as int]));
            }
            i = i + 1;
        }
        assert(ls.take(all@.len() as int) =~= ls);
    } else {
        assert(strs_view(remote_names@) =~= Seq::<Seq<char>>::empty());
    }
    (default_remote, remote_names)
}

/// What is known about a repository being planted.
pub struct PlantInfo {
    /// The configured name of the tree at this path, else its path relative to the
    /// garden root (possibly empty).
    pub tree_name: String,
    /// The repository's path.
    pub path: String,
    /// The parent tree's name when the repository is a child worktree.
    pub worktree_parent: Option<String>,
    /// The worktree's branch.
    pub branch: String,
    /// The default remote.
    pub default_remote: String,
    /// The other remotes with their URLs.
    pub remotes: Vec<(String, String)>,
    /// The evaluated URLs that the configuration already gives the tree's remotes.
    pub current_urls: OrderedMap<String>,
    /// The default remote's URL, when Git has one.
    pub url: Option<String>,
    /// Git reports a bare repository.
    pub is_bare: bool,
}

/// The evaluated URL that the configuration already gives a remote.
pub open spec fn current_url(info: PlantInfo, remote: Seq<char>) -> Option<Seq<char>> {
    match entry_get(info.current_urls@, remote) {
        Some(s) => Some(s@),
        None => None,
    }
}

/// A "remotes" mapping after recording remotes whose URL differs from the
/// configured one.
pub open spec fn set_remotes(rh: Seq<(YamlView, YamlView)>, remotes: Seq<(Seq<char>, Seq<char>)>, info: PlantInfo) -> Seq<
    (YamlView, YamlView),
>
    decreases remotes.len(),
{
    if remotes.len() == 0 {
        rh
    } else {
        let prev = set_remotes(rh, remotes.drop_last(), info);
        let (name, url) = remotes.last();
        if current_url(info, name) == Some(url) {
            prev
        } else {
            vhash_set(prev, name, YamlView::String(url))
        }
    }
}

/// The URL recorded by planting: the default remote's URL, or empty.
pub open spec fn plant_url(info: PlantInfo) -> Seq<char> {
    match info.url {
        Some(u) => u@,
        None => Seq::empty(),
    }
}

/// Whether the "url" entry is written: unless the configuration already evaluates
/// the default remote to Git's URL.
pub open spec fn plant_update_url(info: PlantInfo) -> bool {
    match info.url {
        Some(u) => match current_url(info, info.default_remote@) {
            Some(c) => c != u@,
            None => true,
        },
        None => true,
    }
}

/// The tree entry after recording what is known about a non-worktree repository
/// over its existing entry `entry0`.
pub open spec fn plant_tree_entry(entry0: Seq<(YamlView, YamlView)>, info: PlantInfo) -> Seq<(YamlView, YamlView)> {
    let remotes0 = match vhash_get(entry0, constants::REMOTES@) {
        Some(YamlView::Hash(h)) => h,
        _ => Seq::empty(),
    };
    let remotes1 = set_remotes(remotes0, pairs_view(info.remotes@), info);
    let e1 = if info.remotes@.len() > 0 {
        let e = vhash_set(entry0, constants::REMOTES@, YamlView::Hash(remotes1));
        if remotes1.len() == 0 {
            vhash_remove(e, constants::REMOTES@)
        } else {
            e
        }
    } else {
        entry0
    };
    let e2 = if info.url is Some && plant_update_url(info) {
        vhash_set(e1, constants::URL@, YamlView::String(plant_url(info)))
    } else {
        e1
    };
    let e3 = if info.default_remote@ != constants::ORIGIN@ {
        vhash_set(e2, constants::DEFAULT_REMOTE@, YamlView::String(info.default_remote@))
    } else {
        e2
    };
    if info.is_bare {
        vhash_set(e3, constants::BARE@, YamlView::Boolean(true))
    } else {
        e3
    }
}

/// The "trees" mapping after planting a repository. A child worktree records its
/// parent and branch. Any other repository records its remotes, URL, default remote
/// and bareness over its existing entry, under its tree name (or a name taken from
/// its URL or path). An unchanged entry leaves the mapping as it is; a one-line
/// `name: <url>` entry stays one line when only its URL is recorded, and keeps its URL
/// when other fields are added.
pub open spec fn spec_plant(trees: Seq<(YamlView, YamlView)>, info: PlantInfo) -> Seq<(YamlView, YamlView)> {
    let entry0 = match vhash_get(trees, info.tree_name@) {
        Some(YamlView::Hash(h)) => h,
        _ => Seq::empty(),
    };
    match info.worktree_parent {
        Some(parent) => vhash_set(
            trees,
            info.tree_name@,
            YamlView::Hash(
                vhash_set(
                    vhash_set(entry0, constants::WORKTREE@, YamlView::String(parent@)),
                    constants::BRANCH@,
                    YamlView::String(info.branch@),
                ),
            ),
        ),
        None => {
            let e4 = plant_tree_entry(entry0, info);
            let key = if info.tree_name@.len() == 0 {
                spec_name_from_url_or_path(plant_url(info), info.path@)
            } else {
                info.tree_name@
            };
            match vhash_get(trees, key) {
                Some(old) => if e4.len() == 0 {
                    trees
                } else {
                    let is_string = old is String;
                    let still = e4.len() == 1 && vhash_get(e4, constants::URL@) is Some;
                    if is_string && still {
                        vhash_set(trees, key, YamlView::String(plant_url(info)))
                    } else if is_string && !still && !plant_update_url(info) {
                        vhash_set(trees, key, YamlView::Hash(vhash_set(e4, constants::URL@, old)))
                    } else {
                        vhash_set(trees, key, YamlView::Hash(e4))
                    }
                },
                None => vhash_set(trees, key, YamlView::Hash(e4)),
            }
        },
    }
}

/// A copy of the entries of a mapping node; no entries for other nodes.
fn hash_entries(y: Option<&Yaml>) -> (r: Vec<(Yaml, Yaml)>)
    ensures
        entries_view(r@) == (match y {
            Some(v) => match yaml_view(*v) {
                YamlView::Hash(h) => h,
                _ => Seq::empty(),
            },
            None => Seq::empty(),
        }),
{
    match y {
        Some(v) => {
            let c = yaml_clone(v);
            match c {
                Yaml::Hash(h) => h,
                _ => {
                    let r: Vec<(Yaml, Yaml)> = Vec::new();
                    assert(entries_view(r@) =~= Seq::empty());
                    r
                },
            }
        },
        None => {
            let r: Vec<(Yaml, Yaml)> = Vec::new();
            assert(entries_view(r@) =~= Seq::empty());
            r
        },
    }
}

/// Record a repository in the entries of the "trees" mapping (see `spec_plant`).
pub fn plant_path(trees: &mut Vec<(Yaml, Yaml)>, info: &PlantInfo)
    ensures
        entries_view(final(trees)@) == spec_plant(entries_view(old(trees)@), *info),
{
    let mut entry = hash_entries(hash_get(trees, info.tree_name.as_str()));
    if let Some(parent) = &info.worktree_parent {
        hash_set(&mut entry, constants::WORKTREE, Yaml::String(parent.clone()));
        hash_set(&mut entry, constants::BRANCH, Yaml::String(info.branch.clone()));
        hash_set(trees, info.tree_name.as_str(), Yaml::Hash(entry));
        return ;
    }
    let ghost entry0 = entries_view(entry@);
    // Remotes other than the default remote.
    if info.remotes.len() > 0 {
        let mut remotes_hash = hash_entries(hash_get(&entry, constants::REMOTES));
        let ghost rh0 = entries_view(remotes_hash@);
        let mut i: usize = 0;
        while i < info.remotes.len()
            invariant
                i <= info.remotes@.len(),
                entries_view(remotes_hash@) == set_remotes(rh0, pairs_view(info.remotes@).take(i as int), *info),
            decreases info.remotes@.len() - i,
        {
            assert(pairs_view(info.remotes@).take(i + 1).drop_last() =~= pairs_view(info.remotes@).take(i as int));
            let name = info.remotes[i].0.as_str();
            let url = info.remotes[i].1.as_str();
            // Leave remotes whose configured value already evaluates to Git's URL.
            let unchanged = match info.current_urls.get(name) {
                Some(current) => str_eq(current.as_str(), url),
                None => false,
            };
            if !unchanged {
                hash_set(&mut remotes_hash, name, Yaml::String(owned(url)));
            }
            i = i + 1;
        }
        assert(pairs_view(info.remotes@).take(info.remotes@.len() as int) =~= pairs_view(info.remotes@));
        let is_empty = remotes_hash.len() == 0;
        proof {
            crate::yaml::lemma_entries_view(remotes_hash@);
        }
        hash_set(&mut entry, constants::REMOTES, Yaml::Hash(remotes_hash));
        // An empty "remotes" block is removed.
        if is_empty {
            hash_remove(&mut entry, constants::REMOTES);
        }
    }
    // The default remote's URL.
    let mut update_url = true;
    let mut url = String::new();
    if let Some(remote_url) = &info.url {
        url = remote_url.clone();
        if let Some(current) = info.current_urls.get(info.default_remote.as_str()) {
            update_url = !str_eq(current.as_str(), remote_url.as_str());
        }
        if update_url {
            hash_set(&mut entry, constants::URL, Yaml::String(remote_url.clone()));
        }
    }
    if !str_eq(info.default_remote.as_str(), constants::ORIGIN) {
        hash_set(&mut entry, constants::DEFAULT_REMOTE, Yaml::String(info.default_remote.clone()));
    }
    if info.is_bare {
        hash_set(&mut entry, constants::BARE, Yaml::Boolean(true));
    }
    assert(entries_view(entry@) == plant_tree_entry(entry0, *info));
    // A tree without a name takes one from its URL or path.
    let key = if info.tree_name.as_str().is_empty() {
        name_from_url_or_path(url.as_str(), info.path.as_str())
    } else {
        info.tree_name.clone()
    };
    let old = match hash_get(trees, key.as_str()) {
        Some(v) => Some(yaml_clone(v)),
        None => None,
    };
    proof {
        crate::yaml::lemma_entries_view(entry@);
    }
    match old {
        Some(old_value) => {
            if entry.len() > 0 {
                let is_string = match &old_value {
                    Yaml::String(_) => true,
                    _ => false,
                };
                let still = entry.len() == 1 && hash_get(&entry, constants::URL).is_some();
                if is_string && still {
                    hash_set(trees, key.as_str(), Yaml::String(url));
                } else if is_string && !still && !update_url {
                    hash_set(&mut entry, constants::URL, old_value);
                    hash_set(trees, key.as_str(), Yaml::Hash(entry));
                } else {
                    hash_set(trees, key.as_str(), Yaml::Hash(entry));
                }
            }
        },
        None => {
            hash_set(trees, key.as_str(), Yaml::Hash(entry));
        },
    }
}


/// Planting a child worktree records its parent tree and its branch in the tree's
/// entry.
pub proof fn law_plant_worktree_records_parent(trees: Seq<(YamlView, YamlView)>, info: PlantInfo)
    requires
        info.worktree_parent is Some,
    ensures
        vhash_get(spec_plant(trees, info), info.tree_name@) matches Some(YamlView::Hash(h)) && vhash_get(
            h,
            constants::WORKTREE@,
        ) == Some(YamlView::String(info.worktree_parent->0@)) && vhash_get(h, constants::BRANCH@) == Some(
            YamlView::String(info.branch@),
        ),
{
    let entry0 = match vhash_get(trees, info.tree_name@) {
        Some(YamlView::Hash(h)) => h,
        _ => Seq::empty(),
    };
    let e1 = vhash_set(entry0, constants::WORKTREE@, YamlView::String(info.worktree_parent->0@));
    let e2 = vhash_set(e1, constants::BRANCH@, YamlView::String(info.branch@));
    reveal_strlit("worktree");
    reveal_strlit("branch");
    assert(constants::WORKTREE@[0] != constants::BRANCH@[0]);
    crate::yaml::law_hash_set_get(trees, info.tree_name@, YamlView::Hash(e2), info.tree_name@);
    crate::yaml::law_hash_set_get(e1, constants::BRANCH@, YamlView::String(info.branch@), constants::WORKTREE@);
    crate::yaml::law_hash_set_get(e1, constants::BRANCH@, YamlView::String(info.branch@), constants::BRANCH@);
    crate::yaml::law_hash_set_get(
        entry0,
        constants::WORKTREE@,
        YamlView::String(info.worktree_parent->0@),
        constants::WORKTREE@,
    );
}

/// The name of a "trees" entry: its key, when the key is a string.
pub open spec fn entry_tree_name(e: (YamlView, YamlView)) -> Option<Seq<char>> {
    match e.0 {
        YamlView::String(name) => Some(name),
        _ => None,
    }
}

/// What entry `i` is sorted by: its lower-cased name.
pub open spec fn tree_sort_key(entries: Seq<(YamlView, YamlView)>, i: int) -> Seq<char> {
    match entry_tree_name(entries[i]) {
        Some(name) => spec_to_lowercase(name),
        None => Seq::empty(),
    }
}

/// Entry `i` goes before entry `j`: its lower-cased name comes first, or the
/// lower-cased names are equal and it came first (the sort is stable).
pub open spec fn tree_goes_before(entries: Seq<(YamlView, YamlView)>, i: int, j: int) -> bool {
    seq_lt(tree_sort_key(entries, i), tree_sort_key(entries, j)) || (tree_sort_key(entries, i)
        == tree_sort_key(entries, j) && i < j)
}

/// `order` lists the indexes of the named entries among the first `n` entries, each
/// once, sorted.
pub open spec fn is_tree_sort_order(entries: Seq<(YamlView, YamlView)>, order: Seq<usize>, n: int) -> bool {
    &&& forall|k: int|
        0 <= k < order.len() ==> #[trigger] order[k] < n && entry_tree_name(entries[order[k] as int]) is Some
    &&& forall|i: int| 0 <= i < n && entry_tree_name(entries[i]) is Some ==> order.contains(i as usize)
    &&& forall|k: int, l: int|
        0 <= k < l < order.len() ==> tree_goes_before(entries, #[trigger] order[k] as int, #[trigger] order[l] as int)
}

/// The entries at the indexes of `order`, in that order.
pub open spec fn ordered_entries(entries: Seq<(YamlView, YamlView)>, order: Seq<usize>) -> Seq<(YamlView, YamlView)> {
    order.map_values(|i: usize| entries[i as int])
}

/// The lower-cased names of the entries, empty for entries without a string key.
fn tree_sort_keys(trees: &Vec<(Yaml, Yaml)>) -> (keys: Vec<Vec<char>>)
    ensures
        keys@.len() == trees@.len(),
        forall|i: int| 0 <= i < trees@.len() ==> #[trigger] keys@[i]@ == tree_sort_key(entries_view(trees@), i),
{
    proof {
        lemma_entries_view(trees@);
    }
    let mut keys: Vec<Vec<char>> = Vec::new();
    let mut i: usize = 0;
    while i < trees.len()
        invariant
            i <= trees@.len(),
            keys@.len() == i,
            entries_view(trees@).len() == trees@.len(),
            forall|j: int|
                0 <= j < trees@.len() ==> #[trigger] entries_view(trees@)[j] == (yaml_view(trees@[j].0), yaml_view(trees@[j].1)),
            forall|j: int| 0 <= j < i ==> #[trigger] keys@[j]@ == tree_sort_key(entries_view(trees@), j),
        decreases trees@.len() - i,
    {
        let key = match &trees[i].0 {
            Yaml::String(name) => chars_of(to_lowercase(name.as_str()).as_str()),
            _ => Vec::new(),
        };
        assert(key@ == tree_sort_key(entries_view(trees@), i as int));
        keys.push(key);
        i = i + 1;
    }
    keys
}

/// The order of `plant --sort`: the indexes of the entries with a string key, sorted
/// case-insensitively by that key and stably (see `is_tree_sort_order`).
pub fn tree_sort_order(trees: &Vec<(Yaml, Yaml)>) -> (order: Vec<usize>)
    ensures
        is_tree_sort_order(entries_view(trees@), order@, trees@.len() as int),
{
    let keys = tree_sort_keys(trees);
    let ghost ev = entries_view(trees@);
    proof {
        lemma_entries_view(trees@);
    }
    let mut order: Vec<usize> = Vec::new();
    let mut i: usize = 0;
    while i < trees.len()
        invariant
            i <= trees@.len(),
            ev == entries_view(trees@),
            ev.len() == trees@.len(),
            keys@.len() == trees@.len(),
            forall|j: int| 0 <= j < trees@.len() ==> #[trigger] keys@[j]@ == tree_sort_key(ev, j),
            forall|j: int| 0 <= j < trees@.len() ==> #[trigger] ev[j] == (yaml_view(trees@[j].0), yaml_view(trees@[j].1)),
            is_tree_sort_order(ev, order@, i as int),
        decreases trees@.len() - i,
    {
        let named = match &trees[i].0 {
            Yaml::String(_) => true,
            _ => false,
        };
        assert(named == (entry_tree_name(ev[i as int]) is Some));
        if named {
            let ghost old_order = order@;
            let mut pos: usize = 0;
            while pos < order.len() && !chars_lt(&keys[i], &keys[order[pos]])
                invariant
                    pos <= order@.len(),
                    order@ == old_order,
                    i < trees@.len(),
                    keys@.len() == trees@.len(),
                    forall|j: int| 0 <= j < trees@.len() ==> #[trigger] keys@[j]@ == tree_sort_key(ev, j),
                    is_tree_sort_order(ev, order@, i as int),
                    i <= trees@.len(),
                    forall|k: int| 0 <= k < pos ==> seq_le(tree_sort_key(ev, #[trigger] old_order[k] as int), tree_sort_key(ev, i as int)),
                decreases order@.len() - pos,
            {
                assert(old_order[pos as int] < i);
                proof {
                    lemma_lt_total(tree_sort_key(ev, i as int), tree_sort_key(ev, old_order[pos as int] as int));
                }
                pos = pos + 1;
            }
            proof {
                assert forall|k: int| pos <= k < old_order.len() implies seq_lt(
                    tree_sort_key(ev, i as int),
                    tree_sort_key(ev, #[trigger] old_order[k] as int),
                ) by {
                    assert(old_order[pos as int] < i);
                    assert(seq_lt(tree_sort_key(ev, i as int), tree_sort_key(ev, old_order[pos as int] as int)));
                    if k > pos as int {
                        assert(tree_goes_before(ev, old_order[pos as int] as int, old_order[k] as int));
                        if tree_sort_key(ev, old_order[pos as int] as int) != tree_sort_key(ev, old_order[k] as int) {
                            lemma_lt_transitive(
                                tree_sort_key(ev, i as int),
                                tree_sort_key(ev, old_order[pos as int] as int),
                                tree_sort_key(ev, old_order[k] as int),
                            );
                        }
                    }
                }
            }
            order.insert(pos, i);
            proof {
                let t = order@;
                assert(t =~= old_order.insert(pos as int, i));
                assert forall|k: int| 0 <= k < t.len() implies #[trigger] t[k] < i + 1 && entry_tree_name(
                    ev[t[k] as int],
                ) is Some by {
                    if k < pos {
                        assert(t[k] == old_order[k]);
                    } else if k > pos {
                        assert(t[k] == old_order[k - 1]);
                    }
                }
                assert forall|j: int| 0 <= j < i + 1 && entry_tree_name(ev[j]) is Some implies t.contains(
                    j as usize,
                ) by {
                    if j == i {
                        assert(t[pos as int] == i);
                    } else {
                        assert(old_order.contains(j as usize));
                        let k = choose|k: int| 0 <= k < old_order.len() && old_order[k] == j as usize;
                        if k < pos {
                            assert(t[k] == j as usize);
                        } else {
                            assert(t[k + 1] == j as usize);
                        }
                    }
                }
                assert forall|a: int, b: int| 0 <= a < b < t.len() implies tree_goes_before(
                    ev,
                    #[trigger] t[a] as int,
                    #[trigger] t[b] as int,
                ) by {
                    if b < pos {
                        assert(t[a] == old_order[a] && t[b] == old_order[b]);
                    } else if a < pos && b == pos {
                        assert(t[a] == old_order[a]);
                        assert(old_order[a] < i);
                        assert(seq_le(tree_sort_key(ev, old_order[a] as int), tree_sort_key(ev, i as int)));
                    } else if a < pos && b > pos {
                        assert(t[a] == old_order[a] && t[b] == old_order[b - 1]);
                        assert(tree_goes_before(ev, old_order[a] as int, old_order[b - 1] as int));
                    } else if a == pos {
                        assert(t[b] == old_order[b - 1]);
                        assert(seq_lt(tree_sort_key(ev, i as int), tree_sort_key(ev, old_order[b - 1] as int)));
                    } else {
                        assert(t[a] == old_order[a - 1] && t[b] == old_order[b - 1]);
                        assert(tree_goes_before(ev, old_order[a - 1] as int, old_order[b - 1] as int));
                    }
                }
            }
        } else {
            proof {
                assert forall|j: int| 0 <= j < i + 1 && entry_tree_name(ev[j]) is Some implies order@.contains(
                    j as usize,
                ) by {
                    if j < i {
                    }
                }
            }
        }
        i = i + 1;
    }
    order
}

/// The "trees" entries of `plant --sort`: the entries with a string key, sorted
/// case-insensitively by that key, keeping the order of equal keys; others are dropped.
pub fn sort_trees(trees: &Vec<(Yaml, Yaml)>) -> (r: Vec<(Yaml, Yaml)>)
    ensures
        exists|order: Seq<usize>|
            is_tree_sort_order(entries_view(trees@), order, trees@.len() as int) && entries_view(r@)
                == ordered_entries(entries_view(trees@), order),
{
    let order = tree_sort_order(trees);
    let ghost ev = entries_view(trees@);
    proof {
        lemma_entries_view(trees@);
    }
    let mut r: Vec<(Yaml, Yaml)> = Vec::new();
    let mut k: usize = 0;
    while k < order.len()
        invariant
            k <= order@.len(),
            ev == entries_view(trees@),
            ev.len() == trees@.len(),
            forall|j: int| 0 <= j < trees@.len() ==> #[trigger] ev[j] == (yaml_view(trees@[j].0), yaml_view(trees@[j].1)),
            is_tree_sort_order(ev, order@, trees@.len() as int),
            entries_view(r@) == ordered_entries(ev, order@.take(k as int)),
        decreases order@.len() - k,
    {
        let i = order[k];
        assert(i < trees@.len());
        let entry = (yaml_clone(&trees[i].0), yaml_clone(&trees[i].1));
        let ghost before = r@;
        r.push(entry);
        assert(r@.drop_last() =~= before);
        assert(ordered_entries(ev, order@.take(k + 1)) =~= ordered_entries(ev, order@.take(k as int)).push(ev[i as int]));
        k = k + 1;
    }
    assert(order@.take(order@.len() as int) =~= order@);
    r
}

/// The URL that a "trees" entry records: a one-line `name: <url>` entry, or the
/// "url" field of a mapping.
pub open spec fn recorded_url(node: YamlView) -> Option<Seq<char>> {
    match node {
        YamlView::String(u) => Some(u),
        YamlView::Hash(e) => match vhash_get(e, constants::URL@) {
            Some(YamlView::String(u)) => Some(u),
            _ => None,
        },
        _ => None,
    }
}

/// The name under which a repository that is not a child worktree is planted.
pub open spec fn planted_key(info: PlantInfo) -> Seq<char> {
    if info.tree_name@.len() == 0 {
        spec_name_from_url_or_path(plant_url(info), info.path@)
    } else {
        info.tree_name@
    }
}

/// Planting records Git's URL: when Git reports URL `u` for the default remote of
/// a repository that is not a child worktree, and the configuration does not
/// already evaluate that remote to `u`, the planted tree's entry records `u`,
/// whatever the "trees" mapping held before.
pub proof fn law_plant_records_url(trees: Seq<(YamlView, YamlView)>, info: PlantInfo, u: String)
    requires
        info.worktree_parent is None,
        info.url == Some(u),
        match entry_get(info.current_urls@, info.default_remote@) {
            Some(c) => c@ != u@,
            None => true,
        },
    ensures
        vhash_get(spec_plant(trees, info), planted_key(info)) matches Some(node) && recorded_url(node) == Some(
            u@,
        ),
{
    let entry0 = match vhash_get(trees, info.tree_name@) {
        Some(YamlView::Hash(h)) => h,
        _ => Seq::empty(),
    };
    let remotes0 = match vhash_get(entry0, constants::REMOTES@) {
        Some(YamlView::Hash(h)) => h,
        _ => Seq::empty(),
    };
    let remotes1 = set_remotes(remotes0, pairs_view(info.remotes@), info);
    let e1 = if info.remotes@.len() > 0 {
        let e = vhash_set(entry0, constants::REMOTES@, YamlView::Hash(remotes1));
        if remotes1.len() == 0 {
            vhash_remove(e, constants::REMOTES@)
        } else {
            e
        }
    } else {
        entry0
    };
    assert(plant_update_url(info));
    let uv = YamlView::String(u@);
    let e2 = vhash_set(e1, constants::URL@, uv);
    crate::yaml::law_hash_set_get(e1, constants::URL@, uv, constants::URL@);
    reveal_strlit("url");
    reveal_strlit("default-remote");
    reveal_strlit("bare");
    assert(constants::URL@[0] != constants::DEFAULT_REMOTE@[0]);
    assert(constants::URL@[0] != constants::BARE@[0]);
    let e3 = if info.default_remote@ != constants::ORIGIN@ {
        crate::yaml::law_hash_set_get(
            e2,
            constants::DEFAULT_REMOTE@,
            YamlView::String(info.default_remote@),
            constants::URL@,
        );
        vhash_set(e2, constants::DEFAULT_REMOTE@, YamlView::String(info.default_remote@))
    } else {
        e2
    };
    let e4 = if info.is_bare {
        crate::yaml::law_hash_set_get(e3, constants::BARE@, YamlView::Boolean(true), constants::URL@);
        vhash_set(e3, constants::BARE@, YamlView::Boolean(true))
    } else {
        e3
    };
    assert(e4 == plant_tree_entry(entry0, info));
    assert(vhash_get(e4, constants::URL@) == Some(uv));
    crate::yaml::lemma_vhash_index(e4, constants::URL@);
    assert(e4.len() > 0);
    let key = planted_key(info);
    assert(plant_url(info) == u@);
    crate::yaml::law_hash_set_get(trees, key, uv, key);
    crate::yaml::law_hash_set_get(trees, key, YamlView::Hash(e4), key);
}

/// A field other than "url" of the planted entry is kept in the planted tree's
/// mapping.
proof fn lemma_planted_field(trees: Seq<(YamlView, YamlView)>, info: PlantInfo, k: Seq<char>, x: YamlView)
    requires
        info.worktree_parent is None,
        k != constants::URL@,
        ({
            let entry0 = match vhash_get(trees, info.tree_name@) {
                Some(YamlView::Hash(h)) => h,
                _ => Seq::empty(),
            };
            vhash_get(plant_tree_entry(entry0, info), k) == Some(x)
        }),
    ensures
        vhash_get(spec_plant(trees, info), planted_key(info)) matches Some(YamlView::Hash(h)) && vhash_get(h, k) == Some(
            x,
        ),
{
    let entry0 = match vhash_get(trees, info.tree_name@) {
        Some(YamlView::Hash(h)) => h,
        _ => Seq::empty(),
    };
    let e4 = plant_tree_entry(entry0, info);
    let key = planted_key(info);
    crate::yaml::lemma_vhash_index(e4, k);
    crate::yaml::lemma_vhash_index(e4, constants::URL@);
    if e4.len() == 1 && vhash_get(e4, constants::URL@) is Some {
        assert(crate::yaml::vhash_index(e4, k) == Some(0int));
        assert(crate::yaml::vhash_index(e4, constants::URL@) == Some(0int));
        assert(false);
    }
    crate::yaml::law_hash_set_get(trees, key, YamlView::Hash(e4), key);
    match vhash_get(trees, key) {
        Some(old) => {
            crate::yaml::law_hash_set_get(e4, constants::URL@, old, k);
            crate::yaml::law_hash_set_get(
                trees,
                key,
                YamlView::Hash(vhash_set(e4, constants::URL@, old)),
                key,
            );
        },
        None => {},
    }
}

/// Planting a bare repository that is not a child worktree records "bare: true" in
/// the planted tree's mapping.
pub proof fn law_plant_records_bare(trees: Seq<(YamlView, YamlView)>, info: PlantInfo)
    requires
        info.worktree_parent is None,
        info.is_bare,
    ensures
        vhash_get(spec_plant(trees, info), planted_key(info)) matches Some(YamlView::Hash(h)) && vhash_get(
            h,
            constants::BARE@,
        ) == Some(YamlView::Boolean(true)),
{
    let entry0 = match vhash_get(trees, info.tree_name@) {
        Some(YamlView::Hash(h)) => h,
        _ => Seq::empty(),
    };
    reveal_strlit("url");
    reveal_strlit("bare");
    assert(constants::URL@[0] != constants::BARE@[0]);
    assert forall|e: Seq<(YamlView, YamlView)>, v: YamlView|
        vhash_get(#[trigger] vhash_set(e, constants::BARE@, v), constants::BARE@) == Some(v) by {
        crate::yaml::law_hash_set_get(e, constants::BARE@, v, constants::BARE@);
    }
    lemma_planted_field(trees, info, constants::BARE@, YamlView::Boolean(true));
}

/// Planting a repository that is not a child worktree and whose default remote is
/// not "origin" records that remote under "default-remote" in the planted tree's
/// mapping.
pub proof fn law_plant_records_default_remote(trees: Seq<(YamlView, YamlView)>, info: PlantInfo)
    requires
        info.worktree_parent is None,
        info.default_remote@ != constants::ORIGIN@,
    ensures
        vhash_get(spec_plant(trees, info), planted_key(info)) matches Some(YamlView::Hash(h)) && vhash_get(
            h,
            constants::DEFAULT_REMOTE@,
        ) == Some(YamlView::String(info.default_remote@)),
{
    reveal_strlit("url");
    reveal_strlit("bare");
    reveal_strlit("default-remote");
    assert(constants::URL@[0] != constants::DEFAULT_REMOTE@[0]);
    assert(constants::BARE@[0] != constants::DEFAULT_REMOTE@[0]);
    let d = YamlView::String(info.default_remote@);
    assert forall|e: Seq<(YamlView, YamlView)>, v: YamlView|
        vhash_get(#[trigger] vhash_set(e, constants::DEFAULT_REMOTE@, v), constants::DEFAULT_REMOTE@) == Some(v) by {
        crate::yaml::law_hash_set_get(e, constants::DEFAULT_REMOTE@, v, constants::DEFAULT_REMOTE@);
    }
    assert forall|e: Seq<(YamlView, YamlView)>, v: YamlView|
        vhash_get(#[trigger] vhash_set(e, constants::BARE@, v), constants::DEFAULT_REMOTE@) == vhash_get(
            e,
            constants::DEFAULT_REMOTE@,
        ) by {
        crate::yaml::law_hash_set_get(e, constants::BARE@, v, constants::DEFAULT_REMOTE@);
    }
    lemma_planted_field(trees, info, constants::DEFAULT_REMOTE@, d);
}

} // verus!

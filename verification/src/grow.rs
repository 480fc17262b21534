//! The Git commands that create and configure trees.
use vstd::prelude::*;

use crate::cmd::strs_view;
use crate::collections::{entry_get, entry_index, entry_insert, entry_map_values, set_append, set_insert, OrderedMap, StringSet};
use crate::git::{lines, spec_lines};
use crate::constants;
use crate::errors::GardenError;
use crate::model::{opt_view, Tree};
use crate::path::{path_parent, spec_path_parent, spec_path_starts_with, spec_path_strip_prefix, strip_prefix};
use crate::text::{concat, i64_to_string, int_to_decimal, owned, str_eq};

verus! {

/// The relative path from `base` to `path` computed by `pathdiff::diff_paths`.
pub uninterp spec fn spec_diff_paths(path: Seq<char>, base: Seq<char>) -> Option<Seq<char>>;

/// Calls `pathdiff::diff_paths`. Trusted: the result is named `spec_diff_paths` of
/// the two paths.
#[verifier::external_body]
fn diff_paths(path: &str, base: &str) -> (r: Option<String>)
    ensures
        opt_view(r) == spec_diff_paths(path@, base@),
{
    pathdiff::diff_paths(path, base).map(|p| p.to_string_lossy().to_string())
}

/// Append a word.
fn push_word(v: &mut Vec<String>, w: String)
    ensures
        strs_view(final(v)@) == strs_view(old(v)@).push(w@),
{
    let ghost before = v@;
    v.push(w);
    assert(strs_view(v@) =~= strs_view(before).push(w@));
}

/// The "git clone" command for a tree: "--bare" for bare repositories, "--origin" for
/// a default remote other than "origin", "--branch" for an evaluated branch that is
/// not a configured tracking branch, "--depth" for shallow clones, then
/// "--single-branch" or "--no-single-branch", the URL and the path.
pub open spec fn spec_clone_command(tree: Tree, url: Seq<char>, path: Seq<char>, branch: Seq<char>) -> Seq<
    Seq<char>,
> {
    let c1 = seq!["git"@, "clone"@];
    let c2 = if tree.is_bare_repository {
        c1.push("--bare"@)
    } else {
        c1
    };
    let c3 = if tree.default_remote@ != constants::ORIGIN@ {
        c2.push("--origin"@).push(tree.default_remote@)
    } else {
        c2
    };
    let c4 = if branch.len() > 0 && entry_get(tree.branches@, branch) is None {
        c3.push("--branch="@ + branch)
    } else {
        c3
    };
    let c5 = if tree.clone_depth > 0 {
        c4.push("--depth="@ + int_to_decimal(tree.clone_depth as int))
    } else {
        c4
    };
    let c6 = if tree.is_single_branch {
        c5.push("--single-branch"@)
    } else {
        c5.push("--no-single-branch"@)
    };
    c6.push(url).push(path)
}

/// Build the "git clone" command for a tree (see `spec_clone_command`).
pub fn clone_command(tree: &Tree, url: &str, path: &str, branch: &str) -> (r: Vec<String>)
    ensures
        strs_view(r@) == spec_clone_command(*tree, url@, path@, branch@),
{
    let mut cmd: Vec<String> = Vec::new();
    push_word(&mut cmd, owned("git"));
    push_word(&mut cmd, owned("clone"));
    assert(strs_view(cmd@) =~= seq!["git"@, "clone"@]);
    if tree.is_bare_repository {
        push_word(&mut cmd, owned("--bare"));
    }
    if !str_eq(tree.default_remote.as_str(), constants::ORIGIN) {
        push_word(&mut cmd, owned("--origin"));
        push_word(&mut cmd, tree.default_remote.clone());
    }
    if !branch.is_empty() && !tree.branches.contains_key(branch) {
        proof {
            crate::collections::lemma_entry_index(tree.branches@, branch@);
        }
        push_word(&mut cmd, concat("--branch=", branch));
    } else {
        proof {
            crate::collections::lemma_entry_index(tree.branches@, branch@);
        }
    }
    if tree.clone_depth > 0 {
        let depth = i64_to_string(tree.clone_depth);
        push_word(&mut cmd, concat("--depth=", depth.as_str()));
    }
    if tree.is_single_branch {
        push_word(&mut cmd, owned("--single-branch"));
    } else {
        push_word(&mut cmd, owned("--no-single-branch"));
    }
    push_word(&mut cmd, owned(url));
    push_word(&mut cmd, owned(path));
    cmd
}

/// The upstream of a worktree's branch: the evaluated upstream configured for the
/// branch under "branches", else "<default-remote>/<branch>".
pub open spec fn spec_worktree_upstream(tree: Tree, branch: Seq<char>, configured: Seq<char>) -> Seq<char> {
    if entry_get(tree.branches@, branch) is Some {
        configured
    } else {
        tree.default_remote@ + "/"@ + branch
    }
}

/// The "git worktree add" command run in the parent worktree: "--track -b <branch>"
/// for a branch, the child's path relative to the parent (or its path when there is
/// no relative path), and the branch's upstream when it is not empty.
pub open spec fn spec_worktree_add_command(
    tree_path: Seq<char>,
    parent_path: Seq<char>,
    branch: Seq<char>,
    upstream: Seq<char>,
) -> Seq<Seq<char>> {
    let c1 = seq!["git"@, "worktree"@, "add"@];
    let c2 = if branch.len() > 0 {
        c1.push("--track"@).push("-b"@).push(branch)
    } else {
        c1
    };
    let c3 = c2.push(
        match spec_diff_paths(tree_path, parent_path) {
            Some(rel) => rel,
            None => tree_path,
        },
    );
    if branch.len() > 0 && upstream.len() > 0 {
        c3.push(upstream)
    } else {
        c3
    }
}

/// Build the "git worktree add" command for a worktree tree (see
/// `spec_worktree_add_command` and `spec_worktree_upstream`). `configured` is the
/// evaluated upstream configured for the branch, if any.
pub fn worktree_add_command(
    tree: &Tree,
    tree_path: &str,
    parent_path: &str,
    branch: &str,
    configured: &str,
) -> (r: Vec<String>)
    ensures
        strs_view(r@) == spec_worktree_add_command(
            tree_path@,
            parent_path@,
            branch@,
            spec_worktree_upstream(*tree, branch@, configured@),
        ),
{
    let mut cmd: Vec<String> = Vec::new();
    push_word(&mut cmd, owned("git"));
    push_word(&mut cmd, owned("worktree"));
    push_word(&mut cmd, owned("add"));
    assert(strs_view(cmd@) =~= seq!["git"@, "worktree"@, "add"@]);
    if !branch.is_empty() {
        push_word(&mut cmd, owned("--track"));
        push_word(&mut cmd, owned("-b"));
        push_word(&mut cmd, owned(branch));
    }
    match diff_paths(tree_path, parent_path) {
        Some(relative_path) => push_word(&mut cmd, relative_path),
        None => push_word(&mut cmd, owned(tree_path)),
    }
    if !branch.is_empty() {
        let upstream = if tree.branches.contains_key(branch) {
            owned(configured)
        } else {
            let with_slash = concat(tree.default_remote.as_str(), "/");
            concat(with_slash.as_str(), branch)
        };
        proof {
            crate::collections::lemma_entry_index(tree.branches@, branch@);
        }
        if !upstream.as_str().is_empty() {
            push_word(&mut cmd, upstream);
        }
    }
    cmd
}

/// The commands that configure a tree's remotes, in order: an existing remote has
/// its URL set; a new remote is added and set not to fetch tags.
pub open spec fn spec_remote_commands(existing: Seq<Seq<char>>, remotes: Seq<(Seq<char>, Seq<char>)>) -> Seq<
    Seq<Seq<char>>,
>
    decreases remotes.len(),
{
    if remotes.len() == 0 {
        Seq::empty()
    } else {
        let rest = spec_remote_commands(existing, remotes.drop_last());
        let (name, url) = remotes.last();
        if existing.contains(name) {
            rest.push(seq!["git"@, "config"@, "remote."@ + name + ".url"@, url])
        } else {
            rest.push(seq!["git"@, "remote"@, "add"@, name, url]).push(
                seq!["git"@, "config"@, "remote."@ + name + ".tagopt"@, "--no-tags"@],
            )
        }
    }
}

/// The plain view of a list of commands.
pub open spec fn commands_view(v: Seq<Vec<String>>) -> Seq<Seq<Seq<char>>> {
    v.map_values(|c: Vec<String>| strs_view(c@))
}

/// The plain view of a list of string pairs.
pub open spec fn pairs_view(v: Seq<(String, String)>) -> Seq<(Seq<char>, Seq<char>)> {
    v.map_values(|p: (String, String)| (p.0@, p.1@))
}

/// "remote.<name><key>"
fn remote_key(name: &str, key: &str) -> (r: String)
    ensures
        r@ == "remote."@ + name@ + key@,
{
    let a = concat("remote.", name);
    concat(a.as_str(), key)
}

/// Does the list hold the string?
fn contains_str(v: &Vec<String>, s: &str) -> (r: bool)
    ensures
        r == strs_view(v@).contains(s@),
{
    let mut i: usize = 0;
    while i < v.len()
        invariant
            i <= v@.len(),
            forall|j: int| 0 <= j < i ==> v@[j]@ != s@,
        decreases v@.len() - i,
    {
        if str_eq(v[i].as_str(), s) {
            assert(strs_view(v@)[i as int] == s@);
            return true;
        }
        i = i + 1;
    }
    proof {
        if strs_view(v@).contains(s@) {
            let k = choose|k: int| 0 <= k < strs_view(v@).len() && strs_view(v@)[k] == s@;
            assert(v@[k]@ == s@);
        }
    }
    false
}

/// Plan the commands that configure a tree's remotes (see `spec_remote_commands`);
/// `existing` holds the names of the repository's remotes and `remotes` the tree's
/// remotes with their evaluated URLs.
pub fn remote_commands(existing: &Vec<String>, remotes: &Vec<(String, String)>) -> (r: Vec<Vec<String>>)
    ensures
        commands_view(r@) == spec_remote_commands(strs_view(existing@), pairs_view(remotes@)),
{
    let mut commands: Vec<Vec<String>> = Vec::new();
    let mut i: usize = 0;
    while i < remotes.len()
        invariant
            i <= remotes@.len(),
            commands_view(commands@) == spec_remote_commands(
                strs_view(existing@),
                pairs_view(remotes@).take(i as int),
            ),
        decreases remotes@.len() - i,
    {
        assert(pairs_view(remotes@).take(i + 1).drop_last() =~= pairs_view(remotes@).take(i as int));
        let name = remotes[i].0.as_str();
        let url = remotes[i].1.as_str();
        let ghost before = commands@;
        if contains_str(existing, name) {
            let mut c: Vec<String> = Vec::new();
            push_word(&mut c, owned("git"));
            push_word(&mut c, owned("config"));
            push_word(&mut c, remote_key(name, ".url"));
            push_word(&mut c, owned(url));
            assert(strs_view(c@) =~= seq!["git"@, "config"@, "remote."@ + name@ + ".url"@, url@]);
            commands.push(c);
            assert(commands_view(commands@) =~= commands_view(before).push(strs_view(c@)));
        } else {
            let mut add: Vec<String> = Vec::new();
            push_word(&mut add, owned("git"));
            push_word(&mut add, owned("remote"));
            push_word(&mut add, owned("add"));
            push_word(&mut add, owned(name));
            push_word(&mut add, owned(url));
            assert(strs_view(add@) =~= seq!["git"@, "remote"@, "add"@, name@, url@]);
            let mut tags: Vec<String> = Vec::new();
            push_word(&mut tags, owned("git"));
            push_word(&mut tags, owned("config"));
            push_word(&mut tags, remote_key(name, ".tagopt"));
            push_word(&mut tags, owned("--no-tags"));
            assert(strs_view(tags@) =~= seq!["git"@, "config"@, "remote."@ + name@ + ".tagopt"@, "--no-tags"@]);
            commands.push(add);
            let ghost mid = commands@;
            commands.push(tags);
            assert(commands_view(commands@) =~= commands_view(before).push(strs_view(add@)).push(
                strs_view(tags@),
            ));
        }
        i = i + 1;
    }
    assert(pairs_view(remotes@).take(remotes@.len() as int) =~= pairs_view(remotes@));
    commands
}

/// The plain view of gitconfig values by name.
pub open spec fn cache_view(c: Seq<(Seq<char>, StringSet)>) -> Seq<(Seq<char>, Seq<Seq<char>>)> {
    entry_map_values(c, |s: StringSet| s@)
}

/// The values known for a gitconfig name: none when it has not been read.
pub open spec fn held_values(cv: Seq<(Seq<char>, Seq<Seq<char>>)>, name: Seq<char>) -> Seq<Seq<char>> {
    match entry_get(cv, name) {
        Some(values) => values,
        None => Seq::empty(),
    }
}

/// Whether "git config --add <name> <value>" runs, and the values known afterwards:
/// it runs only when the value is not known for the name, and the value is then known.
pub open spec fn spec_gitconfig_append(cv: Seq<(Seq<char>, Seq<Seq<char>>)>, name: Seq<char>, value: Seq<char>) -> (
    bool,
    Seq<(Seq<char>, Seq<Seq<char>>)>,
) {
    let held = held_values(cv, name);
    (!held.contains(value), entry_insert(cv, name, set_insert(held, value)))
}

/// The values that "git config --get-all" printed: its distinct lines, or none when
/// the command failed.
pub open spec fn recorded_values(output: Option<Seq<char>>) -> Seq<Seq<char>> {
    match output {
        Some(out) => set_append(Seq::empty(), spec_lines(out)),
        None => Seq::empty(),
    }
}

/// The values of multi-valued gitconfig settings: those that Git held when first
/// asked, and those added since.
pub struct GitConfigCache {
    pub values: OrderedMap<StringSet>,
}

impl GitConfigCache {
    /// A cache that knows no names.
    pub fn new() -> (c: Self)
        ensures
            c.values@.len() == 0,
    {
        GitConfigCache { values: OrderedMap::new() }
    }

    /// Must the values of `name` be read from Git ("git config --get-all") first?
    pub fn needs_query(&self, name: &str) -> (b: bool)
        ensures
            b == (entry_get(self.values@, name@) is None),
    {
        proof {
            crate::collections::lemma_entry_index(self.values@, name@);
        }
        !self.values.contains_key(name)
    }

    /// Record the output of "git config --get-all <name>" (`None` when it failed).
    pub fn record(&mut self, name: &str, output: Option<&str>)
        ensures
            cache_view(final(self).values@) == entry_insert(
                cache_view(old(self).values@),
                name@,
                recorded_values(
                    match output {
                        Some(o) => Some(o@),
                        None => None,
                    },
                ),
            ),
    {
        let mut set = StringSet::new();
        if let Some(out) = output {
            let all = lines(out);
            let ghost ls = strs_view(all@);
            let mut i: usize = 0;
            while i < all.len()
                invariant
                    ls == strs_view(all@),
                    i <= all@.len(),
                    set@ == set_append(Seq::empty(), ls.take(i as int)),
                decreases all@.len() - i,
            {
                assert(ls.take(i + 1).drop_last() =~= ls.take(i as int));
                set.insert(all[i].clone());
                i = i + 1;
            }
            assert(ls.take(all@.len() as int) =~= ls);
        }
        let ghost before = self.values@;
        self.values.insert(owned(name), set);
        proof {
            crate::collections::lemma_entry_insert_map(before, |s: StringSet| s@, name@, set);
        }
    }

    /// Decide whether "git config --add <name> <value>" runs (see
    /// `spec_gitconfig_append`).
    pub fn append(&mut self, name: &str, value: &str) -> (added: bool)
        ensures
            (added, cache_view(final(self).values@)) == spec_gitconfig_append(
                cache_view(old(self).values@),
                name@,
                value@,
            ),
    {
        let ghost before = self.values@;
        proof {
            crate::collections::lemma_entry_index(before, name@);
            crate::collections::lemma_entry_index_map(before, |s: StringSet| s@, name@);
        }
        match self.values.index_of(name) {
            Some(i) => {
                let held = self.values.value_at_mut(i);
                let ghost old_set = *held;
                if held.contains(value) {
                    proof {
                        assert(set_insert(old_set@, value@) == old_set@);
                        assert(self.values@ =~= before);
                        crate::collections::lemma_entry_insert_map(before, |s: StringSet| s@, name@, old_set);
                        assert(entry_insert(before, name@, old_set) =~= before);
                    }
                    false
                } else {
                    held.insert(owned(value));
                    proof {
                        assert(self.values@ =~= entry_insert(before, name@, *held));
                        crate::collections::lemma_entry_insert_map(before, |s: StringSet| s@, name@, *held);
                    }
                    true
                }
            },
            None => {
                let mut set = StringSet::new();
                set.insert(owned(value));
                assert(set@ =~= set_insert(Seq::empty(), value@));
                self.values.insert(owned(name), set);
                proof {
                    crate::collections::lemma_entry_insert_map(before, |s: StringSet| s@, name@, set);
                }
                true
            },
        }
    }
}

/// The command that applies one gitconfig value: a setting with a single value is
/// set; each value of a multi-valued setting is added unless it is already known
/// (see `spec_gitconfig_append`).
pub open spec fn spec_gitconfig_command(
    cv: Seq<(Seq<char>, Seq<Seq<char>>)>,
    name: Seq<char>,
    value: Seq<char>,
    multiple: bool,
) -> Option<Seq<Seq<char>>> {
    if !multiple {
        Some(seq!["git"@, "config"@, name, value])
    } else if spec_gitconfig_append(cv, name, value).0 {
        Some(seq!["git"@, "config"@, "--add"@, name, value])
    } else {
        None
    }
}

/// The command that applies one value of a tree's gitconfig setting, if any (see
/// `spec_gitconfig_command`). For a multi-valued setting, the caller records what
/// Git holds for the name first when `needs_query` says so.
pub fn gitconfig_command(cache: &mut GitConfigCache, name: &str, value: &str, multiple: bool) -> (r: Option<
    Vec<String>,
>)
    ensures
        match r {
            Some(c) => spec_gitconfig_command(cache_view(old(cache).values@), name@, value@, multiple) == Some(
                strs_view(c@),
            ),
            None => spec_gitconfig_command(cache_view(old(cache).values@), name@, value@, multiple) is None,
        },
        cache_view(final(cache).values@) == (if multiple {
            spec_gitconfig_append(cache_view(old(cache).values@), name@, value@).1
        } else {
            cache_view(old(cache).values@)
        }),
{
    let mut c: Vec<String> = Vec::new();
    push_word(&mut c, owned("git"));
    push_word(&mut c, owned("config"));
    if !multiple {
        push_word(&mut c, owned(name));
        push_word(&mut c, owned(value));
        assert(strs_view(c@) =~= seq!["git"@, "config"@, name@, value@]);
        return Some(c);
    }
    if cache.append(name, value) {
        push_word(&mut c, owned("--add"));
        push_word(&mut c, owned(name));
        push_word(&mut c, owned(value));
        assert(strs_view(c@) =~= seq!["git"@, "config"@, "--add"@, name@, value@]);
        Some(c)
    } else {
        None
    }
}

/// A value of a multi-valued gitconfig setting is added at most once: once added,
/// adding it again runs no command.
pub proof fn law_gitconfig_value_added_once(
    cv: Seq<(Seq<char>, Seq<Seq<char>>)>,
    name: Seq<char>,
    value: Seq<char>,
)
    ensures
        spec_gitconfig_command(spec_gitconfig_append(cv, name, value).1, name, value, true) is None,
{
    let held = held_values(cv, name);
    let after = spec_gitconfig_append(cv, name, value).1;
    crate::collections::lemma_entry_get_insert(cv, name, set_insert(held, value), name);
    assert(held_values(after, name) == set_insert(held, value));
    if !held.contains(value) {
        assert(set_insert(held, value)[held.len() as int] == value);
    }
}

/// Appending the same value of a gitconfig setting twice: the second time runs
/// nothing and leaves the known values as the first left them, which hold the value
/// once.
pub proof fn law_gitconfig_append_repeat(
    cv: Seq<(Seq<char>, Seq<Seq<char>>)>,
    name: Seq<char>,
    value: Seq<char>,
)
    ensures
        !spec_gitconfig_append(spec_gitconfig_append(cv, name, value).1, name, value).0,
        spec_gitconfig_append(spec_gitconfig_append(cv, name, value).1, name, value).1 =~~=
            spec_gitconfig_append(cv, name, value).1,
        held_values(spec_gitconfig_append(cv, name, value).1, name) == set_insert(held_values(cv, name), value),
{
    let held = held_values(cv, name);
    let after = spec_gitconfig_append(cv, name, value).1;
    crate::collections::lemma_entry_get_insert(cv, name, set_insert(held, value), name);
    assert(held_values(after, name) == set_insert(held, value));
    if !held.contains(value) {
        assert(set_insert(held, value)[held.len() as int] == value);
    }
    assert(set_insert(set_insert(held, value), value) == set_insert(held, value));
    lemma_entry_insert_same(after, name, set_insert(held, value));
}

/// Inserting the value already stored under a key changes nothing.
proof fn lemma_entry_insert_same(m: Seq<(Seq<char>, Seq<Seq<char>>)>, k: Seq<char>, v: Seq<Seq<char>>)
    requires
        entry_get(m, k) == Some(v),
    ensures
        entry_insert(m, k, v) =~~= m,
{
    crate::collections::lemma_entry_index(m, k);
    let i = entry_index(m, k)->0;
    assert(m[i] == (k, v));
    assert(entry_insert(m, k, v) =~= m.update(i, (k, v)));
}

/// The command that names the default remote in the repository's configuration,
/// when the tree's default remote is not "origin".
pub fn default_remote_command(tree: &Tree) -> (r: Option<Vec<String>>)
    ensures
        tree.default_remote@ == constants::ORIGIN@ ==> r is None,
        tree.default_remote@ != constants::ORIGIN@ ==> (r matches Some(c) && strs_view(c@) == seq![
            "git"@,
            "config"@,
            "checkout.defaultRemoteName"@,
            tree.default_remote@,
        ]),
{
    if str_eq(tree.default_remote.as_str(), constants::ORIGIN) {
        return None;
    }
    let mut c: Vec<String> = Vec::new();
    push_word(&mut c, owned("git"));
    push_word(&mut c, owned("config"));
    push_word(&mut c, owned("checkout.defaultRemoteName"));
    push_word(&mut c, tree.default_remote.clone());
    assert(strs_view(c@) =~= seq!["git"@, "config"@, "checkout.defaultRemoteName"@, tree.default_remote@]);
    Some(c)
}

/// The commands that create a tree's tracking branches and check out the branch a
/// new clone asked for: a configured branch missing from the repository is created
/// from its evaluated remote branch when that is not empty; the requested branch is
/// checked out when it is a configured branch.
pub open spec fn spec_branch_commands(
    existing: Seq<Seq<char>>,
    branches: Seq<(Seq<char>, Seq<char>)>,
    checkout: Option<Seq<char>>,
) -> Seq<Seq<Seq<char>>> {
    let created = spec_tracking_commands(existing, branches);
    match checkout {
        Some(b) => if entry_index(branches, b) is Some {
            created.push(seq!["git"@, "checkout"@, b])
        } else {
            created
        },
        None => created,
    }
}

/// The "git branch --track" commands for configured branches (see
/// `spec_branch_commands`).
pub open spec fn spec_tracking_commands(existing: Seq<Seq<char>>, branches: Seq<(Seq<char>, Seq<char>)>) -> Seq<
    Seq<Seq<char>>,
>
    decreases branches.len(),
{
    if branches.len() == 0 {
        Seq::empty()
    } else {
        let rest = spec_tracking_commands(existing, branches.drop_last());
        let (branch, remote_branch) = branches.last();
        if !existing.contains(branch) && remote_branch.len() > 0 {
            rest.push(seq!["git"@, "branch"@, "--track"@, branch, remote_branch])
        } else {
            rest
        }
    }
}

/// Plan the branch commands (see `spec_branch_commands`). `existing` holds the
/// repository's branches and `branches` the tree's configured branches with their
/// evaluated remote branches.
pub fn branch_commands(existing: &Vec<String>, branches: &Vec<(String, String)>, checkout: Option<&str>) -> (r: Vec<
    Vec<String>,
>)
    ensures
        commands_view(r@) == spec_branch_commands(
            strs_view(existing@),
            pairs_view(branches@),
            match checkout {
                Some(b) => Some(b@),
                None => None,
            },
        ),
{
    let mut commands: Vec<Vec<String>> = Vec::new();
    let mut i: usize = 0;
    let mut found = false;
    while i < branches.len()
        invariant
            i <= branches@.len(),
            commands_view(commands@) == spec_tracking_commands(
                strs_view(existing@),
                pairs_view(branches@).take(i as int),
            ),
            found == (checkout matches Some(b) && (exists|j: int| 0 <= j < i && pairs_view(branches@)[j].0 == b@)),
        decreases branches@.len() - i,
    {
        assert(pairs_view(branches@).take(i + 1).drop_last() =~= pairs_view(branches@).take(i as int));
        let branch = branches[i].0.as_str();
        let remote_branch = branches[i].1.as_str();
        if let Some(b) = checkout {
            if str_eq(branch, b) {
                assert(pairs_view(branches@)[i as int].0 == b@);
                found = true;
            }
        }
        if !contains_str(existing, branch) && !remote_branch.is_empty() {
            let mut c: Vec<String> = Vec::new();
            push_word(&mut c, owned("git"));
            push_word(&mut c, owned("branch"));
            push_word(&mut c, owned("--track"));
            push_word(&mut c, owned(branch));
            push_word(&mut c, owned(remote_branch));
            assert(strs_view(c@) =~= seq!["git"@, "branch"@, "--track"@, branch@, remote_branch@]);
            let ghost before = commands@;
            commands.push(c);
            assert(commands_view(commands@) =~= commands_view(before).push(strs_view(c@)));
        }
        i = i + 1;
    }
    assert(pairs_view(branches@).take(branches@.len() as int) =~= pairs_view(branches@));
    if let Some(b) = checkout {
        proof {
            crate::collections::lemma_entry_index(pairs_view(branches@), b@);
            if entry_index(pairs_view(branches@), b@) is Some {
                let k = entry_index(pairs_view(branches@), b@)->0;
                assert(pairs_view(branches@)[k].0 == b@);
            }
        }
        if found {
            let mut c: Vec<String> = Vec::new();
            push_word(&mut c, owned("git"));
            push_word(&mut c, owned("checkout"));
            push_word(&mut c, owned(b));
            assert(strs_view(c@) =~= seq!["git"@, "checkout"@, b@]);
            let ghost before = commands@;
            commands.push(c);
            assert(commands_view(commands@) =~= commands_view(before).push(strs_view(c@)));
        }
    }
    commands
}

/// How "garden grow" brings a tree into existence.
#[derive(PartialEq, Eq, Structural, Clone, Copy, Debug)]
pub enum GrowStep {
    /// The path exists: configure the existing repository.
    Update,
    /// Create the symlink of a symlink tree.
    Symlink,
    /// Create the worktree from its parent tree.
    Worktree,
    /// Nothing to clone: the tree has no URL for its default remote.
    NoRemote,
    /// Clone the URL of the default remote.
    Clone,
}

/// The way a tree is grown: an existing path is updated; otherwise a symlink tree is
/// linked, a worktree is added to its parent, and any other tree is cloned from its
/// default remote when it has one.
pub fn grow_step(tree: &Tree, path_exists: bool) -> (r: GrowStep)
    ensures
        r == (if path_exists {
            GrowStep::Update
        } else if tree.is_symlink {
            GrowStep::Symlink
        } else if tree.is_worktree {
            GrowStep::Worktree
        } else if entry_index(tree.remotes@, tree.default_remote@) is None {
            GrowStep::NoRemote
        } else {
            GrowStep::Clone
        }),
{
    if path_exists {
        GrowStep::Update
    } else if tree.is_symlink {
        GrowStep::Symlink
    } else if tree.is_worktree {
        GrowStep::Worktree
    } else if !tree.remotes.contains_key(tree.default_remote.as_str()) {
        GrowStep::NoRemote
    } else {
        GrowStep::Clone
    }
}

/// The link of a symlink tree: its path and its target, both set and non-empty.
pub open spec fn spec_symlink_paths(tree: Tree) -> Option<(Seq<char>, Seq<char>)> {
    match (tree.path_of().value_of(), tree.symlink.value_of()) {
        (Some(path), Some(target)) => if tree.is_symlink && path.len() > 0 && target.len() > 0 {
            Some((path, target))
        } else {
            None
        },
        _ => None,
    }
}

/// The path and target of a symlink tree's link; a configuration error unless the
/// tree is a symlink tree whose path and target are set and non-empty.
pub fn symlink_paths(tree: &Tree) -> (r: Result<(String, String), GardenError>)
    ensures
        match spec_symlink_paths(*tree) {
            Some((path, target)) => r matches Ok((p, t)) && p@ == path && t@ == target,
            None => r matches Err(GardenError::ConfigurationError(_)),
        },
{
    if !tree.is_symlink {
        return Err(GardenError::ConfigurationError(concat("invalid symlink: ", tree.name.as_str())));
    }
    let path = tree.path_as_ref()?;
    if path.as_str().unicode_len() == 0 {
        return Err(GardenError::ConfigurationError(concat("invalid symlink: ", tree.name.as_str())));
    }
    let target = tree.symlink_as_ref()?;
    if target.as_str().unicode_len() == 0 {
        return Err(GardenError::ConfigurationError(concat("invalid symlink: ", tree.name.as_str())));
    }
    Ok((path.clone(), target.clone()))
}

/// The target written into a symlink at `path`: relative to the link's directory when
/// the target lies under it, else the target as given. Fails when the path has no
/// parent directory.
pub fn symlink_target(path: &str, target: &str) -> (r: Result<String, GardenError>)
    ensures
        match spec_path_parent(path@) {
            Some(parent) => r matches Ok(t) && t@ == (if spec_path_starts_with(target@, parent) {
                spec_path_strip_prefix(target@, parent)
            } else {
                target@
            }),
            None => r matches Err(GardenError::AssertionError(_)),
        },
{
    match path_parent(path) {
        Some(parent) => Ok(strip_prefix(parent.as_str(), target)),
        None => Err(GardenError::AssertionError(concat("parent() failed: ", path))),
    }
}

/// Record that the repository at `shared` (the path that a tree and its worktrees
/// share) is being configured. A repository is configured once per run: only the
/// first tree that shares it does so. Returns whether this is that first tree.
pub fn configure_once(configured: &mut StringSet, shared: String) -> (first: bool)
    ensures
        first == !old(configured)@.contains(shared@),
        final(configured)@ == set_insert(old(configured)@, shared@),
{
    configured.insert(shared)
}

} // verus!

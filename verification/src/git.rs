//! Reading the output of Git commands.
use vstd::prelude::*;

use crate::model::{GitTreeDetails, GitTreeType};
use crate::path::{after_last, after_last_exec, lemma_after_last, path_file_name, spec_path_file_name};
use crate::query::{canon_of, CanonicalPaths};
use crate::text::{chars_of, push_char, seq_ends_with, seq_starts_with, string_from_range};

verus! {

/// Line-splitting state over a prefix: the completed lines and the line being read.
pub open spec fn lines_fold(s: Seq<char>) -> (Seq<Seq<char>>, Seq<char>)
    decreases s.len(),
{
    if s.len() == 0 {
        (Seq::empty(), Seq::empty())
    } else {
        let (done, cur) = lines_fold(s.drop_last());
        if s.last() == '\n' {
            (done.push(strip_cr(cur)), Seq::empty())
        } else {
            (done, cur.push(s.last()))
        }
    }
}

/// A line without the carriage return of a "\r\n" ending.
pub open spec fn strip_cr(line: Seq<char>) -> Seq<char> {
    if line.len() > 0 && line.last() == '\r' {
        line.drop_last()
    } else {
        line
    }
}

/// The lines of a text, as `str::lines` gives them: split at "\n" (or "\r\n"), with
/// an optional final line ending.
pub open spec fn spec_lines(s: Seq<char>) -> Seq<Seq<char>> {
    let (done, cur) = lines_fold(s);
    if cur.len() > 0 {
        done.push(cur)
    } else {
        done
    }
}

/// The plain view of a list of strings.
pub open spec fn strs_view(v: Seq<String>) -> Seq<Seq<char>> {
    v.map_values(|s: String| s@)
}

/// Remove a trailing carriage return.
fn strip_cr_exec(line: String) -> (r: String)
    ensures
        r@ == strip_cr(line@),
{
    let v = chars_of(line.as_str());
    let n = v.len();
    if n > 0 && v[n - 1] == '\r' {
        let r = string_from_range(&v, 0, n - 1);
        assert(r@ =~= line@.drop_last());
        r
    } else {
        line
    }
}

/// The lines of a text (see `spec_lines`).
pub fn lines(s: &str) -> (r: Vec<String>)
    ensures
        strs_view(r@) == spec_lines(s@),
{
    let chars = chars_of(s);
    let mut done: Vec<String> = Vec::new();
    let mut cur = String::new();
    let mut i: usize = 0;
    while i < chars.len()
        invariant
            chars@ == s@,
            i <= chars@.len(),
            (strs_view(done@), cur@) == lines_fold(chars@.take(i as int)),
        decreases chars@.len() - i,
    {
        assert(chars@.take(i + 1).drop_last() =~= chars@.take(i as int));
        let c = chars[i];
        if c == '\n' {
            let ghost before = done@;
            let line = strip_cr_exec(cur);
            done.push(line);
            assert(strs_view(done@) =~= strs_view(before).push(line@));
            cur = String::new();
        } else {
            push_char(&mut cur, c);
        }
        i = i + 1;
    }
    assert(chars@.take(chars@.len() as int) =~= chars@);
    if cur.as_str().unicode_len() > 0 {
        let ghost before = done@;
        let last = cur;
        done.push(last);
        assert(strs_view(done@) =~= strs_view(before).push(last@));
    }
    done
}

/// The current branch names from "git for-each-ref" output: its non-empty lines.
pub fn branches(output: &str) -> (r: Vec<String>)
    ensures
        strs_view(r@) == spec_lines(output@).filter(|l: Seq<char>| l.len() > 0),
{
    let all = lines(output);
    let mut branches: Vec<String> = Vec::new();
    let ghost ls = strs_view(all@);
    let mut i: usize = 0;
    while i < all.len()
        invariant
            ls == strs_view(all@),
            i <= all@.len(),
            strs_view(branches@) == ls.take(i as int).filter(|l: Seq<char>| l.len() > 0),
        decreases all@.len() - i,
    {
        proof {
            assert(ls.take(i + 1).drop_last() =~= ls.take(i as int));
            reveal(Seq::filter);
        }
        if all[i].as_str().unicode_len() > 0 {
            let ghost before = branches@;
            branches.push(all[i].clone());
            assert(strs_view(branches@) =~= strs_view(before).push(ls[i as int]));
        }
        i = i + 1;
    }
    assert(ls.take(all@.len() as int) =~= ls);
    branches
}

/// A path made absolute: its canonical form when known, else the path itself.
pub open spec fn abspath_of(paths: CanonicalPaths, p: Seq<char>) -> Seq<char> {
    match canon_of(paths, p) {
        Some(c) => c,
        None => p,
    }
}

/// The state of reading "git worktree list --porcelain": worktrees seen, the first
/// (parent) worktree, the branch and bare flag of the worktree at `path`, and whether
/// the worktree being read is the one at `path`.
pub type WorktreeScan = (nat, Seq<char>, Seq<char>, bool, bool);

/// Read one line of "git worktree list --porcelain" output.
pub open spec fn worktree_scan_line(st: WorktreeScan, line: Seq<char>, path: Seq<char>, paths: CanonicalPaths) -> WorktreeScan {
    let (count, parent, branch, is_current, is_bare) = st;
    if seq_starts_with(line, "worktree "@) {
        let current = abspath_of(paths, line.subrange("worktree "@.len() as int, line.len() as int));
        (count + 1, if count == 0 {
            current
        } else {
            parent
        }, branch, current == path, is_bare)
    } else if is_current && seq_starts_with(line, "branch refs/heads/"@) {
        (count, parent, line.subrange("branch refs/heads/"@.len() as int, line.len() as int), is_current, is_bare)
    } else if is_current && line == "bare"@ {
        (count, parent, branch, is_current, true)
    } else {
        st
    }
}

/// Read lines of "git worktree list --porcelain" output.
pub open spec fn worktree_scan(lines: Seq<Seq<char>>, path: Seq<char>, paths: CanonicalPaths) -> WorktreeScan
    decreases lines.len(),
{
    if lines.len() == 0 {
        (0, Seq::empty(), Seq::empty(), false, false)
    } else {
        worktree_scan_line(worktree_scan(lines.drop_last(), path, paths), lines.last(), path, paths)
    }
}

/// The plain view of a tree type.
pub open spec fn tree_type_view(t: GitTreeType) -> (int, Seq<char>) {
    match t {
        GitTreeType::Parent => (0, Seq::empty()),
        GitTreeType::Worktree(p) => (1, p@),
        GitTreeType::Tree => (2, Seq::empty()),
        GitTreeType::Bare => (3, Seq::empty()),
    }
}

/// The details of the worktree at `path` from "git worktree list --porcelain" output:
/// with fewer than two worktrees it is a regular (or bare) repository; the first
/// worktree is the parent; any other is a worktree of the parent.
pub open spec fn spec_worktree_details(output: Seq<char>, path: Seq<char>, paths: CanonicalPaths) -> (Seq<char>, (int, Seq<char>)) {
    let (count, parent, branch, _, is_bare) = worktree_scan(spec_lines(output), path, paths);
    (branch, if count < 2 {
        if is_bare {
            (3, Seq::empty())
        } else {
            (2, Seq::empty())
        }
    } else if path == parent {
        (0, Seq::empty())
    } else {
        (1, parent)
    })
}

/// The text after a prefix, when the text starts with it.
fn strip_prefix(v: &Vec<char>, prefix: &str) -> (r: Option<String>)
    ensures
        seq_starts_with(v@, prefix@) ==> (r matches Some(s) && s@ == v@.subrange(prefix@.len() as int, v@.len() as int)),
        !seq_starts_with(v@, prefix@) ==> r is None,
{
    let p = chars_of(prefix);
    if crate::text::starts_with(v, &p) {
        Some(string_from_range(v, p.len(), v.len()))
    } else {
        None
    }
}

/// Read the details of the worktree at `path` (an absolute path) from the output of
/// "git worktree list --porcelain" (see `spec_worktree_details`).
pub fn worktree_details(output: &str, path: &str, paths: &CanonicalPaths) -> (r: GitTreeDetails)
    ensures
        (r.branch@, tree_type_view(r.tree_type)) == spec_worktree_details(output@, path@, *paths),
{
    let all = lines(output);
    let ghost ls = strs_view(all@);
    let mut worktree_count: usize = 0;
    let mut parent_path = String::new();
    let mut branch = String::new();
    let mut is_current = false;
    let mut is_bare = false;
    let mut i: usize = 0;
    while i < all.len()
        invariant
            ls == strs_view(all@),
            i <= all@.len(),
            worktree_count <= i,
            (worktree_count as nat, parent_path@, branch@, is_current, is_bare) == worktree_scan(
                ls.take(i as int),
                path@,
                *paths,
            ),
        decreases all@.len() - i,
    {
        proof {
            assert(ls.take(i + 1).drop_last() =~= ls.take(i as int));
        }
        let line = chars_of(all[i].as_str());
        assert(line@ == ls[i as int]);
        if let Some(worktree) = strip_prefix(&line, "worktree ") {
            let current_path = match paths.paths.get(worktree.as_str()) {
                Some(c) => c.clone(),
                None => worktree,
            };
            is_current = crate::text::str_eq(current_path.as_str(), path);
            // The first worktree is the "parent" worktree.
            if worktree_count == 0 {
                parent_path = current_path;
            }
            worktree_count = worktree_count + 1;
        } else if is_current && crate::text::starts_with(&line, &chars_of("branch refs/heads/")) {
            let rest = strip_prefix(&line, "branch refs/heads/");
            match rest {
                Some(b) => {
                    branch = b;
                },
                None => {},
            }
        } else if is_current && crate::text::str_eq(all[i].as_str(), "bare") {
            is_bare = true;
        }
        i = i + 1;
    }
    assert(ls.take(all@.len() as int) =~= ls);
    let tree_type = if worktree_count < 2 {
        if is_bare {
            GitTreeType::Bare
        } else {
            GitTreeType::Tree
        }
    } else if crate::text::str_eq(path, parent_path.as_str()) {
        GitTreeType::Parent
    } else {
        GitTreeType::Worktree(parent_path)
    };
    GitTreeDetails { branch, tree_type }
}

/// The paths named on the "worktree <path>" lines of "git worktree list --porcelain"
/// output, in order.
pub open spec fn spec_worktree_paths(lines: Seq<Seq<char>>) -> Seq<Seq<char>>
    decreases lines.len(),
{
    if lines.len() == 0 {
        Seq::empty()
    } else {
        let rest = spec_worktree_paths(lines.drop_last());
        let line = lines.last();
        if seq_starts_with(line, "worktree "@) {
            rest.push(line.subrange("worktree "@.len() as int, line.len() as int))
        } else {
            rest
        }
    }
}

/// The worktree paths listed in "git worktree list --porcelain" output: the paths whose
/// canonical forms `worktree_details` looks up.
pub fn worktree_paths(output: &str) -> (r: Vec<String>)
    ensures
        strs_view(r@) == spec_worktree_paths(spec_lines(output@)),
{
    let all = lines(output);
    let ghost ls = strs_view(all@);
    let mut paths: Vec<String> = Vec::new();
    let mut i: usize = 0;
    while i < all.len()
        invariant
            ls == strs_view(all@),
            i <= all@.len(),
            strs_view(paths@) == spec_worktree_paths(ls.take(i as int)),
        decreases all@.len() - i,
    {
        assert(ls.take(i + 1).drop_last() =~= ls.take(i as int));
        let line = chars_of(all[i].as_str());
        assert(line@ == ls[i as int]);
        if let Some(path) = strip_prefix(&line, "worktree ") {
            let ghost before = paths@;
            paths.push(path);
            assert(strs_view(paths@) =~= strs_view(before).push(path@));
        }
        i = i + 1;
    }
    assert(ls.take(all@.len() as int) =~= ls);
    paths
}

/// A string without every trailing copy of a suffix (`str::trim_end_matches`).
pub open spec fn trim_end_all(s: Seq<char>, suffix: Seq<char>) -> Seq<char>
    decreases s.len(),
{
    if suffix.len() > 0 && seq_ends_with(s, suffix) {
        trim_end_all(s.subrange(0, s.len() - suffix.len()), suffix)
    } else {
        s
    }
}

/// A default tree name: the last "/" component of a URL without ".git" suffixes, or
/// else the final component of the path, or ".".
pub open spec fn spec_name_from_url_or_path(url: Seq<char>, path: Seq<char>) -> Seq<char> {
    if url.len() > 0 {
        trim_end_all(url.subrange(after_last(url, '/'), url.len() as int), ".git"@)
    } else {
        match spec_path_file_name(path) {
            Some(name) => name,
            None => "."@,
        }
    }
}

/// Return a sensible default name for a tree (see `spec_name_from_url_or_path`).
pub fn name_from_url_or_path(url: &str, path: &str) -> (r: String)
    ensures
        r@ == spec_name_from_url_or_path(url@, path@),
{
    let v = chars_of(url);
    if v.len() > 0 {
        let start = after_last_exec(&v, '/');
        proof {
            lemma_after_last(v@, '/');
        }
        let name = chars_of(string_from_range(&v, start, v.len()).as_str());
        let suffix = chars_of(".git");
        proof {
            reveal_strlit(".git");
        }
        let mut n = name.len();
        assert(name@.take(n as int) =~= name@);
        while n >= suffix.len() && crate::text::ends_with(&take_chars(&name, n), &suffix)
            invariant
                n <= name@.len(),
                suffix@ == ".git"@,
                suffix@.len() == 4,
                name@ == v@.subrange(after_last(v@, '/'), v@.len() as int),
                trim_end_all(name@.take(n as int), suffix@) == trim_end_all(
                    v@.subrange(after_last(v@, '/'), v@.len() as int),
                    suffix@,
                ),
            decreases n,
        {
            assert(name@.take(n as int).subrange(0, n - suffix@.len()) =~= name@.take(n - suffix@.len()));
            n = n - suffix.len();
        }
        return string_from_range(&name, 0, n);
    }
    match path_file_name(path) {
        Some(name) => name,
        None => crate::text::owned("."),
    }
}

/// The first `n` characters.
fn take_chars(v: &Vec<char>, n: usize) -> (r: Vec<char>)
    requires
        n <= v@.len(),
    ensures
        r@ == v@.take(n as int),
{
    let mut r: Vec<char> = Vec::new();
    let mut i: usize = 0;
    while i < n
        invariant
            i <= n <= v@.len(),
            r@ == v@.take(i as int),
        decreases n - i,
    {
        r.push(v[i]);
        assert(r@ =~= v@.take(i + 1));
        i = i + 1;
    }
    r
}

/// A "worktree <p>" line of `git worktree list --porcelain` output names a
/// worktree at (the absolute form of) `path`.
pub open spec fn names_worktree(line: Seq<char>, path: Seq<char>, paths: CanonicalPaths) -> bool {
    seq_starts_with(line, "worktree "@) && abspath_of(paths, line.subrange("worktree "@.len() as int, line.len() as int))
        == path
}

proof fn lemma_current_in_stanza(ls: Seq<Seq<char>>, path: Seq<char>, paths: CanonicalPaths, i: int, j: int, n: int)
    requires
        0 <= i < n <= j <= ls.len(),
        names_worktree(ls[i], path, paths),
        forall|k: int| i < k < j ==> !seq_starts_with(#[trigger] ls[k], "worktree "@),
    ensures
        worktree_scan(ls.take(n), path, paths).3,
    decreases n,
{
    assert(ls.take(n).drop_last() =~= ls.take(n - 1));
    assert(ls.take(n).last() == ls[n - 1]);
    if n > i + 1 {
        lemma_current_in_stanza(ls, path, paths, i, j, n - 1);
        assert(!seq_starts_with(ls[n - 1], "worktree "@));
    }
}

proof fn lemma_branch_kept(ls: Seq<Seq<char>>, path: Seq<char>, paths: CanonicalPaths, i: int, j: int, n: int)
    requires
        0 <= i < j < n <= ls.len(),
        names_worktree(ls[i], path, paths),
        seq_starts_with(ls[j], "branch refs/heads/"@),
        forall|k: int| i < k < j ==> !seq_starts_with(#[trigger] ls[k], "worktree "@),
        forall|k: int|
            j < k < ls.len() && seq_starts_with(#[trigger] ls[k], "worktree "@) ==> !names_worktree(ls[k], path, paths),
        forall|k: int|
            j < k < ls.len() && seq_starts_with(#[trigger] ls[k], "branch refs/heads/"@) ==> exists|m: int|
                j < m < k && seq_starts_with(#[trigger] ls[m], "worktree "@),
    ensures
        worktree_scan(ls.take(n), path, paths).2 == ls[j].subrange("branch refs/heads/"@.len() as int, ls[j].len() as int),
        worktree_scan(ls.take(n), path, paths).3 ==> forall|m: int| j < m < n ==> !seq_starts_with(#[trigger] ls[m], "worktree "@),
    decreases n,
{
    reveal_strlit("worktree ");
    reveal_strlit("branch refs/heads/");
    assert(ls.take(n).drop_last() =~= ls.take(n - 1));
    assert(ls.take(n).last() == ls[n - 1]);
    let line = ls[n - 1];
    if seq_starts_with(line, "branch refs/heads/"@) {
        assert(line.subrange(0, 1) == "branch refs/heads/"@.subrange(0, 1));
        assert(!seq_starts_with(line, "worktree "@)) by {
            if seq_starts_with(line, "worktree "@) {
                assert(line.subrange(0, 1) == "worktree "@.subrange(0, 1));
                assert(line[0] == line.subrange(0, 1)[0]);
            }
        }
    }
    if n == j + 1 {
        lemma_current_in_stanza(ls, path, paths, i, j, j);
    } else {
        lemma_branch_kept(ls, path, paths, i, j, n - 1);
        if seq_starts_with(line, "branch refs/heads/"@) {
            let m = choose|m: int| j < m < n - 1 && seq_starts_with(#[trigger] ls[m], "worktree "@);
            assert(!worktree_scan(ls.take(n - 1), path, paths).3);
        }
    }
}

/// The branch of the worktree at `path`: the branch reported is the one on the
/// "branch refs/heads/" line of the stanza whose "worktree" line names `path`
/// (line `i`, branch on line `j`); the stanzas of other worktrees after it never
/// change it.
pub proof fn law_branch_of_worktree_at_path(output: Seq<char>, path: Seq<char>, paths: CanonicalPaths, i: int, j: int)
    requires
        0 <= i < j < spec_lines(output).len(),
        names_worktree(spec_lines(output)[i], path, paths),
        seq_starts_with(spec_lines(output)[j], "branch refs/heads/"@),
        forall|k: int| i < k < j ==> !seq_starts_with(#[trigger] spec_lines(output)[k], "worktree "@),
        forall|k: int|
            j < k < spec_lines(output).len() && seq_starts_with(#[trigger] spec_lines(output)[k], "worktree "@)
                ==> !names_worktree(spec_lines(output)[k], path, paths),
        forall|k: int|
            j < k < spec_lines(output).len() && seq_starts_with(
                #[trigger] spec_lines(output)[k],
                "branch refs/heads/"@,
            ) ==> exists|m: int| j < m < k && seq_starts_with(#[trigger] spec_lines(output)[m], "worktree "@),
    ensures
        spec_worktree_details(output, path, paths).0 == spec_lines(output)[j].subrange(
            "branch refs/heads/"@.len() as int,
            spec_lines(output)[j].len() as int,
        ),
{
    let ls = spec_lines(output);
    lemma_branch_kept(ls, path, paths, i, j, ls.len() as int);
    assert(ls.take(ls.len() as int) =~= ls);
}

proof fn lemma_scan_before_worktrees(ls: Seq<Seq<char>>, path: Seq<char>, paths: CanonicalPaths, n: int)
    requires
        0 <= n <= ls.len(),
        forall|k: int| 0 <= k < n ==> !seq_starts_with(#[trigger] ls[k], "worktree "@),
    ensures
        worktree_scan(ls.take(n), path, paths).0 == 0,
    decreases n,
{
    if n > 0 {
        assert(ls.take(n).drop_last() =~= ls.take(n - 1));
        assert(ls.take(n).last() == ls[n - 1]);
        lemma_scan_before_worktrees(ls, path, paths, n - 1);
    }
}

proof fn lemma_scan_parent(ls: Seq<Seq<char>>, path: Seq<char>, paths: CanonicalPaths, i0: int, n: int)
    requires
        0 <= i0 < n <= ls.len(),
        seq_starts_with(ls[i0], "worktree "@),
        forall|k: int| 0 <= k < i0 ==> !seq_starts_with(#[trigger] ls[k], "worktree "@),
    ensures
        worktree_scan(ls.take(n), path, paths).0 >= 1,
        worktree_scan(ls.take(n), path, paths).1 == abspath_of(
            paths,
            ls[i0].subrange("worktree "@.len() as int, ls[i0].len() as int),
        ),
        forall|k: int|
            i0 < k < n && seq_starts_with(#[trigger] ls[k], "worktree "@) ==> worktree_scan(ls.take(n), path, paths).0
                >= 2,
    decreases n,
{
    assert(ls.take(n).drop_last() =~= ls.take(n - 1));
    assert(ls.take(n).last() == ls[n - 1]);
    if n == i0 + 1 {
        lemma_scan_before_worktrees(ls, path, paths, i0);
    } else {
        lemma_scan_parent(ls, path, paths, i0, n - 1);
    }
}

/// The first worktree listed is the parent: with at least two worktrees listed,
/// the repository at `path` is the parent when `path` is the first worktree's
/// (absolute) path, else a worktree of that parent.
pub proof fn law_first_worktree_is_parent(output: Seq<char>, path: Seq<char>, paths: CanonicalPaths, i0: int, i1: int)
    requires
        0 <= i0 < i1 < spec_lines(output).len(),
        seq_starts_with(spec_lines(output)[i0], "worktree "@),
        seq_starts_with(spec_lines(output)[i1], "worktree "@),
        forall|k: int| 0 <= k < i0 ==> !seq_starts_with(#[trigger] spec_lines(output)[k], "worktree "@),
    ensures
        ({
            let first = abspath_of(
                paths,
                spec_lines(output)[i0].subrange("worktree "@.len() as int, spec_lines(output)[i0].len() as int),
            );
            spec_worktree_details(output, path, paths).1 == if path == first {
                (0int, Seq::<char>::empty())
            } else {
                (1int, first)
            }
        }),
{
    let ls = spec_lines(output);
    lemma_scan_parent(ls, path, paths, i0, ls.len() as int);
    assert(ls.take(ls.len() as int) =~= ls);
}

} // verus!

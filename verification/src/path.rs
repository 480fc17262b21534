//! Path-string utilities (Unix path syntax).
use vstd::prelude::*;
use vstd::string::StrSliceExecFns;

use crate::constants;
use crate::text::{chars_of, concat, owned, push_char, str_eq, string_from_range};

verus! {

/// A path is absolute when it starts with the root directory.
pub open spec fn spec_is_absolute(p: Seq<char>) -> bool {
    p.len() > 0 && p[0] == '/'
}

/// `base` extended by `p` (`PathBuf::push`): an absolute `p` replaces `base`; otherwise
/// `p` is appended, with a separator unless `base` is empty or already ends in one.
pub open spec fn spec_path_push(base: Seq<char>, p: Seq<char>) -> Seq<char> {
    if spec_is_absolute(p) {
        p
    } else if base.len() > 0 && base.last() != '/' {
        base.push('/') + p
    } else {
        base + p
    }
}

/// Is the path string absolute?
pub fn is_absolute(path: &str) -> (b: bool)
    ensures
        b == spec_is_absolute(path@),
{
    path.unicode_len() > 0 && path.get_char(0) == '/'
}

/// Join a path onto a base path (`PathBuf::push`).
pub fn path_push(base: &str, path: &str) -> (r: String)
    ensures
        r@ == spec_path_push(base@, path@),
{
    if is_absolute(path) {
        return owned(path);
    }
    let n = base.unicode_len();
    if n > 0 && base.get_char(n - 1) != '/' {
        let mut r = owned(base);
        push_char(&mut r, '/');
        r.append(path);
        r
    } else {
        concat(base, path)
    }
}

/// Index just after the last occurrence of `c`, or 0 when `c` does not occur.
pub open spec fn after_last(s: Seq<char>, c: char) -> int
    decreases s.len(),
{
    if s.len() == 0 {
        0
    } else if s.last() == c {
        s.len() as int
    } else {
        after_last(s.drop_last(), c)
    }
}

/// `after_last` lies within the string and nothing after it is `c`.
pub proof fn lemma_after_last(s: Seq<char>, c: char)
    ensures
        0 <= after_last(s, c) <= s.len(),
        after_last(s, c) > 0 ==> s[after_last(s, c) - 1] == c,
        forall|j: int| after_last(s, c) <= j < s.len() ==> s[j] != c,
    decreases s.len(),
{
    if s.len() > 0 && s.last() != c {
        let t = s.drop_last();
        lemma_after_last(t, c);
        assert(forall|j: int| 0 <= j < t.len() ==> t[j] == s[j]);
    }
}

/// The basename of a path-like string: the text after the last '/', or after the
/// last '\\' when there is no '/'.
pub open spec fn spec_str_basename(p: Seq<char>) -> Seq<char> {
    if p.contains('/') {
        p.subrange(after_last(p, '/'), p.len() as int)
    } else if p.contains('\\') {
        p.subrange(after_last(p, '\\'), p.len() as int)
    } else {
        p
    }
}

/// Find the index just after the last occurrence of `c`.
pub(crate) fn after_last_exec(v: &Vec<char>, c: char) -> (r: usize)
    ensures
        r == after_last(v@, c),
{
    let mut i = v.len();
    assert(v@.take(i as int) =~= v@);
    while i > 0
        invariant
            i <= v@.len(),
            after_last(v@, c) == after_last(v@.take(i as int), c),
        decreases i,
    {
        if v[i - 1] == c {
            assert(v@.take(i as int).last() == c);
            return i;
        }
        assert(v@.take(i as int).drop_last() =~= v@.take(i - 1));
        i = i - 1;
    }
    i
}

/// Return the basename of a path-like string.
pub fn str_basename(path: &str) -> (r: String)
    ensures
        r@ == spec_str_basename(path@),
{
    let v = chars_of(path);
    proof {
        assert(v@.take(v@.len() as int) =~= v@);
    }
    if crate::text::contains_char(&v, '/') {
        let start = after_last_exec(&v, '/');
        proof {
            lemma_after_last(v@, '/');
        }
        string_from_range(&v, start, v.len())
    } else if crate::text::contains_char(&v, '\\') {
        let start = after_last_exec(&v, '\\');
        proof {
            lemma_after_last(v@, '\\');
        }
        string_from_range(&v, start, v.len())
    } else {
        owned(path)
    }
}

/// The basenames of the shells that understand "-e" and "-c".
pub open spec fn spec_is_shell(basename: Seq<char>) -> bool {
    basename == constants::SHELL_BASH@ || basename == constants::SHELL_DASH@ || basename
        == constants::SHELL_KSH@ || basename == constants::SHELL_SH@ || basename
        == constants::SHELL_ZSH@
}

/// Return true if the basename is a known shell.
pub fn is_shell(basename: &str) -> (b: bool)
    ensures
        b == spec_is_shell(basename@),
{
    str_eq(basename, constants::SHELL_BASH) || str_eq(basename, constants::SHELL_DASH) || str_eq(
        basename,
        constants::SHELL_KSH,
    ) || str_eq(basename, constants::SHELL_SH) || str_eq(basename, constants::SHELL_ZSH)
}

/// The parent directory of a path (`Path::parent`).
pub uninterp spec fn spec_path_parent(p: Seq<char>) -> Option<Seq<char>>;


/// The view of an optional string.
pub open spec fn opt_str(s: Option<String>) -> Option<Seq<char>> {
    match s {
        Some(v) => Some(v@),
        None => None,
    }
}

/// `Path::parent`: the path without its final component, or `None` when the path
/// ends in a root or is empty.
#[verifier::external_body]
pub(crate) fn path_parent(path: &str) -> (r: Option<String>)
    ensures
        opt_str(r) == spec_path_parent(path@),
{
    std::path::Path::new(path).parent().map(|p| p.to_string_lossy().to_string())
}

/// The final component of a path (`Path::file_name`).
pub uninterp spec fn spec_path_file_name(p: Seq<char>) -> Option<Seq<char>>;

/// `Path::file_name`: the final component of the path, or `None` when the path ends
/// in "..", is a root, or is empty.
#[verifier::external_body]
pub(crate) fn path_file_name(path: &str) -> (r: Option<String>)
    ensures
        opt_str(r) == spec_path_file_name(path@),
{
    std::path::Path::new(path).file_name().map(|name| name.to_string_lossy().to_string())
}

/// The extension of a path's final component (`Path::extension`).
pub uninterp spec fn spec_path_extension(p: Seq<char>) -> Option<Seq<char>>;

/// `Path::extension`: the part of the final component after its last ".", or `None`
/// when the component has no "." other than a leading one, or there is no final
/// component.
#[verifier::external_body]
pub(crate) fn path_extension(path: &str) -> (r: Option<String>)
    ensures
        opt_str(r) == spec_path_extension(path@),
{
    std::path::Path::new(path).extension().map(|ext| ext.to_string_lossy().to_string())
}

/// Whether one path starts with another, component by component
/// (`Path::starts_with`).
pub uninterp spec fn spec_path_starts_with(path: Seq<char>, base: Seq<char>) -> bool;

/// Calls `std::path::Path::starts_with`. Trusted: the result is named
/// `spec_path_starts_with` of the two paths.
#[verifier::external_body]
pub(crate) fn path_starts_with(path: &str, base: &str) -> (r: bool)
    ensures
        r == spec_path_starts_with(path@, base@),
{
    std::path::Path::new(path).starts_with(base)
}

/// The rest of a path after a leading base path (`Path::strip_prefix`).
pub uninterp spec fn spec_path_strip_prefix(path: Seq<char>, base: Seq<char>) -> Seq<char>;

/// Calls `std::path::Path::strip_prefix`. Trusted: std documents that it fails
/// exactly when `base` does not start the path (`Path::starts_with`); otherwise the
/// rest is named `spec_path_strip_prefix` of the two paths.
#[verifier::external_body]
fn path_strip_prefix(path: &str, base: &str) -> (r: Option<String>)
    ensures
        r is None <==> !spec_path_starts_with(path@, base@),
        r matches Some(rest) ==> rest@ == spec_path_strip_prefix(path@, base@),
{
    match std::path::Path::new(path).strip_prefix(base) {
        Ok(rest) => Some(rest.to_string_lossy().to_string()),
        Err(_) => None,
    }
}

/// A path relative to `root` when it lies under it, else the path itself.
pub fn strip_prefix(root: &str, path: &str) -> (r: String)
    ensures
        r@ == (if spec_path_starts_with(path@, root@) {
            spec_path_strip_prefix(path@, root@)
        } else {
            path@
        }),
{
    if path_starts_with(path, root) {
        match path_strip_prefix(path, root) {
            Some(rest) => rest,
            None => owned(path),
        }
    } else {
        owned(path)
    }
}

} // verus!

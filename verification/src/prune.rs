//! Decisions of pruning unreferenced repositories.
use vstd::prelude::*;

use crate::cmd::strs_view;
use crate::collections::StringSet;
use crate::path::{path_extension, path_file_name, path_starts_with, spec_path_extension, spec_path_file_name, spec_path_starts_with};
use crate::text::{spec_char_is_whitespace, spec_trim_end, str_eq};

verus! {

/// Is the depth within the minimum and maximum depths? A maximum of -1 is unlimited.
pub fn is_within_bounds(value: isize, min_depth: isize, max_depth: isize) -> (r: bool)
    ensures
        r == (value >= min_depth && (max_depth == -1 || value <= max_depth)),
{
    value >= min_depth && is_within_max_bounds(value, max_depth)
}

/// Is the depth within the maximum depth for traversal? A maximum of -1 is unlimited.
pub fn is_within_max_bounds(value: isize, max_depth: isize) -> (r: bool)
    ensures
        r == (max_depth == -1 || value <= max_depth),
{
    max_depth == -1 || value <= max_depth
}

/// Check the depth options and return the effective minimum and maximum depths:
/// "--exact-depth N" stands for "--min-depth N --max-depth N" and cannot be combined
/// with them; the maximum cannot be below the minimum.
pub fn prune_depths(min_depth: isize, max_depth: isize, exact_depth: isize) -> (r: Result<(isize, isize), String>)
    ensures
        max_depth >= 0 && max_depth < min_depth ==> r is Err,
        !(max_depth >= 0 && max_depth < min_depth) && exact_depth >= 0 && (min_depth >= 0 || max_depth
            >= 0) ==> r is Err,
        !(max_depth >= 0 && max_depth < min_depth) && exact_depth >= 0 && !(min_depth >= 0 || max_depth
            >= 0) ==> r == Ok::<(isize, isize), String>((exact_depth, exact_depth)),
        !(max_depth >= 0 && max_depth < min_depth) && exact_depth < 0 ==> r == Ok::<(isize, isize), String>(
            (min_depth, max_depth),
        ),
{
    if max_depth >= 0 && max_depth < min_depth {
        return Err(crate::text::owned("--max-depth cannot be less than --min-depth"));
    }
    if exact_depth >= 0 {
        if min_depth >= 0 || max_depth >= 0 {
            return Err(crate::text::owned("--exact-depth cannot be used with --min-depth and --max-depth"));
        }
        return Ok((exact_depth, exact_depth));
    }
    Ok((min_depth, max_depth))
}

/// Is a path excluded by the path filters? With filters, only paths inside a filter
/// or leading to one are traversed.
pub open spec fn spec_is_filtered_path(path: Seq<char>, filters: Seq<Seq<char>>) -> bool {
    filters.len() > 0 && forall|i: int|
        0 <= i < filters.len() ==> !spec_path_starts_with(path, #[trigger] filters[i])
            && !spec_path_starts_with(filters[i], path)
}

/// Is a path excluded by the path filters (see `spec_is_filtered_path`)?
pub fn is_filtered_path(path: &str, filters: &Vec<String>) -> (r: bool)
    ensures
        r == spec_is_filtered_path(path@, strs_view(filters@)),
{
    if filters.len() == 0 {
        return false;
    }
    let mut i: usize = 0;
    while i < filters.len()
        invariant
            i <= filters@.len(),
            forall|j: int|
                0 <= j < i ==> !spec_path_starts_with(path@, #[trigger] strs_view(filters@)[j])
                    && !spec_path_starts_with(strs_view(filters@)[j], path@),
        decreases filters@.len() - i,
    {
        assert(strs_view(filters@)[i as int] == filters@[i as int]@);
        if path_starts_with(path, filters[i].as_str()) || path_starts_with(filters[i].as_str(), path) {
            return false;
        }
        i = i + 1;
    }
    true
}

/// Answers to the question whether to delete a repository.
#[derive(PartialEq, Eq, Structural, Clone, Copy)]
pub enum PromptResponse {
    /// Delete this and every following repository.
    All,
    /// Delete this repository.
    Delete,
    /// Keep this repository.
    Skip,
    /// Stop and delete nothing more.
    Quit,
}

/// A string without leading whitespace (`str::trim_start`).
pub open spec fn spec_trim_start(s: Seq<char>) -> Seq<char>
    decreases s.len(),
{
    if s.len() > 0 && spec_char_is_whitespace(s[0]) {
        spec_trim_start(s.drop_first())
    } else {
        s
    }
}

/// A string without leading and trailing whitespace (`str::trim`), whitespace being
/// the characters with the Unicode White_Space property.
pub open spec fn spec_str_trim(s: Seq<char>) -> Seq<char> {
    spec_trim_end(spec_trim_start(s))
}

/// The lowercase form of a string (`str::to_lowercase`).
pub uninterp spec fn spec_to_lowercase(s: Seq<char>) -> Seq<char>;

/// The text without leading and trailing White_Space characters (`str::trim`).
fn str_trim(s: &str) -> (r: String)
    ensures
        r@ == spec_str_trim(s@),
{
    let v = crate::text::chars_of(s);
    let mut start: usize = 0;
    assert(v@.skip(0) =~= v@);
    while start < v.len() && crate::text::is_whitespace(v[start])
        invariant
            v@ == s@,
            start <= v@.len(),
            spec_trim_start(s@) == spec_trim_start(v@.skip(start as int)),
        decreases v@.len() - start,
    {
        assert(v@.skip(start as int).drop_first() =~= v@.skip(start + 1));
        start = start + 1;
    }
    let rest = crate::text::string_from_range(&v, start, v.len());
    assert(rest@ =~= v@.skip(start as int));
    crate::text::trim_end(rest.as_str())
}

/// Calls `str::to_lowercase`. Trusted: the result is named `spec_to_lowercase` of
/// the text.
#[verifier::external_body]
pub(crate) fn to_lowercase(s: &str) -> (r: String)
    ensures
        r@ == spec_to_lowercase(s@),
{
    s.to_lowercase()
}

/// The response named by a (trimmed, lowercased) answer: "all" (which has no short
/// form), "y"/"yes", "n"/"no"/"s"/"skip", "q"/"quit"; anything else asks again.
pub open spec fn spec_prompt_response(answer: Seq<char>) -> Option<PromptResponse> {
    if answer == "all"@ {
        Some(PromptResponse::All)
    } else if answer == "y"@ || answer == "yes"@ {
        Some(PromptResponse::Delete)
    } else if answer == "n"@ || answer == "no"@ || answer == "s"@ || answer == "skip"@ {
        Some(PromptResponse::Skip)
    } else if answer == "q"@ || answer == "quit"@ {
        Some(PromptResponse::Quit)
    } else {
        None
    }
}

/// Read the response to the deletion question from a line of input (see
/// `spec_prompt_response`); `None` when the question must be asked again.
pub fn parse_prompt_response(line: &str) -> (r: Option<PromptResponse>)
    ensures
        r == spec_prompt_response(spec_to_lowercase(spec_str_trim(line@))),
{
    let trimmed = str_trim(line);
    let answer = to_lowercase(trimmed.as_str());
    let a = answer.as_str();
    if str_eq(a, "all") {
        Some(PromptResponse::All)
    } else if str_eq(a, "y") || str_eq(a, "yes") {
        Some(PromptResponse::Delete)
    } else if str_eq(a, "n") || str_eq(a, "no") || str_eq(a, "s") || str_eq(a, "skip") {
        Some(PromptResponse::Skip)
    } else if str_eq(a, "q") || str_eq(a, "quit") {
        Some(PromptResponse::Quit)
    } else {
        None
    }
}

/// What to do with a repository found for pruning.
#[derive(PartialEq, Eq, Structural, Clone, Copy)]
pub enum PromptAction {
    /// Send the repository for removal.
    Remove,
    /// Stop: no more repositories are removed.
    Finish,
    /// Keep the repository.
    Keep,
}

/// The state of the deletion prompts: whether to stop asking (after "all" or with
/// "--no-prompt") and whether the user quit.
pub struct PromptState {
    pub no_prompt: bool,
    pub quit: bool,
}

/// Decide what to do with a found repository. After quitting nothing more is done;
/// without prompting every repository is removed; otherwise `response` (the user's
/// answer, asked only when prompting) decides, and "all" stops further prompts.
pub fn prompt_step(state: &mut PromptState, response: Option<PromptResponse>) -> (action: PromptAction)
    requires
        !old(state).quit && !old(state).no_prompt ==> response is Some,
    ensures
        old(state).quit ==> action == PromptAction::Keep && *final(state) == *old(state),
        !old(state).quit && old(state).no_prompt ==> action == PromptAction::Remove && *final(state)
            == *old(state),
        !old(state).quit && !old(state).no_prompt ==> match response->0 {
            PromptResponse::All => action == PromptAction::Remove && final(state).no_prompt
                && final(state).quit == false,
            PromptResponse::Delete => action == PromptAction::Remove && *final(state) == *old(state),
            PromptResponse::Skip => action == PromptAction::Keep && *final(state) == *old(state),
            PromptResponse::Quit => action == PromptAction::Finish && final(state).quit
                && final(state).no_prompt == false,
        },
{
    if state.quit {
        return PromptAction::Keep;
    }
    if state.no_prompt {
        return PromptAction::Remove;
    }
    match response {
        Some(PromptResponse::All) => {
            state.no_prompt = true;
            PromptAction::Remove
        },
        Some(PromptResponse::Delete) => PromptAction::Remove,
        Some(PromptResponse::Skip) => PromptAction::Keep,
        Some(PromptResponse::Quit) => {
            state.quit = true;
            PromptAction::Finish
        },
        None => PromptAction::Keep,
    }
}

/// What the traversal does at a directory below the garden root.
#[derive(PartialEq, Eq, Structural, Clone, Copy, Debug)]
pub enum TraverseStep {
    /// Report the directory as a repository to prune.
    Found,
    /// A repository outside the depth bounds: neither reported nor entered.
    Skip,
    /// Not a repository: traverse its entries.
    Descend,
}

/// The directory is a Git repository: it holds ".git" (`has_git_dir`) or it is a bare
/// repository, named with a "git" extension.
pub open spec fn spec_is_repository(path: Seq<char>, has_git_dir: bool) -> bool {
    has_git_dir || spec_path_extension(path) == Some("git"@)
}

/// The step at a directory at `depth` below the garden root: a repository is reported
/// when its depth is within the bounds and skipped otherwise; other directories are
/// entered.
pub fn subdir_step(path: &str, has_git_dir: bool, depth: isize, min_depth: isize, max_depth: isize) -> (r: TraverseStep)
    ensures
        r == (if spec_is_repository(path@, has_git_dir) {
            if depth >= min_depth && (max_depth == -1 || depth <= max_depth) {
                TraverseStep::Found
            } else {
                TraverseStep::Skip
            }
        } else {
            TraverseStep::Descend
        }),
{
    let is_repository = has_git_dir || match path_extension(path) {
        Some(ext) => str_eq(ext.as_str(), "git"),
        None => false,
    };
    if is_repository {
        if is_within_bounds(depth, min_depth, max_depth) {
            TraverseStep::Found
        } else {
            TraverseStep::Skip
        }
    } else {
        TraverseStep::Descend
    }
}

/// A directory entry may be traversed: a directory that is not a symlink and whose
/// final component is not ".git".
pub fn is_traversable_entry(path: &str, is_dir: bool, is_symlink: bool) -> (r: bool)
    ensures
        r == (is_dir && !is_symlink && match spec_path_file_name(path@) {
            Some(name) => name != ".git"@,
            None => false,
        }),
{
    is_dir && !is_symlink && match path_file_name(path) {
        Some(name) => !str_eq(name.as_str(), ".git"),
        None => false,
    }
}

/// A traversable entry, with its canonical path, is entered unless it is a configured
/// tree or the path filters exclude it.
pub fn is_traversed(canonical: &str, path: &str, configured: &StringSet, filters: &Vec<String>) -> (r: bool)
    ensures
        r == (!configured@.contains(canonical@) && !spec_is_filtered_path(path@, strs_view(filters@))),
{
    !configured.contains(canonical) && !is_filtered_path(path, filters)
}

/// The depth of the entries of a directory: the garden root's entries are at depth
/// zero, and a directory's entries one deeper, entered only while the directory is
/// within the maximum depth.
pub fn child_depth(toplevel: bool, depth: isize, max_depth: isize) -> (r: Option<isize>)
    requires
        depth < isize::MAX,
    ensures
        toplevel ==> r == Some(0isize),
        !toplevel ==> r == (if max_depth == -1 || depth <= max_depth {
            Some((depth + 1) as isize)
        } else {
            None
        }),
{
    if toplevel {
        Some(0)
    } else if is_within_max_bounds(depth, max_depth) {
        Some(depth + 1)
    } else {
        None
    }
}

} // verus!

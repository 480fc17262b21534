//! Decisions of running custom commands: which exit status a run reports and when
//! it stops.
use vstd::prelude::*;

use crate::cmd::strs_view;
use crate::collections::{
    entry_get, entry_map_values, lemma_entry_index, lemma_entry_index_map, OrderedMap,
};
use crate::errors::EX_OK;
use crate::syntax::{post_command, pre_command};
use crate::text::{owned, str_eq};

verus! {

/// The status of a run after a command exits with `status`: a failure replaces it,
/// a success keeps it ("the last non-zero exit status").
pub open spec fn spec_last_failure(current: i32, status: i32) -> i32 {
    if status != EX_OK {
        status
    } else {
        current
    }
}

/// Record the exit status of a command in the status of a run: the last non-zero
/// exit status is reported.
pub fn last_failure(current: i32, status: i32) -> (r: i32)
    ensures
        r == spec_last_failure(current, status),
{
    if status != EX_OK {
        status
    } else {
        current
    }
}

/// What to do after a command of a command list exits.
#[derive(PartialEq, Eq, Structural, Clone, Copy, Debug)]
pub enum ListStep {
    /// Run the next command of the list.
    Continue,
    /// Stop running commands: the command list failed with this status.
    Stop(i32),
}

/// The state of running one command list: the status of its latest command.
pub struct ListRun {
    pub exit_status: i32,
}

/// The state after a command exits with `status` and the step to take: with
/// "errexit" a failure stops the list; without it the list goes on, and its status
/// follows its latest command.
pub open spec fn spec_command_step(exit_status: i32, status: i32, exit_on_error: bool) -> (i32, ListStep) {
    if status != EX_OK {
        if exit_on_error {
            (status, ListStep::Stop(status))
        } else {
            (status, ListStep::Continue)
        }
    } else {
        (EX_OK, ListStep::Continue)
    }
}

/// The outcome of a command list whose commands exit with `statuses`, in order:
/// `Err` with the status that stops it, or `Ok` when it succeeds.
pub open spec fn spec_list_outcome(statuses: Seq<i32>, exit_on_error: bool) -> Result<(), i32> {
    match spec_list_scan(EX_OK, statuses, exit_on_error) {
        ListStep::Stop(s) => Err(s),
        ListStep::Continue => {
            let last = spec_list_status(EX_OK, statuses, exit_on_error);
            if last != EX_OK {
                Err(last)
            } else {
                Ok(())
            }
        },
    }
}

/// The first stopping step of a list run from `exit_status`, if any.
pub open spec fn spec_list_scan(exit_status: i32, statuses: Seq<i32>, exit_on_error: bool) -> ListStep
    decreases statuses.len(),
{
    if statuses.len() == 0 {
        ListStep::Continue
    } else {
        let (next, step) = spec_command_step(exit_status, statuses[0], exit_on_error);
        match step {
            ListStep::Stop(s) => ListStep::Stop(s),
            ListStep::Continue => spec_list_scan(next, statuses.drop_first(), exit_on_error),
        }
    }
}

/// The status of a list run from `exit_status` once every command has run.
pub open spec fn spec_list_status(exit_status: i32, statuses: Seq<i32>, exit_on_error: bool) -> i32
    decreases statuses.len(),
{
    if statuses.len() == 0 {
        exit_status
    } else {
        let (next, _step) = spec_command_step(exit_status, statuses[0], exit_on_error);
        spec_list_status(next, statuses.drop_first(), exit_on_error)
    }
}

impl ListRun {
    /// The state before the first command of a list.
    pub fn new() -> (r: Self)
        ensures
            r.exit_status == EX_OK,
    {
        ListRun { exit_status: EX_OK }
    }

    /// Record that a command exited with `status` and decide the next step (see
    /// `spec_command_step`).
    pub fn command_finished(&mut self, status: i32, exit_on_error: bool) -> (step: ListStep)
        ensures
            (final(self).exit_status, step) == spec_command_step(old(self).exit_status, status, exit_on_error),
    {
        if status != EX_OK {
            self.exit_status = status;
            if exit_on_error {
                return ListStep::Stop(status);
            }
            ListStep::Continue
        } else {
            self.exit_status = EX_OK;
            ListStep::Continue
        }
    }

    /// The outcome of a list whose commands all ran: it fails with the status of its
    /// latest command when that failed.
    pub fn list_finished(&self) -> (r: Result<(), i32>)
        ensures
            self.exit_status != EX_OK ==> r == Err::<(), i32>(self.exit_status),
            self.exit_status == EX_OK ==> r is Ok,
    {
        if self.exit_status != EX_OK {
            Err(self.exit_status)
        } else {
            Ok(())
        }
    }
}

/// Without "errexit" every command of a list runs and the list fails exactly when
/// its final command fails, with that command's status.
pub proof fn law_no_errexit_final_status(statuses: Seq<i32>, start: i32)
    requires
        statuses.len() > 0,
    ensures
        spec_list_scan(start, statuses, false) == ListStep::Continue,
        spec_list_status(start, statuses, false) == statuses.last(),
    decreases statuses.len(),
{
    if statuses.len() > 1 {
        let (next, _) = spec_command_step(start, statuses[0], false);
        law_no_errexit_final_status(statuses.drop_first(), next);
        assert(statuses.drop_first().last() == statuses.last());
    } else {
        let (next, _) = spec_command_step(start, statuses[0], false);
        assert(statuses.drop_first().len() == 0);
        assert(spec_list_status(next, statuses.drop_first(), false) == next);
        assert(spec_list_scan(next, statuses.drop_first(), false) == ListStep::Continue);
    }
}

/// With "errexit" a list stops at its first failing command, with that status.
pub proof fn law_errexit_stops_at_first_failure(statuses: Seq<i32>, start: i32, i: int)
    requires
        0 <= i < statuses.len(),
        statuses[i] != EX_OK,
        forall|j: int| 0 <= j < i ==> statuses[j] == EX_OK,
    ensures
        spec_list_scan(start, statuses, true) == ListStep::Stop(statuses[i]),
    decreases i,
{
    if i > 0 {
        let (next, _) = spec_command_step(start, statuses[0], true);
        assert forall|j: int| 0 <= j < i - 1 implies statuses.drop_first()[j] == EX_OK by {
            assert(statuses.drop_first()[j] == statuses[j + 1]);
        }
        law_errexit_stops_at_first_failure(statuses.drop_first(), next, i - 1);
    }
}

/// The plain view of evaluated pre- and post-command values by hook name
/// ("name<" and "name>").
pub open spec fn hooks_view(h: Seq<(Seq<char>, Vec<String>)>) -> Seq<(Seq<char>, Seq<Seq<char>>)> {
    entry_map_values(h, |v: Vec<String>| strs_view(v@))
}

/// The result of expanding a command name into the commands to run.
pub enum ExpandView {
    /// The command names, in the order they run.
    Names(Seq<Seq<char>>),
    /// The values of this pre- or post-command name must be evaluated first.
    Missing(Seq<char>),
    /// The expansion went deeper than allowed: the pre- and post-commands refer to
    /// each other in a cycle.
    TooDeep,
}

/// A command name expanded with its pre-commands before it and its post-commands
/// after it, each expanded in turn; a command that names itself as its own pre- or
/// post-command is skipped. `fuel` bounds the depth of the expansion.
pub open spec fn spec_expand(h: Seq<(Seq<char>, Seq<Seq<char>>)>, name: Seq<char>, fuel: nat) -> ExpandView
    decreases fuel, 0nat,
{
    if fuel == 0 {
        ExpandView::TooDeep
    } else {
        match entry_get(h, name.push('<')) {
            None => ExpandView::Missing(name.push('<')),
            Some(pre) => match entry_get(h, name.push('>')) {
                None => ExpandView::Missing(name.push('>')),
                Some(post) => match spec_expand_list(h, name, pre, (fuel - 1) as nat) {
                    ExpandView::Names(a) => match spec_expand_list(h, name, post, (fuel - 1) as nat) {
                        ExpandView::Names(b) => ExpandView::Names(a.push(name) + b),
                        other => other,
                    },
                    other => other,
                },
            },
        }
    }
}

/// The expansions of a list of pre- or post-commands of `name`, concatenated.
pub open spec fn spec_expand_list(
    h: Seq<(Seq<char>, Seq<Seq<char>>)>,
    name: Seq<char>,
    list: Seq<Seq<char>>,
    fuel: nat,
) -> ExpandView
    decreases fuel, list.len() + 1,
{
    if list.len() == 0 {
        ExpandView::Names(Seq::empty())
    } else {
        match spec_expand_list(h, name, list.drop_last(), fuel) {
            ExpandView::Names(a) => if list.last() == name {
                ExpandView::Names(a)
            } else {
                match spec_expand(h, list.last(), fuel) {
                    ExpandView::Names(b) => ExpandView::Names(a + b),
                    other => other,
                }
            },
            other => other,
        }
    }
}

/// Why a command name could not be expanded.
pub enum ExpandError {
    /// The values of this pre- or post-command name must be evaluated first.
    Missing(String),
    /// The pre- and post-commands refer to each other in a cycle.
    TooDeep,
}

/// The plain view of an expansion result.
pub open spec fn expand_view(r: Result<Vec<String>, ExpandError>) -> ExpandView {
    match r {
        Ok(v) => ExpandView::Names(strs_view(v@)),
        Err(ExpandError::Missing(s)) => ExpandView::Missing(s@),
        Err(ExpandError::TooDeep) => ExpandView::TooDeep,
    }
}

/// Expand a command name into the names of the commands to run (see
/// `spec_expand`). `hooks` holds the evaluated values of the pre- and post-command
/// names known so far; when one is missing, the caller evaluates it and asks again.
pub fn expand_command_names(hooks: &OrderedMap<Vec<String>>, name: &str, fuel: usize) -> (r: Result<
    Vec<String>,
    ExpandError,
>)
    ensures
        expand_view(r) == spec_expand(hooks_view(hooks@), name@, fuel as nat),
    decreases fuel, 0nat,
{
    if fuel == 0 {
        return Err(ExpandError::TooDeep);
    }
    let pre_name = pre_command(name);
    let post_name = post_command(name);
    proof {
        lemma_entry_index(hooks@, pre_name@);
        lemma_entry_index(hooks@, post_name@);
        lemma_entry_index_map(hooks@, |v: Vec<String>| strs_view(v@), pre_name@);
        lemma_entry_index_map(hooks@, |v: Vec<String>| strs_view(v@), post_name@);
    }
    let pre = match hooks.get(pre_name.as_str()) {
        Some(v) => v,
        None => return Err(ExpandError::Missing(pre_name)),
    };
    let post = match hooks.get(post_name.as_str()) {
        Some(v) => v,
        None => return Err(ExpandError::Missing(post_name)),
    };
    let mut names = match expand_list(hooks, name, pre, fuel - 1) {
        Ok(v) => v,
        Err(e) => return Err(e),
    };
    let after = match expand_list(hooks, name, post, fuel - 1) {
        Ok(v) => v,
        Err(e) => return Err(e),
    };
    let ghost a = strs_view(names@);
    names.push(owned(name));
    let ghost mid = names@;
    let mut after = after;
    let ghost b = strs_view(after@);
    names.append(&mut after);
    assert(strs_view(names@) =~= a.push(name@) + b);
    Ok(names)
}

/// Expand each pre- or post-command of `name` in turn (see `spec_expand_list`).
fn expand_list(hooks: &OrderedMap<Vec<String>>, name: &str, list: &Vec<String>, fuel: usize) -> (r: Result<
    Vec<String>,
    ExpandError,
>)
    ensures
        expand_view(r) == spec_expand_list(hooks_view(hooks@), name@, strs_view(list@), fuel as nat),
    decreases fuel, 1nat,
{
    let ghost l = strs_view(list@);
    let mut names: Vec<String> = Vec::new();
    let mut i: usize = 0;
    assert(l.take(0) =~= Seq::<Seq<char>>::empty());
    assert(strs_view(names@) =~= Seq::<Seq<char>>::empty());
    assert(spec_expand_list(hooks_view(hooks@), name@, l.take(0), fuel as nat) == ExpandView::Names(
        Seq::<Seq<char>>::empty(),
    ));
    while i < list.len()
        invariant
            l == strs_view(list@),
            i <= list@.len(),
            spec_expand_list(hooks_view(hooks@), name@, l.take(i as int), fuel as nat) == ExpandView::Names(
                strs_view(names@),
            ),
        decreases list@.len() - i,
    {
        assert(l.take(i + 1).drop_last() =~= l.take(i as int));
        assert(l.take(i + 1).last() == list@[i as int]@);
        if !str_eq(list[i].as_str(), name) {
            match expand_command_names(hooks, list[i].as_str(), fuel) {
                Ok(more) => {
                    let ghost a = strs_view(names@);
                    let mut more = more;
                    let ghost b = strs_view(more@);
                    names.append(&mut more);
                    assert(strs_view(names@) =~= a + b);
                },
                Err(e) => {
                    proof {
                        lemma_list_failure_stands(hooks_view(hooks@), name@, l, i + 1, fuel as nat);
                    }
                    return Err(e);
                },
            }
        }
        i = i + 1;
    }
    assert(l.take(list@.len() as int) =~= l);
    Ok(names)
}

/// Once a prefix of the list fails to expand, the whole list fails the same way.
proof fn lemma_list_failure_stands(
    h: Seq<(Seq<char>, Seq<Seq<char>>)>,
    name: Seq<char>,
    l: Seq<Seq<char>>,
    k: int,
    fuel: nat,
)
    requires
        0 <= k <= l.len(),
        !(spec_expand_list(h, name, l.take(k), fuel) is Names),
    ensures
        spec_expand_list(h, name, l, fuel) == spec_expand_list(h, name, l.take(k), fuel),
    decreases l.len(),
{
    if k == l.len() {
        assert(l.take(k) =~= l);
    } else {
        assert(l.drop_last().take(k) =~= l.take(k));
        lemma_list_failure_stands(h, name, l.drop_last(), k, fuel);
    }
}

/// A command that names no pre- or post-commands expands to itself.
pub proof fn law_plain_command_expands_to_itself(h: Seq<(Seq<char>, Seq<Seq<char>>)>, name: Seq<char>, fuel: nat)
    requires
        fuel > 0,
        entry_get(h, name.push('<')) == Some(Seq::<Seq<char>>::empty()),
        entry_get(h, name.push('>')) == Some(Seq::<Seq<char>>::empty()),
    ensures
        spec_expand(h, name, fuel) == ExpandView::Names(seq![name]),
{
    assert(spec_expand_list(h, name, Seq::empty(), (fuel - 1) as nat) == ExpandView::Names(Seq::empty()));
    assert(Seq::<Seq<char>>::empty().push(name) + Seq::<Seq<char>>::empty() =~= seq![name]);
}

/// A command whose pre- and post-commands are known and expand runs the expansions
/// of its pre-commands (skipping itself), then itself, then the expansions of its
/// post-commands (skipping itself); duplicates are kept.
pub proof fn law_expansion_order(
    h: Seq<(Seq<char>, Seq<Seq<char>>)>,
    name: Seq<char>,
    fuel: nat,
    a: Seq<Seq<char>>,
    b: Seq<Seq<char>>,
)
    requires
        fuel > 0,
        entry_get(h, name.push('<')) matches Some(pre) && spec_expand_list(h, name, pre, (fuel - 1) as nat)
            == ExpandView::Names(a),
        entry_get(h, name.push('>')) matches Some(post) && spec_expand_list(h, name, post, (fuel - 1) as nat)
            == ExpandView::Names(b),
    ensures
        spec_expand(h, name, fuel) == ExpandView::Names(a.push(name) + b),
{
}

/// The expansions of a list of pre- or post-commands are the expansions of its
/// parts, concatenated: expanding `l1 + l2` gives the names of `l1` then those of
/// `l2`.
pub proof fn law_expand_list_concat(
    h: Seq<(Seq<char>, Seq<Seq<char>>)>,
    name: Seq<char>,
    l1: Seq<Seq<char>>,
    l2: Seq<Seq<char>>,
    fuel: nat,
    a: Seq<Seq<char>>,
    b: Seq<Seq<char>>,
)
    requires
        spec_expand_list(h, name, l1, fuel) == ExpandView::Names(a),
        spec_expand_list(h, name, l2, fuel) == ExpandView::Names(b),
    ensures
        spec_expand_list(h, name, l1 + l2, fuel) == ExpandView::Names(a + b),
    decreases l2.len(),
{
    if l2.len() == 0 {
        assert(l1 + l2 =~= l1);
        assert(b =~= Seq::<Seq<char>>::empty());
        assert(a + b =~= a);
    } else {
        let rest = l2.drop_last();
        let x = l2.last();
        let b1 = match spec_expand_list(h, name, rest, fuel) {
            ExpandView::Names(n) => n,
            _ => Seq::empty(),
        };
        assert(spec_expand_list(h, name, rest, fuel) is Names);
        law_expand_list_concat(h, name, l1, rest, fuel, a, b1);
        assert((l1 + l2).drop_last() =~= l1 + rest);
        assert((l1 + l2).last() == x);
        if x == name {
            assert(b == b1);
        } else {
            let c = match spec_expand(h, x, fuel) {
                ExpandView::Names(n) => n,
                _ => Seq::empty(),
            };
            assert(b == b1 + c);
            assert(a + b1 + c =~= a + (b1 + c));
        }
    }
}

/// The evaluated values of the pre- (`c == '<'`) or post-commands (`c == '>'`) of
/// `x`, empty when they are not known.
pub open spec fn hook_values(h: Seq<(Seq<char>, Seq<Seq<char>>)>, x: Seq<char>, c: char) -> Seq<Seq<char>> {
    match entry_get(h, x.push(c)) {
        Some(l) => l,
        None => Seq::empty(),
    }
}

/// Both the pre- and the post-commands of `x` are known.
pub open spec fn hooks_known(h: Seq<(Seq<char>, Seq<Seq<char>>)>, x: Seq<char>) -> bool {
    entry_get(h, x.push('<')) is Some && entry_get(h, x.push('>')) is Some
}

/// `y` is a pre- or post-command of `x` other than `x` itself.
pub open spec fn hook_edge(h: Seq<(Seq<char>, Seq<Seq<char>>)>, x: Seq<char>, y: Seq<char>) -> bool {
    y != x && (hook_values(h, x, '<').contains(y) || hook_values(h, x, '>').contains(y))
}

/// Every command whose hooks are known has the hooks of its pre- and
/// post-commands known as well.
pub open spec fn hooks_closed(h: Seq<(Seq<char>, Seq<Seq<char>>)>) -> bool {
    forall|x: Seq<char>, y: Seq<char>| hooks_known(h, x) && #[trigger] hook_edge(h, x, y) ==> hooks_known(h, y)
}

/// The pre- and post-commands form no cycle: `rank` is lower on every pre- or
/// post-command of a command than on the command.
pub open spec fn hooks_ranked(h: Seq<(Seq<char>, Seq<Seq<char>>)>, rank: spec_fn(Seq<char>) -> nat) -> bool {
    forall|x: Seq<char>, y: Seq<char>| hooks_known(h, x) && #[trigger] hook_edge(h, x, y) ==> rank(y) < rank(x)
}

/// The expansion of a command without a depth bound, for hooks ranked by `rank`:
/// the expansions of its pre-commands other than itself, concatenated, then the
/// command, then those of its post-commands; duplicates are kept.
pub open spec fn rec_expansion(
    h: Seq<(Seq<char>, Seq<Seq<char>>)>,
    rank: spec_fn(Seq<char>) -> nat,
    name: Seq<char>,
) -> Seq<Seq<char>>
    decreases rank(name), 1nat, 0nat,
{
    rec_expansion_list(h, rank, name, hook_values(h, name, '<')).push(name) + rec_expansion_list(
        h,
        rank,
        name,
        hook_values(h, name, '>'),
    )
}

/// The expansions of the commands of `list` other than `name`, concatenated (a
/// command of a lower rank than `name`, as every one is for ranked hooks).
pub open spec fn rec_expansion_list(
    h: Seq<(Seq<char>, Seq<Seq<char>>)>,
    rank: spec_fn(Seq<char>) -> nat,
    name: Seq<char>,
    list: Seq<Seq<char>>,
) -> Seq<Seq<char>>
    decreases rank(name), 0nat, list.len(),
{
    if list.len() == 0 {
        Seq::empty()
    } else {
        let a = rec_expansion_list(h, rank, name, list.drop_last());
        let x = list.last();
        if x != name && rank(x) < rank(name) {
            a + rec_expansion(h, rank, x)
        } else {
            a
        }
    }
}

proof fn lemma_ranked_expand(
    h: Seq<(Seq<char>, Seq<Seq<char>>)>,
    rank: spec_fn(Seq<char>) -> nat,
    name: Seq<char>,
    fuel: nat,
)
    requires
        hooks_ranked(h, rank),
        hooks_closed(h),
        hooks_known(h, name),
        rank(name) < fuel,
    ensures
        spec_expand(h, name, fuel) == ExpandView::Names(rec_expansion(h, rank, name)),
    decreases fuel, 0nat,
{
    let pre = hook_values(h, name, '<');
    let post = hook_values(h, name, '>');
    assert forall|i: int| 0 <= i < pre.len() && pre[i] != name implies hooks_known(h, #[trigger] pre[i])
        && rank(pre[i]) < rank(name) by {
        assert(pre.contains(pre[i]));
        assert(hook_edge(h, name, pre[i]));
    }
    assert forall|i: int| 0 <= i < post.len() && post[i] != name implies hooks_known(h, #[trigger] post[i])
        && rank(post[i]) < rank(name) by {
        assert(post.contains(post[i]));
        assert(hook_edge(h, name, post[i]));
    }
    lemma_ranked_expand_list(h, rank, name, pre, (fuel - 1) as nat);
    lemma_ranked_expand_list(h, rank, name, post, (fuel - 1) as nat);
}

proof fn lemma_ranked_expand_list(
    h: Seq<(Seq<char>, Seq<Seq<char>>)>,
    rank: spec_fn(Seq<char>) -> nat,
    name: Seq<char>,
    list: Seq<Seq<char>>,
    fuel: nat,
)
    requires
        hooks_ranked(h, rank),
        hooks_closed(h),
        rank(name) <= fuel,
        forall|i: int| 0 <= i < list.len() && list[i] != name ==> hooks_known(h, #[trigger] list[i])
            && rank(list[i]) < rank(name),
    ensures
        spec_expand_list(h, name, list, fuel) == ExpandView::Names(rec_expansion_list(h, rank, name, list)),
    decreases fuel, list.len() + 1,
{
    if list.len() > 0 {
        let rest = list.drop_last();
        assert forall|i: int| 0 <= i < rest.len() && rest[i] != name implies hooks_known(h, #[trigger] rest[i])
            && rank(rest[i]) < rank(name) by {
            assert(rest[i] == list[i]);
        }
        lemma_ranked_expand_list(h, rank, name, rest, fuel);
        let x = list.last();
        if x != name {
            assert(list[list.len() - 1] == x);
            lemma_ranked_expand(h, rank, x, fuel);
        }
    }
}

/// Pre- and post-commands without cycles expand to the recursive concatenation:
/// when `rank` lowers along every pre- and post-command (no cycle) and the hooks of
/// every command reached are known, expanding with more fuel than the command's
/// rank gives its pre-commands' expansions, the command, then its post-commands'
/// expansions, each skipping only the command itself.
pub proof fn law_acyclic_expansion(
    h: Seq<(Seq<char>, Seq<Seq<char>>)>,
    rank: spec_fn(Seq<char>) -> nat,
    name: Seq<char>,
    fuel: nat,
)
    requires
        hooks_ranked(h, rank),
        hooks_closed(h),
        hooks_known(h, name),
        rank(name) < fuel,
    ensures
        spec_expand(h, name, fuel) == ExpandView::Names(rec_expansion(h, rank, name)),
{
    lemma_ranked_expand(h, rank, name, fuel);
}

/// Missing hooks are unknown ones: an expansion asks only for pre- or
/// post-command values that the table does not hold yet, so filling them in and
/// asking again always makes progress.
pub proof fn law_missing_hook_is_unknown(h: Seq<(Seq<char>, Seq<Seq<char>>)>, name: Seq<char>, fuel: nat)
    ensures
        spec_expand(h, name, fuel) matches ExpandView::Missing(k) ==> entry_get(h, k) is None,
    decreases fuel, 0nat,
{
    if fuel > 0 {
        if let Some(pre) = entry_get(h, name.push('<')) {
            if let Some(post) = entry_get(h, name.push('>')) {
                lemma_missing_list_unknown(h, name, pre, (fuel - 1) as nat);
                lemma_missing_list_unknown(h, name, post, (fuel - 1) as nat);
            }
        }
    }
}

proof fn lemma_missing_list_unknown(
    h: Seq<(Seq<char>, Seq<Seq<char>>)>,
    name: Seq<char>,
    list: Seq<Seq<char>>,
    fuel: nat,
)
    ensures
        spec_expand_list(h, name, list, fuel) matches ExpandView::Missing(k) ==> entry_get(h, k) is None,
    decreases fuel, list.len() + 1,
{
    if list.len() > 0 {
        lemma_missing_list_unknown(h, name, list.drop_last(), fuel);
        law_missing_hook_is_unknown(h, list.last(), fuel);
    }
}

} // verus!

//! The command lines that the graphical front end runs, and its tree queries.
use vstd::prelude::*;

use crate::cmd::{shlex_split, spec_shell_words, strs_view};
use crate::constants;
use crate::model::{
    graft_ids_below, spec_color_mode_display, verbose_flags, verbose_string, ApplicationContext, ColorMode,
    Configuration, TreeContext,
};
use crate::query::{contexts_view, resolve_trees, spec_resolve_trees, CanonicalPaths, CtxView};
use crate::collections::{entry_get, entry_keys, set_append, set_insert, OrderedMap, StringSet};
use crate::model::{MultiVariableMap, Variable};
use crate::sort::{sort_strings, sorted};
use crate::text::{chars_of, concat, nat_to_decimal, owned, string_from_range, usize_to_string};

verus! {

/// The options of the graphical front end.
pub struct GuiOptions {
    pub chdir: Option<String>,
    pub color: ColorMode,
    pub config: Option<String>,
    pub debug: Vec<String>,
    pub define: Vec<String>,
    pub dry_run: bool,
    pub keep_going: bool,
    pub exit_on_error: bool,
    pub force: bool,
    pub num_jobs: Option<usize>,
    pub quiet: bool,
    pub verbose: u8,
    pub word_split: bool,
    pub root: Option<String>,
    pub queries: Vec<String>,
}

/// `words` with `w` appended when `cond` holds.
pub open spec fn push_if(words: Seq<Seq<char>>, cond: bool, w: Seq<char>) -> Seq<Seq<char>> {
    if cond {
        words.push(w)
    } else {
        words
    }
}

/// Each string with a prefix.
pub open spec fn prefixed(prefix: Seq<char>, v: Seq<Seq<char>>) -> Seq<Seq<char>> {
    v.map_values(|s: Seq<char>| prefix + s)
}

/// Each string preceded by an option name.
pub open spec fn option_pairs(option: Seq<char>, v: Seq<Seq<char>>) -> Seq<Seq<char>>
    decreases v.len(),
{
    if v.len() == 0 {
        Seq::empty()
    } else {
        option_pairs(option, v.drop_last()).push(option).push(v.last())
    }
}

/// The start of every "garden" command line: "garden", the global options that
/// differ from their defaults, and the command name; with the words of the query.
pub open spec fn spec_garden_command(o: GuiOptions, name: Seq<char>, query: Seq<char>) -> (
    Seq<Seq<char>>,
    Seq<Seq<char>>,
) {
    let c0 = seq![constants::GARDEN@];
    let c1 = push_if(c0, o.color != ColorMode::Auto, "--color="@ + spec_color_mode_display(o.color));
    let c2 = match o.config {
        Some(c) => c1.push("--config="@ + c@),
        None => c1,
    };
    let c3 = c2 + prefixed("--debug="@, strs_view(o.debug@));
    let c4 = match o.root {
        Some(r) => c3.push("--root="@ + r@),
        None => c3,
    };
    let c5 = push_if(c4, o.verbose > 0, verbose_flags(o.verbose as nat));
    (c5.push(name), spec_shell_words(query))
}

/// Append a word.
fn push_word(v: &mut Vec<String>, w: String)
    ensures
        strs_view(final(v)@) == strs_view(old(v)@).push(w@),
{
    let ghost before = v@;
    v.push(w);
    assert(strs_view(v@) =~= strs_view(before).push(w@));
}

/// Append all words.
fn append_words(v: &mut Vec<String>, w: &mut Vec<String>)
    ensures
        strs_view(final(v)@) == strs_view(old(v)@) + strs_view(old(w)@),
{
    let ghost a = v@;
    let ghost b = w@;
    v.append(w);
    assert(strs_view(v@) =~= strs_view(a) + strs_view(b));
}

/// Build the start of a "garden" command line (see `spec_garden_command`).
pub fn garden_command_vec(options: &GuiOptions, command_name: &str, query: &str) -> (r: (Vec<String>, Vec<String>))
    ensures
        (strs_view(r.0@), strs_view(r.1@)) == spec_garden_command(*options, command_name@, query@),
{
    let queries = shlex_split(query);
    let mut command: Vec<String> = Vec::new();
    push_word(&mut command, owned(constants::GARDEN));
    assert(strs_view(command@) =~= seq![constants::GARDEN@]);
    if !matches!(options.color, ColorMode::Auto) {
        let name = options.color.to_string();
        push_word(&mut command, concat("--color=", name.as_str()));
    }
    if let Some(config) = &options.config {
        push_word(&mut command, concat("--config=", config.as_str()));
    }
    let ghost base = strs_view(command@);
    let mut i: usize = 0;
    while i < options.debug.len()
        invariant
            i <= options.debug@.len(),
            strs_view(command@) == base + prefixed("--debug="@, strs_view(options.debug@).take(i as int)),
        decreases options.debug@.len() - i,
    {
        push_word(&mut command, concat("--debug=", options.debug[i].as_str()));
        assert(strs_view(options.debug@).take(i + 1) =~= strs_view(options.debug@).take(i as int).push(
            options.debug@[i as int]@,
        ));
        assert(strs_view(command@) =~= base + prefixed("--debug="@, strs_view(options.debug@).take(i + 1)));
        i = i + 1;
    }
    assert(strs_view(options.debug@).take(options.debug@.len() as int) =~= strs_view(options.debug@));
    if let Some(root) = &options.root {
        push_word(&mut command, concat("--root=", root.as_str()));
    }
    if options.verbose > 0 {
        push_word(&mut command, verbose_string(options.verbose));
    }
    push_word(&mut command, owned(command_name));
    (command, queries)
}

/// The "garden <command>" line for a custom command: the common start, then the
/// command's own options that differ from their defaults, then the queries.
pub open spec fn spec_custom_command(o: GuiOptions, name: Seq<char>, query: Seq<char>) -> Seq<Seq<char>> {
    let (c0, queries) = spec_garden_command(o, name, query);
    let c1 = c0 + option_pairs("--define"@, strs_view(o.define@));
    let c2 = push_if(c1, o.dry_run, "--dry-run"@);
    let c3 = push_if(c2, o.force, "--force"@);
    let c4 = push_if(c3, o.keep_going, "--keep-going"@);
    let c5 = match o.num_jobs {
        Some(n) => c4.push("--jobs="@ + nat_to_decimal(n as nat)),
        None => c4,
    };
    let c6 = push_if(c5, !o.exit_on_error, "--no-errexit"@);
    let c7 = push_if(c6, !o.word_split, "--no-wordsplit"@);
    let c8 = push_if(c7, o.quiet, "--quiet"@);
    c8 + queries
}

/// Build the command line for a custom command (see `spec_custom_command`).
pub fn custom_command_vec(options: &GuiOptions, command_name: &str, query: &str) -> (r: Vec<String>)
    ensures
        strs_view(r@) == spec_custom_command(*options, command_name@, query@),
{
    let (mut command, mut queries) = garden_command_vec(options, command_name, query);
    let ghost base = strs_view(command@);
    let mut i: usize = 0;
    while i < options.define.len()
        invariant
            i <= options.define@.len(),
            strs_view(command@) == base + option_pairs("--define"@, strs_view(options.define@).take(i as int)),
        decreases options.define@.len() - i,
    {
        push_word(&mut command, owned("--define"));
        push_word(&mut command, options.define[i].clone());
        assert(strs_view(options.define@).take(i + 1).drop_last() =~= strs_view(options.define@).take(i as int));
        assert(strs_view(command@) =~= base + option_pairs("--define"@, strs_view(options.define@).take(i + 1)));
        i = i + 1;
    }
    assert(strs_view(options.define@).take(options.define@.len() as int) =~= strs_view(options.define@));
    if options.dry_run {
        push_word(&mut command, owned("--dry-run"));
    }
    if options.force {
        push_word(&mut command, owned("--force"));
    }
    if options.keep_going {
        push_word(&mut command, owned("--keep-going"));
    }
    if let Some(num_jobs) = options.num_jobs {
        let jobs = usize_to_string(num_jobs);
        push_word(&mut command, concat("--jobs=", jobs.as_str()));
    }
    if !options.exit_on_error {
        push_word(&mut command, owned("--no-errexit"));
    }
    if !options.word_split {
        push_word(&mut command, owned("--no-wordsplit"));
    }
    if options.quiet {
        push_word(&mut command, owned("--quiet"));
    }
    append_words(&mut command, &mut queries);
    command
}

/// The "garden grow" line: the queries, or "." for an empty query.
pub open spec fn spec_grow_command(o: GuiOptions, query: Seq<char>) -> Seq<Seq<char>> {
    let (c, queries) = spec_garden_command(o, "grow"@, query);
    if query.len() == 0 {
        c.push("."@)
    } else {
        c + queries
    }
}

/// Build the "garden grow" command line (see `spec_grow_command`).
pub fn grow_command_vec(options: &GuiOptions, query: &str) -> (r: Vec<String>)
    ensures
        strs_view(r@) == spec_grow_command(*options, query@),
{
    let (mut command, mut queries) = garden_command_vec(options, "grow", query);
    if query.is_empty() {
        push_word(&mut command, owned("."));
    } else {
        append_words(&mut command, &mut queries);
    }
    command
}

/// The "garden ls" line: "-CGN", then the queries of a non-empty query.
pub open spec fn spec_ls_command(o: GuiOptions, query: Seq<char>) -> Seq<Seq<char>> {
    let (c, queries) = spec_garden_command(o, "ls"@, query);
    if query.len() == 0 {
        c.push("-CGN"@)
    } else {
        c.push("-CGN"@) + queries
    }
}

/// Build the "garden ls" command line (see `spec_ls_command`).
pub fn ls_command_vec(options: &GuiOptions, query: &str) -> (r: Vec<String>)
    ensures
        strs_view(r@) == spec_ls_command(*options, query@),
{
    let (mut command, mut queries) = garden_command_vec(options, "ls", query);
    push_word(&mut command, owned("-CGN"));
    if !query.is_empty() {
        append_words(&mut command, &mut queries);
    }
    command
}

/// One when the condition holds.
#[verifier::opaque]
pub open spec fn count_if(cond: bool) -> int {
    if cond {
        1
    } else {
        0
    }
}

/// The number of words reserved for a custom command line: "garden" and the
/// command, the queries, one per define, two per debug name, and one for each other
/// option that differs from its default.
pub open spec fn spec_command_capacity(o: GuiOptions, queries: int) -> int {
    2 + queries + o.define@.len() + o.debug@.len() * 2 + spec_flag_count(o)
}

/// The number of options that differ from their defaults and take one word.
pub open spec fn spec_flag_count(o: GuiOptions) -> int {
    spec_run_flags(o) + spec_global_flags(o)
}

/// The options of running commands that differ from their defaults.
pub open spec fn spec_run_flags(o: GuiOptions) -> int {
    count_if(o.dry_run) + count_if(!o.exit_on_error) + count_if(o.force) + count_if(o.keep_going) + count_if(
        !o.word_split,
    ) + count_if(o.num_jobs is Some)
}

/// The global options that differ from their defaults.
pub open spec fn spec_global_flags(o: GuiOptions) -> int {
    count_if(o.config is Some) + count_if(o.color != ColorMode::Auto) + count_if(o.quiet) + count_if(
        o.root is Some,
    ) + count_if(o.verbose > 0)
}

/// One when the condition holds, else zero.
fn one_if(cond: bool) -> (r: usize)
    ensures
        r == count_if(cond),
        r <= 1,
{
    reveal(count_if);
    if cond {
        1
    } else {
        0
    }
}

/// Count the words reserved for a custom command line (see `spec_command_capacity`).
pub fn command_capacity(options: &GuiOptions, queries: &Vec<String>) -> (r: usize)
    requires
        spec_command_capacity(*options, queries@.len() as int) <= usize::MAX,
    ensures
        r == spec_command_capacity(*options, queries@.len() as int),
{
    let flags = flag_count(options);
    let a = 2 + queries.len();
    let b = a + options.define.len();
    let c = b + options.debug.len() * 2;
    c + flags
}

/// Count the options that differ from their defaults and take one word.
fn flag_count(options: &GuiOptions) -> (r: usize)
    ensures
        r == spec_flag_count(*options),
        r <= 11,
{
    run_flag_count(options) + global_flag_count(options)
}

/// Count the options of running commands that differ from their defaults.
fn run_flag_count(options: &GuiOptions) -> (r: usize)
    ensures
        r == spec_run_flags(*options),
        r <= 6,
{
    let f1 = one_if(options.dry_run);
    let f2 = one_if(!options.exit_on_error);
    let f3 = one_if(options.force);
    let f4 = one_if(options.keep_going);
    let f5 = one_if(!options.word_split);
    let f6 = one_if(options.num_jobs.is_some());
    f1 + f2 + f3 + f4 + f5 + f6
}

/// Count the global options that differ from their defaults.
fn global_flag_count(options: &GuiOptions) -> (r: usize)
    ensures
        r == spec_global_flags(*options),
        r <= 5,
{
    let auto = matches!(options.color, ColorMode::Auto);
    let f1 = one_if(options.config.is_some());
    let f2 = one_if(!auto);
    let f3 = one_if(options.quiet);
    let f4 = one_if(options.root.is_some());
    let f5 = one_if(options.verbose > 0);
    f1 + f2 + f3 + f4 + f5
}

/// The trees of every query in a string of shell words, in order; an empty string
/// queries ".".
pub open spec fn spec_query_trees(
    cfgs: Seq<crate::model::Configuration>,
    config: crate::model::Configuration,
    query: Seq<char>,
    paths: CanonicalPaths,
) -> Seq<CtxView> {
    let words = spec_shell_words(if query.len() == 0 {
        constants::DOT@
    } else {
        query
    });
    resolved_all(cfgs, config, words, paths)
}

/// The trees of each query in turn.
pub open spec fn resolved_all(
    cfgs: Seq<crate::model::Configuration>,
    config: crate::model::Configuration,
    queries: Seq<Seq<char>>,
    paths: CanonicalPaths,
) -> Seq<CtxView>
    decreases queries.len(),
{
    if queries.len() == 0 {
        Seq::empty()
    } else {
        resolved_all(cfgs, config, queries.drop_last(), paths) + spec_resolve_trees(
            cfgs,
            config,
            None,
            queries.last(),
            paths,
        )
    }
}

/// Resolve several tree queries given as one string of shell words (see
/// `spec_query_trees`).
pub fn query_trees(app_context: &ApplicationContext, query: &str, paths: &CanonicalPaths) -> (r: Vec<TreeContext>)
    requires
        app_context.wf(),
    ensures
        contexts_view(r@) == spec_query_trees(
            app_context.configs(),
            app_context.configs()[app_context.root_of() as int],
            query@,
            *paths,
        ),
{
    let config = app_context.get_root_config();
    proof {
        assert(graft_ids_below(app_context.configs()[app_context.root_of() as int], app_context.configs().len()));
    }
    let queries = if query.is_empty() {
        shlex_split(constants::DOT)
    } else {
        shlex_split(query)
    };
    let ghost words = strs_view(queries@);
    let mut contexts: Vec<TreeContext> = Vec::new();
    let mut i: usize = 0;
    assert(contexts_view(contexts@) =~= Seq::<CtxView>::empty());
    while i < queries.len()
        invariant
            app_context.wf(),
            *config == app_context.configs()[app_context.root_of() as int],
            graft_ids_below(*config, app_context.configs().len()),
            words == strs_view(queries@),
            i <= queries@.len(),
            contexts_view(contexts@) == resolved_all(app_context.configs(), *config, words.take(i as int), *paths),
        decreases queries@.len() - i,
    {
        assert(words.take(i + 1).drop_last() =~= words.take(i as int));
        assert(words.take(i + 1).last() == queries@[i as int]@);
        let mut found = resolve_trees(app_context, config, None, queries[i].as_str(), paths);
        let ghost before = contexts@;
        let ghost more = found@;
        contexts.append(&mut found);
        assert(contexts_view(contexts@) =~= contexts_view(before) + contexts_view(more));
        i = i + 1;
    }
    assert(words.take(queries@.len() as int) =~= words);
    contexts
}

/// The "garden-gui" command line that "garden gui" runs: the global options given to
/// garden (config, debug names, defines, root, quiet, verbosity), then the
/// arguments.
pub open spec fn spec_gui_launch_command(o: crate::cli::MainOptions, args: Seq<Seq<char>>) -> Seq<Seq<char>> {
    let c0 = seq![constants::GARDEN_GUI@];
    let c1 = match o.config {
        Some(c) => c0.push("--config"@).push(c@),
        None => c0,
    };
    let c2 = c1 + option_pairs("--debug"@, strs_view(o.debug@));
    let c3 = c2 + option_pairs("--define"@, strs_view(o.define@));
    let c4 = match o.root {
        Some(r) => c3.push("--root"@).push(r@),
        None => c3,
    };
    let c5 = push_if(c4, o.quiet, "--quiet"@);
    let c6 = push_if(c5, o.verbose > 0, verbose_flags(o.verbose as nat));
    c6 + args
}

/// Append option pairs: the option name before each value.
fn push_option_pairs(command: &mut Vec<String>, option: &str, values: &Vec<String>)
    ensures
        strs_view(final(command)@) == strs_view(old(command)@) + option_pairs(option@, strs_view(values@)),
{
    let ghost base = strs_view(command@);
    let mut i: usize = 0;
    assert(strs_view(values@).take(0) =~= Seq::<Seq<char>>::empty());
    assert(strs_view(command@) =~= base + option_pairs(option@, strs_view(values@).take(0)));
    while i < values.len()
        invariant
            i <= values@.len(),
            strs_view(command@) == base + option_pairs(option@, strs_view(values@).take(i as int)),
        decreases values@.len() - i,
    {
        push_word(command, owned(option));
        push_word(command, values[i].clone());
        assert(strs_view(values@).take(i + 1).drop_last() =~= strs_view(values@).take(i as int));
        assert(strs_view(command@) =~= base + option_pairs(option@, strs_view(values@).take(i + 1)));
        i = i + 1;
    }
    assert(strs_view(values@).take(values@.len() as int) =~= strs_view(values@));
}

/// Build the "garden-gui" command line (see `spec_gui_launch_command`).
pub fn gui_launch_command(options: &crate::cli::MainOptions, args: &Vec<String>) -> (r: Vec<String>)
    ensures
        strs_view(r@) == spec_gui_launch_command(*options, strs_view(args@)),
{
    let mut command: Vec<String> = Vec::new();
    push_word(&mut command, owned(constants::GARDEN_GUI));
    assert(strs_view(command@) =~= seq![constants::GARDEN_GUI@]);
    if let Some(config) = &options.config {
        push_word(&mut command, owned("--config"));
        push_word(&mut command, config.clone());
    }
    push_option_pairs(&mut command, "--debug", &options.debug);
    push_option_pairs(&mut command, "--define", &options.define);
    if let Some(root) = &options.root {
        push_word(&mut command, owned("--root"));
        push_word(&mut command, root.clone());
    }
    if options.quiet {
        push_word(&mut command, owned("--quiet"));
    }
    if options.verbose > 0 {
        push_word(&mut command, verbose_string(options.verbose));
    }
    let ghost before = strs_view(command@);
    let mut i: usize = 0;
    while i < args.len()
        invariant
            i <= args@.len(),
            strs_view(command@) == before + strs_view(args@).take(i as int),
        decreases args@.len() - i,
    {
        push_word(&mut command, args[i].clone());
        assert(strs_view(args@).take(i + 1) =~= strs_view(args@).take(i as int).push(args@[i as int]@));
        i = i + 1;
    }
    assert(strs_view(args@).take(args@.len() as int) =~= strs_view(args@));
    command
}

/// The number of words reserved for the "garden-gui" command line.
pub open spec fn spec_gui_capacity(o: crate::cli::MainOptions, args: int) -> int {
    1 + 2 * count_if(o.config is Some) + o.debug@.len() * 2 + o.define@.len() * 2 + 2 * count_if(o.root is Some)
        + count_if(o.quiet) + count_if(o.verbose > 0) + args
}

/// Count the words reserved for the "garden-gui" command line (see
/// `spec_gui_capacity`).
pub fn gui_capacity(options: &crate::cli::MainOptions, args: &Vec<String>) -> (r: usize)
    requires
        spec_gui_capacity(*options, args@.len() as int) <= usize::MAX,
    ensures
        r == spec_gui_capacity(*options, args@.len() as int),
{
    let config = one_if(options.config.is_some());
    let root = one_if(options.root.is_some());
    let quiet = one_if(options.quiet);
    let verbose = one_if(options.verbose > 0);
    let a = 1 + 2 * config;
    let b = a + options.debug.len() * 2;
    let c = b + options.define.len() * 2;
    let d = c + 2 * root + quiet + verbose;
    d + args.len()
}

/// A sorted arrangement of the strings of `items`.
pub open spec fn sorts(part: Seq<Seq<char>>, items: Seq<Seq<char>>) -> bool {
    sorted(part) && part.to_multiset() == items.to_multiset()
}

/// Append the keys of entries, each with a prefix.
fn push_keys<V>(out: &mut Vec<String>, entries: &OrderedMap<V>, prefix: &str)
    ensures
        strs_view(final(out)@) == strs_view(old(out)@) + prefixed(prefix@, entry_keys(entries@)),
{
    let ghost base = strs_view(out@);
    let mut i: usize = 0;
    assert(entry_keys(entries@).take(0) =~= Seq::<Seq<char>>::empty());
    assert(strs_view(out@) =~= base + prefixed(prefix@, entry_keys(entries@).take(0)));
    while i < entries.len()
        invariant
            i <= entries@.len(),
            strs_view(out@) == base + prefixed(prefix@, entry_keys(entries@).take(i as int)),
        decreases entries@.len() - i,
    {
        push_word(out, concat(prefix, entries.key_at(i).as_str()));
        assert(entry_keys(entries@).take(i + 1) =~= entry_keys(entries@).take(i as int).push(entries@[i as int].0));
        assert(strs_view(out@) =~= base + prefixed(prefix@, entry_keys(entries@).take(i + 1)));
        i = i + 1;
    }
    assert(entry_keys(entries@).take(entries@.len() as int) =~= entry_keys(entries@));
}

/// The completions of the query field: the names of the trees, groups and gardens,
/// sorted; then the tree queries ("@name"), the group queries ("%name") and the
/// garden queries (":name"), each sorted.
pub open spec fn completions_are(r: Seq<Seq<char>>, config: Configuration) -> bool {
    let trees = entry_keys(config.trees@);
    let groups = entry_keys(config.groups@);
    let gardens = entry_keys(config.gardens@);
    let n = trees.len() + groups.len() + gardens.len();
    let t = n + trees.len();
    let g = t + groups.len();
    &&& r.len() == g + gardens.len()
    &&& sorts(r.subrange(0, n as int), trees + groups + gardens)
    &&& sorts(r.subrange(n as int, t as int), prefixed("@"@, trees))
    &&& sorts(r.subrange(t as int, g as int), prefixed("%"@, groups))
    &&& sorts(r.subrange(g as int, r.len() as int), prefixed(":"@, gardens))
}

/// The completions of the query field (see `completions_are`).
pub fn completion_values(app_context: &ApplicationContext) -> (r: Vec<String>)
    requires
        app_context.wf(),
    ensures
        completions_are(strs_view(r@), app_context.configs()[app_context.root_of() as int]),
{
    let config = app_context.get_root_config();
    let mut names: Vec<String> = Vec::new();
    assert(strs_view(names@) =~= Seq::<Seq<char>>::empty());
    push_keys(&mut names, &config.trees, "");
    push_keys(&mut names, &config.groups, "");
    push_keys(&mut names, &config.gardens, "");
    let mut tree_names: Vec<String> = Vec::new();
    assert(strs_view(tree_names@) =~= Seq::<Seq<char>>::empty());
    push_keys(&mut tree_names, &config.trees, "@");
    let mut group_names: Vec<String> = Vec::new();
    assert(strs_view(group_names@) =~= Seq::<Seq<char>>::empty());
    push_keys(&mut group_names, &config.groups, "%");
    let mut garden_names: Vec<String> = Vec::new();
    assert(strs_view(garden_names@) =~= Seq::<Seq<char>>::empty());
    push_keys(&mut garden_names, &config.gardens, ":");
    proof {
        reveal_strlit("");
        assert(""@ =~= Seq::<char>::empty());
        assert(prefixed(""@, entry_keys(config.trees@)) =~= entry_keys(config.trees@));
        assert(prefixed(""@, entry_keys(config.groups@)) =~= entry_keys(config.groups@));
        assert(prefixed(""@, entry_keys(config.gardens@)) =~= entry_keys(config.gardens@));
        assert(strs_view(names@) =~= entry_keys(config.trees@) + entry_keys(config.groups@) + entry_keys(
            config.gardens@,
        ));
        assert(strs_view(tree_names@) =~= prefixed("@"@, entry_keys(config.trees@)));
        assert(strs_view(group_names@) =~= prefixed("%"@, entry_keys(config.groups@)));
        assert(strs_view(garden_names@) =~= prefixed(":"@, entry_keys(config.gardens@)));
    }
    let mut result = sort_strings(names);
    let mut trees = sort_strings(tree_names);
    let mut groups = sort_strings(group_names);
    let mut gardens = sort_strings(garden_names);
    let ghost a = strs_view(result@);
    let ghost b = strs_view(trees@);
    let ghost c = strs_view(groups@);
    let ghost d = strs_view(gardens@);
    proof {
        broadcast use vstd::seq_lib::group_to_multiset_ensures;
        assert(a.len() == a.to_multiset().len());
        assert(b.len() == b.to_multiset().len());
        assert(c.len() == c.to_multiset().len());
        assert(d.len() == d.to_multiset().len());
    }
    append_words(&mut result, &mut trees);
    append_words(&mut result, &mut groups);
    append_words(&mut result, &mut gardens);
    proof {
        broadcast use vstd::seq_lib::group_to_multiset_ensures;
        let r = strs_view(result@);
        let trees_k = entry_keys(config.trees@);
        let groups_k = entry_keys(config.groups@);
        let gardens_k = entry_keys(config.gardens@);
        assert((trees_k + groups_k + gardens_k).len() == (trees_k + groups_k + gardens_k).to_multiset().len());
        assert(prefixed("@"@, trees_k).len() == prefixed("@"@, trees_k).to_multiset().len());
        assert(prefixed("%"@, groups_k).len() == prefixed("%"@, groups_k).to_multiset().len());
        assert(prefixed(":"@, gardens_k).len() == prefixed(":"@, gardens_k).to_multiset().len());
        assert(r =~= a + b + c + d);
        assert(r.subrange(0, a.len() as int) =~= a);
        assert(r.subrange(a.len() as int, (a.len() + b.len()) as int) =~= b);
        assert(r.subrange((a.len() + b.len()) as int, (a.len() + b.len() + c.len()) as int) =~= c);
        assert(r.subrange((a.len() + b.len() + c.len()) as int, r.len() as int) =~= d);
    }
    result
}

/// The label of a command button: a pre- or post-command name ("build<",
/// "build>") is shown without its final "<" or ">".
pub open spec fn button_name(k: Seq<char>) -> Seq<char> {
    if k.len() > 1 && (k.last() == '<' || k.last() == '>') {
        k.drop_last()
    } else {
        k
    }
}

/// The command names of the gardens of the contexts, in order.
pub open spec fn garden_command_keys(config: Configuration, ctxs: Seq<CtxView>) -> Seq<Seq<char>>
    decreases ctxs.len(),
{
    if ctxs.len() == 0 {
        Seq::empty()
    } else {
        garden_command_keys(config, ctxs.drop_last()) + match ctxs.last().2 {
            Some(g) => match entry_get(config.gardens@, g) {
                Some(garden) => entry_keys(garden.commands@),
                None => Seq::empty(),
            },
            None => Seq::empty(),
        }
    }
}

/// The command names of the trees of the contexts, in order.
pub open spec fn tree_command_keys(config: Configuration, ctxs: Seq<CtxView>) -> Seq<Seq<char>>
    decreases ctxs.len(),
{
    if ctxs.len() == 0 {
        Seq::empty()
    } else {
        tree_command_keys(config, ctxs.drop_last()) + match entry_get(config.trees@, ctxs.last().0) {
            Some(tree) => entry_keys(tree.commands@),
            None => Seq::empty(),
        }
    }
}

/// The labels added to `seen` for command names `keys`, each label once.
pub open spec fn add_buttons(seen: Seq<Seq<char>>, keys: Seq<Seq<char>>) -> Seq<Seq<char>>
    decreases keys.len(),
{
    if keys.len() == 0 {
        seen
    } else {
        set_insert(add_buttons(seen, keys.drop_last()), button_name(keys.last()))
    }
}

/// The custom command buttons of the graphical front end, after its "grow" and
/// "ls" buttons: the commands of the root configuration, then those of the gardens
/// of the queried contexts, then those of their trees, each label once.
pub open spec fn spec_gui_command_names(config: Configuration, ctxs: Seq<CtxView>) -> Seq<Seq<char>> {
    add_buttons(
        Seq::empty(),
        entry_keys(config.commands@) + garden_command_keys(config, ctxs) + tree_command_keys(config, ctxs),
    )
}

/// Adding the labels of two lists in turn adds those of their concatenation.
proof fn lemma_add_buttons_concat(seen: Seq<Seq<char>>, a: Seq<Seq<char>>, b: Seq<Seq<char>>)
    ensures
        add_buttons(add_buttons(seen, a), b) == add_buttons(seen, a + b),
    decreases b.len(),
{
    if b.len() == 0 {
        assert(a + b =~= a);
    } else {
        lemma_add_buttons_concat(seen, a, b.drop_last());
        assert((a + b).drop_last() =~= a + b.drop_last());
        assert((a + b).last() == b.last());
    }
}

/// The label of a command button (see `button_name`).
fn button_label(k: &String) -> (r: String)
    ensures
        r@ == button_name(k@),
{
    let v = chars_of(k.as_str());
    let n = v.len();
    if n > 1 && (v[n - 1] == '<' || v[n - 1] == '>') {
        let r = string_from_range(&v, 0, n - 1);
        assert(r@ =~= k@.drop_last());
        r
    } else {
        k.clone()
    }
}

/// Add the labels of the commands of `commands` to `seen`.
fn add_command_buttons(seen: &mut StringSet, commands: &MultiVariableMap)
    ensures
        final(seen)@ == add_buttons(old(seen)@, entry_keys(commands@)),
{
    let ghost keys = entry_keys(commands@);
    let mut i: usize = 0;
    while i < commands.len()
        invariant
            i <= commands@.len(),
            keys == entry_keys(commands@),
            seen@ == add_buttons(old(seen)@, keys.take(i as int)),
        decreases commands@.len() - i,
    {
        let label = button_label(commands.key_at(i));
        seen.insert(label);
        assert(keys.take(i + 1).drop_last() =~= keys.take(i as int));
        i = i + 1;
    }
    assert(keys.take(commands@.len() as int) =~= keys);
}

/// The custom command buttons that the graphical front end shows for the contexts
/// of its tree query (see `spec_gui_command_names`).
pub fn gui_command_names(app_context: &ApplicationContext, contexts: &Vec<TreeContext>) -> (r: Vec<String>)
    requires
        app_context.wf(),
    ensures
        strs_view(r@) == spec_gui_command_names(
            app_context.configs()[app_context.root_of() as int],
            contexts_view(contexts@),
        ),
{
    let config = app_context.get_root_config();
    let ghost ctxs = contexts_view(contexts@);
    let mut seen = StringSet::new();
    add_command_buttons(&mut seen, &config.commands);
    let ghost root_keys = entry_keys(config.commands@);
    let mut i: usize = 0;
    while i < contexts.len()
        invariant
            i <= contexts@.len(),
            ctxs == contexts_view(contexts@),
            seen@ == add_buttons(Seq::empty(), root_keys + garden_command_keys(*config, ctxs.take(i as int))),
        decreases contexts@.len() - i,
    {
        let ghost before = seen@;
        assert(ctxs.take(i + 1).drop_last() =~= ctxs.take(i as int));
        assert(ctxs.take(i + 1).last() == crate::model::context_view(contexts@[i as int]));
        match &contexts[i].garden {
            Some(g) => match config.gardens.get(g.as_str()) {
                Some(garden) => {
                    add_command_buttons(&mut seen, &garden.commands);
                    proof {
                        lemma_add_buttons_concat(
                            Seq::empty(),
                            root_keys + garden_command_keys(*config, ctxs.take(i as int)),
                            entry_keys(garden.commands@),
                        );
                        assert(root_keys + garden_command_keys(*config, ctxs.take(i + 1)) =~= root_keys
                            + garden_command_keys(*config, ctxs.take(i as int)) + entry_keys(garden.commands@));
                    }
                },
                None => {
                    assert(root_keys + garden_command_keys(*config, ctxs.take(i + 1)) =~= root_keys
                        + garden_command_keys(*config, ctxs.take(i as int)));
                },
            },
            None => {
                assert(root_keys + garden_command_keys(*config, ctxs.take(i + 1)) =~= root_keys
                    + garden_command_keys(*config, ctxs.take(i as int)));
            },
        }
        i = i + 1;
    }
    assert(ctxs.take(contexts@.len() as int) =~= ctxs);
    let ghost head = root_keys + garden_command_keys(*config, ctxs);
    let mut i: usize = 0;
    assert(head + tree_command_keys(*config, ctxs.take(0)) =~= head);
    while i < contexts.len()
        invariant
            i <= contexts@.len(),
            ctxs == contexts_view(contexts@),
            seen@ == add_buttons(Seq::empty(), head + tree_command_keys(*config, ctxs.take(i as int))),
        decreases contexts@.len() - i,
    {
        assert(ctxs.take(i + 1).drop_last() =~= ctxs.take(i as int));
        assert(ctxs.take(i + 1).last() == crate::model::context_view(contexts@[i as int]));
        match config.get_tree(contexts[i].tree.as_str()) {
            Some(tree) => {
                add_command_buttons(&mut seen, &tree.commands);
                proof {
                    lemma_add_buttons_concat(
                        Seq::empty(),
                        head + tree_command_keys(*config, ctxs.take(i as int)),
                        entry_keys(tree.commands@),
                    );
                    assert(head + tree_command_keys(*config, ctxs.take(i + 1)) =~= head + tree_command_keys(
                        *config,
                        ctxs.take(i as int),
                    ) + entry_keys(tree.commands@));
                }
            },
            None => {
                assert(head + tree_command_keys(*config, ctxs.take(i + 1)) =~= head + tree_command_keys(
                    *config,
                    ctxs.take(i as int),
                ));
            },
        }
        i = i + 1;
    }
    assert(ctxs.take(contexts@.len() as int) =~= ctxs);
    let mut names: Vec<String> = Vec::new();
    let mut k: usize = 0;
    while k < seen.len()
        invariant
            k <= seen@.len(),
            strs_view(names@) == seen@.take(k as int),
        decreases seen@.len() - k,
    {
        let item = seen.get_index(k).clone();
        let ghost before = names@;
        names.push(item);
        assert(names@ == before.push(item));
        assert(strs_view(names@) =~= strs_view(before).push(item@));
        assert(seen@.take(k + 1) =~= seen@.take(k as int).push(seen@[k as int]));
        k = k + 1;
    }
    assert(seen@.take(seen@.len() as int) =~= seen@);
    names
}

} // verus!

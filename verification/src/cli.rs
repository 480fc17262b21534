//! Command-line options.
use vstd::prelude::*;

use crate::model::ColorMode;
use crate::text::str_eq;

verus! {

/// Options for "garden cmd".
pub struct CmdOptions {
    pub breadth_first: bool,
    pub dry_run: bool,
    pub keep_going: bool,
    pub trees: String,
    pub define: Vec<String>,
    pub exit_on_error: bool,
    pub force: bool,
    pub num_jobs: Option<usize>,
    pub quiet: bool,
    pub verbose: u8,
    pub echo: bool,
    pub word_split: bool,
    pub query: String,
    pub commands: Vec<String>,
    pub arguments: Vec<String>,
}

/// Options for "garden completion".
pub struct CompletionOptions {
    pub commands: bool,
    pub shell: String,
}

/// Options for "garden eval".
pub struct EvalOptions {
    pub define: Vec<String>,
    pub expr: String,
    pub tree: Option<String>,
    pub garden: Option<String>,
}

/// Options for "garden exec".
pub struct ExecOptions {
    pub trees: String,
    pub dry_run: bool,
    pub num_jobs: Option<usize>,
    pub quiet: bool,
    pub verbose: u8,
    pub query: String,
    pub command: Vec<String>,
}

/// Options for "garden git".
pub struct GitOptions {
    pub trees: String,
    pub dry_run: bool,
    pub num_jobs: Option<usize>,
    pub quiet: bool,
    pub verbose: u8,
    pub query: String,
    pub command: Vec<String>,
}

/// Options for "garden grow".
pub struct GrowOptions {
    pub trees: String,
    pub queries: Vec<String>,
}

/// Options for "garden init".
pub struct InitOptions {
    pub empty: bool,
    pub force: bool,
    pub global: bool,
    pub root: String,
    pub filename: String,
}

/// Options for "garden inspect".
pub struct InspectOptions {
    pub worktrees: bool,
    pub all: bool,
    pub queries: Vec<String>,
}

/// Options for "garden ls".
pub struct ListOptions {
    pub all: bool,
    pub no_commands: bool,
    pub worktrees: bool,
    pub queries: Vec<String>,
}

/// Options for "garden plant".
pub struct PlantOptions {
    pub output: Option<String>,
    pub sort: bool,
    pub paths: Vec<String>,
}

/// Options for "garden prune".
pub struct PruneOptions {
    pub num_jobs: usize,
    pub max_depth: isize,
    pub min_depth: isize,
    pub exact_depth: isize,
    pub no_prompt: bool,
    pub remove: bool,
    pub paths: Vec<String>,
}

/// Options for "garden shell".
pub struct ShellOptions {
    pub verbose: u8,
    pub query: String,
    pub tree: Option<String>,
}

/// The garden sub-command to run.
pub enum Command {
    /// Run custom commands over gardens
    Cmd(CmdOptions),
    /// Generate shell completions
    Completion(CompletionOptions),
    /// Custom commands
    Custom(Vec<String>),
    /// Evaluate garden expressions
    Eval(EvalOptions),
    /// Run commands inside garden environments
    Exec(ExecOptions),
    /// Grow garden worktrees into existence
    Grow(GrowOptions),
    /// Initialize a "garden.yaml" garden configuration file
    Init(InitOptions),
    /// List available gardens, groups, trees and commands
    List(ListOptions),
    /// Add pre-existing worktrees to a garden configuration file
    Plant(PlantOptions),
    /// Remove unreferenced Git repositories
    Prune(PruneOptions),
    /// Open a shell in a garden environment
    Shell(ShellOptions),
}

/// Top-level options shared by every garden command.
pub struct MainOptions {
    pub color: ColorMode,
    pub config: Option<String>,
    pub chdir: Option<String>,
    pub debug: Vec<String>,
    pub define: Vec<String>,
    pub root: Option<String>,
    pub quiet: bool,
    pub verbose: u8,
    pub command: Command,
}

/// Number of entries of `debug` equal to `name`.
pub open spec fn count_matching(debug: Seq<Seq<char>>, name: Seq<char>) -> nat
    decreases debug.len(),
{
    if debug.len() == 0 {
        0
    } else {
        count_matching(debug.drop_last(), name) + if debug.last() == name {
            1nat
        } else {
            0nat
        }
    }
}

/// The views of a list of strings.
pub open spec fn strings_view(v: Seq<String>) -> Seq<Seq<char>> {
    v.map_values(|s: String| s@)
}

/// Count how many debug arguments name the given category; the count is truncated
/// to eight bits.
pub fn debug_level(debug: &Vec<String>, name: &str) -> (level: u8)
    ensures
        level == (count_matching(strings_view(debug@), name@) % 256) as u8,
{
    let mut count: usize = 0;
    let mut i: usize = 0;
    while i < debug.len()
        invariant
            i <= debug@.len(),
            count == count_matching(strings_view(debug@).take(i as int), name@),
            count <= i,
        decreases debug.len() - i,
    {
        assert(strings_view(debug@).take(i + 1).drop_last() =~= strings_view(debug@).take(
            i as int,
        ));
        if str_eq(debug[i].as_str(), name) {
            count = count + 1;
        }
        i = i + 1;
    }
    assert(strings_view(debug@).take(debug@.len() as int) =~= strings_view(debug@));
    (count % 256) as u8
}

impl MainOptions {
    /// Construct a default set of options.
    pub fn new() -> (options: Self)
        ensures
            options.color == ColorMode::Auto,
            options.config is None,
            options.chdir is None,
            options.debug@.len() == 0,
            options.define@.len() == 0,
            options.root is None,
            !options.quiet,
            options.verbose == 0,
            options.command matches Command::Custom(args) && args@.len() == 0,
    {
        MainOptions {
            color: ColorMode::Auto,
            config: None,
            chdir: None,
            debug: Vec::new(),
            define: Vec::new(),
            root: None,
            quiet: false,
            verbose: 0,
            command: Command::Custom(Vec::new()),
        }
    }

    /// Return the debug level for the given name.
    pub fn debug_level(&self, name: &str) -> (level: u8)
        ensures
            level == (count_matching(strings_view(self.debug@), name@) % 256) as u8,
    {
        debug_level(&self.debug, name)
    }
}

} // verus!

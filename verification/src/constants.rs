//! Configuration keys, builtin variable names and shell names.
use vstd::prelude::*;

verus! {

/// The "bare" key in a tree block defines a bare repository.
pub const BARE: &'static str = "bare";

/// The "branch" key in a tree block defines the branch to checkout on clone.
pub const BRANCH: &'static str = "branch";

/// The "branches" section in a tree block maps local to remote branches.
pub const BRANCHES: &'static str = "branches";

/// The "config" key in a graft definition defines the path to a garden config file.
pub const CONFIG: &'static str = "config";

/// The "commands" section in a configuration block defines custom commands.
pub const COMMANDS: &'static str = "commands";

/// The "cmd" debug level for "garden cmd".
pub const DEBUG_LEVEL_CMD: &'static str = "cmd";

/// The "config" debug level for configuration reading.
pub const DEBUG_LEVEL_CONFIG: &'static str = "config";

/// The "exec" debug level for "garden exec".
pub const DEBUG_LEVEL_EXEC: &'static str = "exec";

/// The "list" debug level for "garden ls".
pub const DEBUG_LEVEL_LIST: &'static str = "list";

/// The "default-remote" key in a tree block defines the default remote.
pub const DEFAULT_REMOTE: &'static str = "default-remote";

/// The "depth" key in a tree block defines the git clone depth.
pub const DEPTH: &'static str = "depth";

/// The "description" key in a tree block describes the tree.
pub const DESCRIPTION: &'static str = "description";

/// The default "." tree query selects the tree in the current directory.
pub const DOT: &'static str = ".";

/// The "HOME" environment variable is used to resolve "~".
pub const ENV_HOME: &'static str = "HOME";

/// The "PATH" environment variable defines the command search path.
pub const ENV_PATH: &'static str = "PATH";

/// The "PWD" environment variable conveys the current working directory.
pub const ENV_PWD: &'static str = "PWD";

/// The "environment" section of a garden, template or tree block defines
/// environment variables that are set in command environments.
pub const ENVIRONMENT: &'static str = "environment";

/// The "extend" key in a tree or template block is used to extends an existing
/// tree or template block.
pub const EXTEND: &'static str = "extend";

/// The "garden" section of the configuration defines global settings.
pub const GARDEN: &'static str = "garden";

/// The "gardens" section of the configuration defines named "gardens" that
/// are used to aggregate trees, define expression variables and export
/// environment variables for commands.
pub const GARDENS: &'static str = "gardens";

/// The default "garden.yaml" configuration file.
pub const GARDEN_CONFIG: &'static str = "garden.yaml";

/// Builtin variable for the "garden.yaml" configuration directory.
pub const GARDEN_CONFIG_DIR: &'static str = "GARDEN_CONFIG_DIR";

/// Variable expression for the "garden.yaml" configuration directory.
pub const GARDEN_CONFIG_DIR_EXPR: &'static str = "${GARDEN_CONFIG_DIR}";

/// Builtin variable for the "garden.root" location where trees are grown.
pub const GARDEN_ROOT: &'static str = "GARDEN_ROOT";

/// Command-line defines for overriding configurable behavior.
pub const GARDEN_INTERACTIVE_SHELL: &'static str = "garden.interactive-shell";

pub const GARDEN_SHELL: &'static str = "garden.shell";

pub const GARDEN_SHELL_ERREXIT: &'static str = "garden.shell-errexit";

pub const GARDEN_SHELL_WORDSPLIT: &'static str = "garden.shell-wordsplit";

pub const GARDEN_TREE_BRANCHES: &'static str = "garden.tree-branches";

/// The "gitconfig" section in a tree block defines local ".git/config"
/// settings that are applied when a tree is grown.
pub const GITCONFIG: &'static str = "gitconfig";

/// The "grafts" section of the "garden" block is used to graft entities
/// from other garden files into the configuration under a custom namespace.
pub const GRAFTS: &'static str = "grafts";

/// The "groups" section of the configuration defines named groups of trees.
pub const GROUPS: &'static str = "groups";

/// The "includes" key in the garden block reads additional configuration
/// files directly into the configuration.
pub const INCLUDES: &'static str = "includes";

/// The "interactive-shell" key in the garden block overrides the
/// command used by interactive "garden shell" sessions.
pub const INTERACTIVE_SHELL: &'static str = "interactive-shell";

/// The "links" key in a tree block defines URLs displayed by "garden ls".
pub const LINKS: &'static str = "links";

/// The "origin" remote is the default Git remote name.
pub const ORIGIN: &'static str = "origin";

/// The "path" key in a tree block defines the location for a tree.
/// A directory relative to "garden.root" named after the tree is used as
/// the tree's path by default.
pub const PATH: &'static str = "path";

/// The "remotes" key in a tree block defines the Git remotes to configure when
/// a tree is grown.
pub const REMOTES: &'static str = "remotes";

/// The "replace" key in a tree block is used to completely replace a tree when
/// the tree was already loaded via an "includes" entry. The default behavior
/// is to merge and override settings when the same-named tree entries is
/// encountered.
pub const REPLACE: &'static str = "replace";

/// The "root" key in the garden block defines where trees are located and grown.
pub const ROOT: &'static str = "root";

/// The "shell" key in the garden block defines the shell to use for commands.
pub const SHELL: &'static str = "shell";

/// Fast all-in-one JavaScript runtime
pub const SHELL_BUN: &'static str = "bun";

/// GNU Bourne-Again Shell.
pub const SHELL_BASH: &'static str = "bash";

/// Dash command interpreter is the default shell on Debian.
pub const SHELL_DASH: &'static str = "dash";

/// The "shell-errexit" key in the garden block disables the "exit on error"
/// shell option.
pub const SHELL_ERREXIT: &'static str = "shell-errexit";

/// The "shell-wordsplit" key in the garden block disables the `zsh -o shwordsplit` option.
pub const SHELL_WORDSPLIT: &'static str = "shell-wordsplit";

/// KornShell is a standard/restricted command and programming language.
pub const SHELL_KSH: &'static str = "ksh";

/// Cross-platform JavaScript runtime environment.
pub const SHELL_NODE: &'static str = "node";

/// Cross-platform JavaScript runtime environment.
pub const SHELL_NODEJS: &'static str = "nodejs";

/// Highly capable, feature-rich programming language with over 36 years of development.
pub const SHELL_PERL: &'static str = "perl";

/// Default command interpreter.
pub const SHELL_SH: &'static str = "sh";

/// A dynamic, open source programming language with a focus on simplicity and productivity.
pub const SHELL_RUBY: &'static str = "ruby";

/// Extended version of the Bourne Shell with new features.
pub const SHELL_ZSH: &'static str = "zsh";

/// The "single-branch" key in a tree block is used to make "garden grow"
/// track only a single branch. Tracking branches for all remote branches
/// are cloned and fetched by default.
pub const SINGLE_BRANCH: &'static str = "single-branch";

/// The "symlink" key in a tree block creates a symlink.
pub const SYMLINK: &'static str = "symlink";

/// The "templates" section defines tree templates that can be used when
/// defining tree entries.
pub const TEMPLATES: &'static str = "templates";

/// The "tree-branches" key in the garden block can disable the current
/// branch indicator when trees are displayed.
pub const TREE_BRANCHES: &'static str = "tree-branches";

/// Builtin variable for tree names.
pub const TREE_NAME: &'static str = "TREE_NAME";

/// Builtin variable for tree paths.
pub const TREE_PATH: &'static str = "TREE_PATH";

/// The "trees" section of the configuration defines trees that can be cloned
/// into existence using "garden grow" and operated upon with custom commands.
pub const TREES: &'static str = "trees";

/// The "url" key in a tree block defines the "git clone" URL to clone.
pub const URL: &'static str = "url";

/// The "variables" section in a configuration block defines expression
/// variables that can be references using "${variable}" expressions in
/// "environment", "commands" and "variables" blocks. Variables
/// can use "$ exec" expressions to capture stdout from a command.
pub const VARIABLES: &'static str = "variables";

/// The "worktree" key in a tree block is used to refer to a parent
/// tree that will be used to grow the tree using "git worktree add".
pub const WORKTREE: &'static str = "worktree";

/// Builtin variable holding "--quiet" when garden runs quietly.
pub const GARDEN_CMD_QUIET: &'static str = "GARDEN_CMD_QUIET";

/// Builtin variable holding "-v", "-vv", ... when garden runs verbosely.
pub const GARDEN_CMD_VERBOSE: &'static str = "GARDEN_CMD_VERBOSE";

/// The "garden-gui" executable name.
pub const GARDEN_GUI: &'static str = "garden-gui";

} // verus!

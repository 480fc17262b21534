//! Garden: grow and cultivate collections of Git trees.

/// Character-sequence helpers shared by the parsers.
pub mod text;

/// Command-line syntax conventions
pub mod syntax;

/// Insertion-ordered collections
pub mod collections;

/// Model objects
pub mod model;

/// Configuration keys and builtin names
pub mod constants;

/// Error types
pub mod errors;

/// Path-string utilities
pub mod path;

/// Command-line options
pub mod cli;

/// YAML documents
pub mod yaml;

/// Configuration
pub mod config;

/// Glob patterns
pub mod pattern;

/// Tree queries
pub mod query;

/// Variable evaluation decisions
pub mod eval;

/// Shell command construction
pub mod cmd;

/// Reading Git command output
pub mod git;

/// Git commands that create and configure trees
pub mod grow;

/// Creating a garden file
pub mod init;

/// Recording existing worktrees in a garden file
pub mod plant;

/// Pruning decisions
pub mod prune;

/// Running custom commands
pub mod run;

/// What the listings show
pub mod display;

/// Command lines of the graphical front end
pub mod gui;

/// Lexicographic order of strings
pub mod sort;

use garden::cmd::{command_string, shlex_split, ShellParams};
use garden::collections::OrderedMap;
use garden::config::search_path;
use garden::errors::{result_from_exit_status, GardenError};
use garden::eval::{environment_merge, environment_value_merge, join_parts, split_colon};
use garden::git::{branches, lines, name_from_url_or_path};
use garden::grow::{clone_command, remote_commands};
use garden::model::{select_default_shell, split_define, verbose_string, ColorMode, Tree};
use garden::path::{is_absolute, is_shell, path_push, str_basename};
use garden::plant::plant_remotes;
use garden::prune::{
    is_within_bounds, parse_prompt_response, prompt_step, prune_depths, PromptAction,
    PromptResponse, PromptState,
};
use garden::syntax::{bool_to_string, is_digit, split_string, string_to_bool};
use garden::text::{i64_to_string, trim_end};

use garden::grow::{gitconfig_command, GitConfigCache};
use garden::grow::branch_commands;
use garden::grow::default_remote_command;
use garden::run::last_failure;
use garden::run::{ListRun, ListStep};
use garden::run::{expand_command_names, ExpandError};
use garden::config::config_file_candidates;
use garden::model::{include_candidate, Configuration};
use garden::syntax::split_shebang;
use garden::cmd::{command_candidates, path_entries};
use garden::path::strip_prefix;
use garden::model::Variable;
use garden::gui::{command_capacity, custom_command_vec, garden_command_vec, grow_command_vec, gui_capacity, gui_launch_command, ls_command_vec, GuiOptions};
use garden::sort::sort_strings;
use garden::cli::MainOptions;

fn strings(v: &[&str]) -> Vec<String> {
    v.iter().map(|s| s.to_string()).collect()
}

#[test]
fn decimal_formatting() {
    assert_eq!(i64_to_string(0), "0");
    assert_eq!(i64_to_string(42), "42");
    assert_eq!(i64_to_string(-907), "-907");
    assert_eq!(i64_to_string(i64::MIN), i64::MIN.to_string());
}

#[test]
fn trailing_whitespace_is_trimmed() {
    assert_eq!(trim_end("value \t\n"), "value");
    assert_eq!(trim_end("  inner  x"), "  inner  x");
    assert_eq!(trim_end(""), "");
}

#[test]
fn digits_only() {
    assert!(is_digit("0123"));
    assert!(is_digit(""));
    assert!(!is_digit("12a"));
}

#[test]
fn bool_strings_round_trip() {
    for value in [true, false] {
        assert_eq!(string_to_bool(&bool_to_string(value)), Some(value));
    }
    assert_eq!(string_to_bool("1"), Some(true));
    assert_eq!(string_to_bool("0"), Some(false));
    assert_eq!(string_to_bool("yes"), None);
}

#[test]
fn split_string_parts_rejoin() {
    let text = "a::b::c";
    let (ok, before, after) = split_string(text, "::");
    assert!(ok);
    assert_eq!(format!("{before}::{after}"), text);
    assert_eq!(after, "b::c");
}

#[test]
fn path_joining() {
    assert_eq!(path_push("/src", "tree"), "/src/tree");
    assert_eq!(path_push("/src/", "tree"), "/src/tree");
    assert_eq!(path_push("", "tree"), "tree");
    assert_eq!(path_push("/src", "/abs"), "/abs");
    assert!(is_absolute("/x"));
    assert!(!is_absolute("x"));
}

#[test]
fn basenames_and_shells() {
    assert_eq!(str_basename("/usr/bin/zsh"), "zsh");
    assert_eq!(str_basename("C:\\bin\\bash"), "bash");
    assert_eq!(str_basename("sh"), "sh");
    assert!(is_shell("zsh"));
    assert!(is_shell("bash"));
    assert!(!is_shell("python"));
}

#[test]
fn shell_words_are_split() {
    assert_eq!(shlex_split("echo 'a b' c"), strings(&["echo", "a b", "c"]));
    assert!(shlex_split("").is_empty());
    // Unbalanced quotes keep the whole string as one word.
    assert_eq!(shlex_split("echo 'oops"), strings(&["echo 'oops"]));
}

#[test]
fn command_lines_are_quoted() {
    assert_eq!(command_string(&strings(&["echo", "a b"])), "echo 'a b'");
    assert_eq!(command_string(&strings(&["ls"])), "ls");
}

#[test]
fn shell_parameters() {
    let zsh = ShellParams::new("zsh", false, true, true);
    assert!(zsh.is_shell);
    assert_eq!(
        zsh.shell_command,
        strings(&["zsh", "-o", "shwordsplit", "+o", "nomatch", "-e", "-c"])
    );
    let bash = ShellParams::new("/bin/bash", true, false, false);
    assert_eq!(bash.shell_command, strings(&["/bin/bash", "-x", "-c"]));
    let perl = ShellParams::new("perl", false, true, false);
    assert!(!perl.is_shell);
    assert_eq!(perl.shell_command, strings(&["perl", "-e"]));
    let custom = ShellParams::new("bash -l -c", false, true, true);
    assert_eq!(custom.shell_command, strings(&["bash", "-l", "-c"]));
}

#[test]
fn environment_definitions_merge() {
    let mut env = OrderedMap::new();
    env.insert("PATH".to_string(), "/usr/bin".to_string());
    let defs = vec![
        ("PATH".to_string(), strings(&["/a"])),
        ("PATH+".to_string(), strings(&["/b"])),
        ("X=".to_string(), strings(&["1"])),
        ("X".to_string(), strings(&["0"])),
    ];
    let merged = environment_merge(&defs, &env);
    let expect: Vec<(String, String)> = vec![
        ("PATH".into(), "/a:/usr/bin".into()),
        ("PATH".into(), "/a:/usr/bin:/b".into()),
        ("X".into(), "1".into()),
        ("X".into(), "0:1".into()),
    ];
    assert_eq!(merged, expect);
}

#[test]
fn environment_assignment_replaces() {
    let env = OrderedMap::new();
    let defs = vec![
        ("A".to_string(), strings(&["x", "y"])),
        ("A=".to_string(), strings(&["z"])),
    ];
    let merged = environment_merge(&defs, &env);
    assert_eq!(merged.last().unwrap().1, "z");
    assert_eq!(merged[1].1, "y:x");
}

#[test]
fn single_environment_value() {
    let mut env = OrderedMap::new();
    env.insert("PATH".to_string(), "/usr/bin::/bin".to_string());
    let defs = vec![("PATH".to_string(), strings(&["/a"])), ("PATH+".to_string(), strings(&["/b"]))];
    assert_eq!(
        environment_value_merge(&defs, &env),
        Some("/a:/usr/bin:/bin:/b".to_string())
    );
    let empty: Vec<(String, Vec<String>)> = Vec::new();
    assert_eq!(environment_value_merge(&empty, &env), None);
}

#[test]
fn colon_components() {
    assert_eq!(split_colon("a::b:"), strings(&["a", "b"]));
    assert_eq!(join_parts(&strings(&["a", "b", "c"])), "a:b:c");
    assert_eq!(join_parts(&Vec::new()), "");
}

#[test]
fn output_lines() {
    assert_eq!(lines("a\r\nb\n"), strings(&["a", "b"]));
    assert_eq!(lines("a\n\nb"), strings(&["a", "", "b"]));
    assert!(lines("").is_empty());
    assert_eq!(branches("main\n\ndev\n"), strings(&["main", "dev"]));
}

#[test]
fn default_tree_names() {
    assert_eq!(name_from_url_or_path("https://example.com/git/repo.git", ""), "repo");
    assert_eq!(name_from_url_or_path("git@host:x/y.git.git", ""), "y");
    assert_eq!(name_from_url_or_path("", "/src/tree"), "tree");
    assert_eq!(name_from_url_or_path("", "/"), ".");
}

#[test]
fn git_clone_commands() {
    let mut tree = Tree::default();
    let cmd = clone_command(&tree, "https://example.com/x", "/src/x", "");
    assert_eq!(
        cmd,
        strings(&["git", "clone", "--no-single-branch", "https://example.com/x", "/src/x"])
    );
    tree.is_bare_repository = true;
    tree.default_remote = "upstream".to_string();
    tree.clone_depth = 3;
    tree.is_single_branch = true;
    let cmd = clone_command(&tree, "u", "p", "dev");
    assert_eq!(
        cmd,
        strings(&[
            "git", "clone", "--bare", "--origin", "upstream", "--branch=dev", "--depth=3",
            "--single-branch", "u", "p"
        ])
    );
}

#[test]
fn git_remote_commands() {
    let existing = strings(&["origin"]);
    let remotes = vec![
        ("origin".to_string(), "o-url".to_string()),
        ("fork".to_string(), "f-url".to_string()),
    ];
    let cmds = remote_commands(&existing, &remotes);
    assert_eq!(cmds.len(), 3);
    assert_eq!(cmds[0], strings(&["git", "config", "remote.origin.url", "o-url"]));
    assert_eq!(cmds[1], strings(&["git", "remote", "add", "fork", "f-url"]));
    assert_eq!(cmds[2], strings(&["git", "config", "remote.fork.tagopt", "--no-tags"]));
}

#[test]
fn planted_remotes() {
    let (default, others) = plant_remotes(None, Some("origin\nfork"));
    assert_eq!(default, "origin");
    assert_eq!(others, strings(&["fork"]));
    let (default, others) = plant_remotes(None, Some("upstream"));
    assert_eq!(default, "upstream");
    assert!(others.is_empty());
    let (default, others) = plant_remotes(Some("fork"), Some("origin\nfork"));
    assert_eq!(default, "fork");
    assert_eq!(others, strings(&["origin"]));
    let (default, others) = plant_remotes(None, None);
    assert_eq!(default, "origin");
    assert!(others.is_empty());
}

#[test]
fn prune_depth_options() {
    assert_eq!(prune_depths(-1, -1, 2), Ok((2, 2)));
    assert_eq!(prune_depths(1, 3, -1), Ok((1, 3)));
    assert!(prune_depths(3, 1, -1).is_err());
    assert!(prune_depths(1, -1, 2).is_err());
    assert!(is_within_bounds(2, 1, -1));
    assert!(!is_within_bounds(4, 1, 3));
    assert!(!is_within_bounds(0, 1, 3));
}

#[test]
fn prompt_responses() {
    assert!(matches!(parse_prompt_response("  YES\n"), Some(PromptResponse::Delete)));
    assert!(matches!(parse_prompt_response("all"), Some(PromptResponse::All)));
    assert!(matches!(parse_prompt_response("s"), Some(PromptResponse::Skip)));
    assert!(matches!(parse_prompt_response("Quit"), Some(PromptResponse::Quit)));
    assert!(parse_prompt_response("maybe").is_none());
}

#[test]
fn prompt_state_machine() {
    let mut state = PromptState { no_prompt: false, quit: false };
    assert!(matches!(prompt_step(&mut state, Some(PromptResponse::Skip)), PromptAction::Keep));
    assert!(matches!(prompt_step(&mut state, Some(PromptResponse::All)), PromptAction::Remove));
    assert!(state.no_prompt);
    assert!(matches!(prompt_step(&mut state, None), PromptAction::Remove));
    let mut state = PromptState { no_prompt: false, quit: false };
    assert!(matches!(prompt_step(&mut state, Some(PromptResponse::Quit)), PromptAction::Finish));
    assert!(state.quit);
    assert!(matches!(prompt_step(&mut state, None), PromptAction::Keep));
}

#[test]
fn define_options() {
    assert_eq!(split_define("a=b=c"), ("a".to_string(), "b=c".to_string()));
    assert_eq!(split_define("name"), ("name".to_string(), "".to_string()));
    assert_eq!(verbose_string(0), "");
    assert_eq!(verbose_string(3), "-vvv");
}

#[test]
fn default_shell_choice() {
    assert_eq!(select_default_shell(true, true, true), "zsh");
    assert_eq!(select_default_shell(false, true, true), "bash");
    assert_eq!(select_default_shell(false, false, true), "dash");
    assert_eq!(select_default_shell(false, false, false), "sh");
}

#[test]
fn color_mode_names_round_trip() {
    for (name, display) in [("auto", "auto"), ("on", "always"), ("NEVER", "never")] {
        let mode = ColorMode::parse_from_str(name).unwrap();
        assert_eq!(mode.to_string(), display);
        let again = ColorMode::parse_from_str(&mode.to_string()).unwrap();
        assert_eq!(again.to_string(), display);
    }
    assert!(ColorMode::parse_from_str("sometimes").is_err());
}

#[test]
fn exit_statuses() {
    assert!(result_from_exit_status(0).is_ok());
    match result_from_exit_status(3) {
        Err(GardenError::ExitStatus(status)) => assert_eq!(status, 3),
        _ => panic!("expected an exit status error"),
    }
    assert_eq!(GardenError::Usage("x".into()).exit_code(), 64);
    assert_eq!(GardenError::FileNotFound.exit_code(), 74);
    assert_eq!(GardenError::ExitStatus(9).exit_code(), 9);
}

#[test]
fn garden_file_search_path() {
    let exists = vec![true, false, false, true];
    let paths = search_path("/work", "/home/u", "/home/u/.config/garden", &exists);
    assert_eq!(
        paths,
        strings(&["/work", "/work/garden", "/home/u/.config/garden", "/etc/garden"])
    );
}

#[test]
fn gitconfig_values_are_added_once() {
    let mut cache = GitConfigCache::new();
    // A single value is always set.
    assert_eq!(
        gitconfig_command(&mut cache, "user.name", "A U Thor", false),
        Some(strings(&["git", "config", "user.name", "A U Thor"]))
    );
    assert!(cache.needs_query("remote.origin.fetch"));
    cache.record("remote.origin.fetch", Some("a\nb\na\n"));
    assert!(!cache.needs_query("remote.origin.fetch"));
    assert_eq!(gitconfig_command(&mut cache, "remote.origin.fetch", "a", true), None);
    assert_eq!(
        gitconfig_command(&mut cache, "remote.origin.fetch", "c", true),
        Some(strings(&["git", "config", "--add", "remote.origin.fetch", "c"]))
    );
    assert_eq!(gitconfig_command(&mut cache, "remote.origin.fetch", "c", true), None);
    cache.record("x.y", None);
    assert!(cache.append("x.y", "1"));
    assert!(!cache.append("x.y", "1"));
}

#[test]
fn tracking_branch_commands() {
    let existing = strings(&["main"]);
    let branches = vec![
        ("main".to_string(), "origin/main".to_string()),
        ("dev".to_string(), "origin/dev".to_string()),
        ("empty".to_string(), "".to_string()),
    ];
    let cmds = branch_commands(&existing, &branches, Some("dev"));
    assert_eq!(
        cmds,
        vec![
            strings(&["git", "branch", "--track", "dev", "origin/dev"]),
            strings(&["git", "checkout", "dev"]),
        ]
    );
    let cmds = branch_commands(&existing, &branches, Some("other"));
    assert_eq!(cmds.len(), 1);
    assert!(branch_commands(&existing, &Vec::new(), None).is_empty());
}

#[test]
fn default_remote_configuration() {
    let mut tree = Tree::default();
    assert!(default_remote_command(&tree).is_none());
    tree.default_remote = "upstream".to_string();
    assert_eq!(
        default_remote_command(&tree),
        Some(strings(&["git", "config", "checkout.defaultRemoteName", "upstream"]))
    );
}

#[test]
fn last_failure_is_reported() {
    let mut status = 0;
    for s in [0, 2, 0, 5, 0] {
        status = last_failure(status, s);
    }
    assert_eq!(status, 5);
    assert_eq!(last_failure(0, 0), 0);
}

#[test]
fn command_lists_with_and_without_errexit() {
    // errexit: the first failure stops the list.
    let mut run = ListRun::new();
    assert_eq!(run.command_finished(0, true), ListStep::Continue);
    assert_eq!(run.command_finished(3, true), ListStep::Stop(3));
    // no errexit: the list goes on and reports its final command.
    let mut run = ListRun::new();
    assert_eq!(run.command_finished(1, false), ListStep::Continue);
    assert_eq!(run.command_finished(0, false), ListStep::Continue);
    assert_eq!(run.list_finished(), Ok(()));
    let mut run = ListRun::new();
    assert_eq!(run.command_finished(0, false), ListStep::Continue);
    assert_eq!(run.command_finished(7, false), ListStep::Continue);
    assert_eq!(run.list_finished(), Err(7));
}

#[test]
fn command_names_expand_with_hooks() {
    let mut hooks: OrderedMap<Vec<String>> = OrderedMap::new();
    let fuel = 16;
    // Evaluate hooks on demand, as a caller does.
    let values = |name: &str| -> Vec<String> {
        match name {
            "build<" => strings(&["fetch", "build"]),
            "build>" => strings(&["test"]),
            "test<" => strings(&["lint"]),
            _ => Vec::new(),
        }
    };
    let names = loop {
        match expand_command_names(&hooks, "build", fuel) {
            Ok(names) => break names,
            Err(ExpandError::Missing(hook)) => {
                let v = values(&hook);
                hooks.insert(hook, v);
            }
            Err(ExpandError::TooDeep) => panic!("unexpected cycle"),
        }
    };
    assert_eq!(names, strings(&["fetch", "build", "lint", "test"]));
}

#[test]
fn cyclic_command_hooks_are_too_deep() {
    let mut hooks: OrderedMap<Vec<String>> = OrderedMap::new();
    hooks.insert("a<".to_string(), strings(&["b"]));
    hooks.insert("a>".to_string(), Vec::new());
    hooks.insert("b<".to_string(), strings(&["a"]));
    hooks.insert("b>".to_string(), Vec::new());
    assert!(matches!(expand_command_names(&hooks, "a", 8), Err(ExpandError::TooDeep)));
    let mut plain: OrderedMap<Vec<String>> = OrderedMap::new();
    plain.insert("x<".to_string(), Vec::new());
    plain.insert("x>".to_string(), Vec::new());
    assert_eq!(expand_command_names(&plain, "x", 1).ok(), Some(strings(&["x"])));
}

#[test]
fn configuration_file_choice() {
    let dirs = strings(&["/work", "/etc/garden"]);
    let (direct, candidates) = config_file_candidates(None, false, &dirs);
    assert!(direct.is_none());
    assert_eq!(candidates, strings(&["/work/garden.yaml", "/etc/garden/garden.yaml"]));
    let (direct, candidates) = config_file_candidates(Some("custom.yaml"), false, &dirs);
    assert!(direct.is_none());
    assert_eq!(candidates, strings(&["/work/custom.yaml", "/etc/garden/custom.yaml"]));
    let (direct, candidates) = config_file_candidates(Some("/abs/g.yaml"), false, &dirs);
    assert_eq!(direct.as_deref(), Some("/abs/g.yaml"));
    assert!(candidates.is_empty());
    let (direct, _) = config_file_candidates(Some("here.yaml"), true, &dirs);
    assert_eq!(direct.as_deref(), Some("here.yaml"));
}

#[test]
fn configuration_paths() {
    let mut config = Configuration::new("sh".to_string());
    config.set_path("/conf/garden.yaml");
    assert_eq!(config.fallback_execdir(false, true, "/cwd"), "/conf");
    assert_eq!(config.fallback_execdir(false, false, "/cwd"), "/cwd");
    assert_eq!(
        include_candidate("/conf/inc/vars.yaml", "more.yaml").as_deref(),
        Some("/conf/inc/more.yaml")
    );
    let candidate = include_candidate("/conf/inc/vars.yaml", "more.yaml");
    assert_eq!(
        config.config_pathbuf_from_include(candidate.clone(), true, "more.yaml").as_deref(),
        Some("/conf/inc/more.yaml")
    );
    assert_eq!(
        config.config_pathbuf_from_include(candidate, false, "more.yaml").as_deref(),
        Some("/conf/more.yaml")
    );
    assert_eq!(
        config.config_pathbuf_from_include(None, false, "/abs.yaml").as_deref(),
        Some("/abs.yaml")
    );
}

#[test]
fn shebang_lines_are_split() {
    assert_eq!(
        split_shebang("#!/usr/bin/env python3\nprint('hi')\n"),
        Some(("/usr/bin/env python3", "print('hi')\n"))
    );
    assert_eq!(split_shebang("echo hi"), None);
    assert_eq!(split_shebang("#!bash"), None);
    assert_eq!(split_shebang("#!\n"), Some(("", "")));
}

#[test]
fn command_search_candidates() {
    assert_eq!(path_entries("/a::/b"), strings(&["/a", "", "/b"]));
    assert_eq!(path_entries(""), strings(&[""]));
    let env = vec![
        ("HOME".to_string(), "/home/u".to_string()),
        ("PATH".to_string(), "/opt/bin:/usr/bin".to_string()),
        ("PATH".to_string(), "/ignored".to_string()),
    ];
    assert_eq!(
        command_candidates("tool", &env),
        strings(&["/opt/bin/tool", "/usr/bin/tool"])
    );
    assert!(command_candidates("/bin/ls", &env).is_empty());
    assert!(command_candidates("tool", &Vec::new()).is_empty());
}

#[test]
fn paths_under_a_root_are_relative() {
    assert_eq!(strip_prefix("/src", "/src/a/b"), "a/b");
    assert_eq!(strip_prefix("/src", "/srcs/a"), "/srcs/a");
    assert_eq!(strip_prefix("/src", "/src"), "");
    assert_eq!(strip_prefix("/src/", "/src/x"), "x");
}

#[test]
fn upstream_branches_and_their_remotes() {
    let mut tree = Tree::default();
    tree.remotes.insert("origin".to_string(), Variable::new("url".to_string(), None));
    tree.branches.insert("dev".to_string(), Variable::new("origin/dev".to_string(), None));
    assert!(tree.upstream_branch_var("").is_none());
    assert_eq!(tree.upstream_branch_var("dev").map(|v| v.get_expr().clone()), Some("origin/dev".to_string()));
    assert!(tree.upstream_branch_var("main").is_none());
    assert_eq!(tree.remote_for_upstream("origin/dev"), Some("origin".to_string()));
    assert_eq!(tree.remote_for_upstream("fork/dev"), None);
    assert_eq!(tree.remote_for_upstream("origin"), None);
}

#[test]
fn strings_sort_lexicographically() {
    assert_eq!(
        sort_strings(strings(&["b", "a", "ab", "B", "a"])),
        strings(&["B", "a", "a", "ab", "b"])
    );
    assert!(sort_strings(Vec::new()).is_empty());
}

fn gui_options() -> GuiOptions {
    GuiOptions {
        chdir: None,
        color: ColorMode::On,
        config: Some("/g/garden.yaml".to_string()),
        debug: strings(&["exec"]),
        define: strings(&["x=1"]),
        dry_run: true,
        keep_going: false,
        exit_on_error: false,
        force: false,
        num_jobs: Some(4),
        quiet: false,
        verbose: 2,
        word_split: true,
        root: None,
        queries: Vec::new(),
    }
}

#[test]
fn front_end_command_lines() {
    let options = gui_options();
    let (command, queries) = garden_command_vec(&options, "build", "@a %b");
    assert_eq!(
        command,
        strings(&["garden", "--color=always", "--config=/g/garden.yaml", "--debug=exec", "-vv", "build"])
    );
    assert_eq!(queries, strings(&["@a", "%b"]));
    assert_eq!(
        custom_command_vec(&options, "build", "@a"),
        strings(&[
            "garden", "--color=always", "--config=/g/garden.yaml", "--debug=exec", "-vv", "build",
            "--define", "x=1", "--dry-run", "--jobs=4", "--no-errexit", "@a"
        ])
    );
    let grow = grow_command_vec(&options, "");
    assert_eq!(grow.last().map(|s| s.as_str()), Some("."));
    let ls = ls_command_vec(&options, "");
    assert_eq!(ls.last().map(|s| s.as_str()), Some("-CGN"));
    // garden build, one query, one define, two words per debug name, and
    // --dry-run, --config, --color, --no-errexit, -vv and --jobs.
    assert_eq!(command_capacity(&options, &strings(&["@a"])), 2 + 1 + 1 + 2 + 6);
}

#[test]
fn front_end_launch_command() {
    let mut options = MainOptions::new();
    options.config = Some("g.yaml".to_string());
    options.define = strings(&["a=b"]);
    options.quiet = true;
    let args = strings(&["--", "@tree"]);
    let command = gui_launch_command(&options, &args);
    assert_eq!(
        command,
        strings(&["garden-gui", "--config", "g.yaml", "--define", "a=b", "--quiet", "--", "@tree"])
    );
    assert_eq!(gui_capacity(&options, &args), command.len());
}

#[test]
fn color_mode_parsing_ignores_case() {
    for (lower, upper) in [("auto", "AUTO"), ("always", "Always"), ("off", "OFF"), ("yes", "YeS")] {
        let a = ColorMode::parse_from_str(lower).unwrap();
        let b = ColorMode::parse_from_str(upper).unwrap();
        assert_eq!(a.to_string(), b.to_string());
    }
    assert_eq!(
        ColorMode::parse_from_str("MAYBE").err(),
        ColorMode::parse_from_str("maybe").err()
    );
    assert_eq!(
        ColorMode::parse_from_str("maybe").err().unwrap(),
        "choices are [\"auto\", \"always\", \"never\"]"
    );
}

#[test]
fn repeated_gitconfig_append_runs_once() {
    let mut cache = GitConfigCache::new();
    cache.record("remote.origin.pushurl", Some("url1\n"));
    assert_eq!(
        gitconfig_command(&mut cache, "remote.origin.pushurl", "url2", true),
        Some(strings(&["git", "config", "--add", "remote.origin.pushurl", "url2"]))
    );
    assert_eq!(gitconfig_command(&mut cache, "remote.origin.pushurl", "url2", true), None);
    assert_eq!(gitconfig_command(&mut cache, "remote.origin.pushurl", "url1", true), None);
}

#[test]
fn acyclic_hooks_expand_recursively_keeping_duplicates() {
    let mut hooks: OrderedMap<Vec<String>> = OrderedMap::new();
    // Each round adds the hook that the expansion asks for, which is always new.
    let values = |hook: &str| -> Vec<String> {
        match hook {
            "a<" => strings(&["a", "b"]),
            "a>" => strings(&["b"]),
            "b<" => strings(&["c"]),
            _ => Vec::new(),
        }
    };
    let names = loop {
        match expand_command_names(&hooks, "a", hooks.len() + 2) {
            Ok(names) => break names,
            Err(ExpandError::Missing(hook)) => {
                assert!(!hooks.contains_key(&hook));
                let v = values(&hook);
                hooks.insert(hook, v);
            }
            Err(ExpandError::TooDeep) => panic!("unexpected cycle"),
        }
    };
    assert_eq!(names, strings(&["c", "b", "a", "c", "b"]));
}

use garden::cli::ListOptions;
use garden::cmd::{default_num_jobs, initialize_threads_option, shell_command_words};
use garden::collections::StringSet;
use garden::model::ColorMode;
use garden::display::{
    command_line, extended_details, list_default_queries, list_footer_actions, list_tree_actions,
    missing_entry_line, missing_tree_line, name_list, symlink_entry_line, tree_line, Color,
    DisplayOptions, ListAction, Styled,
};

fn strings(v: &[&str]) -> Vec<String> {
    v.iter().map(|s| s.to_string()).collect()
}

fn texts(line: &[Styled]) -> Vec<String> {
    line.iter().map(|p| p.text.clone()).collect()
}

fn list_options(all: bool, no_commands: bool) -> ListOptions {
    ListOptions { all, no_commands, worktrees: false, queries: Vec::new() }
}

#[test]
fn missing_tree_line_marks_skipped_trees() {
    let line = missing_tree_line("tree", "/src/tree", 0, false);
    assert_eq!(texts(&line), strings(&["#", " ", "tree", " (skipped)"]));
    assert_eq!(line[0].color, Color::Black);
    assert!(line[0].bold);
    assert_eq!(line[3].color, Color::Plain);
    assert!(line[3].bold);

    let verbose_forced = missing_tree_line("tree", "/src/tree", 1, true);
    assert_eq!(texts(&verbose_forced), strings(&["#", " ", "tree", " ", "/src/tree"]));
}

#[test]
fn tree_line_shows_branch_and_path() {
    let line = tree_line("tree", "/src/tree", &Some("main".to_string()), 1);
    assert_eq!(texts(&line), strings(&["#", " ", "tree", " ", "[", "main", "]", " ", "/src/tree"]));
    assert_eq!(line[0].color, Color::Cyan);
    assert_eq!(line[2].color, Color::Blue);
    assert!(line[2].bold);
    assert_eq!(line[5].color, Color::Green);
    assert!(line[5].bold);

    let quiet = tree_line("tree", "/src/tree", &None, 0);
    assert_eq!(texts(&quiet), strings(&["#", " ", "tree"]));
}

#[test]
fn missing_and_symlink_entries() {
    let missing = missing_entry_line("tree", "/src/tree", 1);
    assert_eq!(texts(&missing), strings(&["#-", " ", "tree", " ", "/src/tree"]));
    assert_eq!(missing[0].color, Color::Red);
    assert!(missing[0].dim);
    assert!(!missing[2].dim);

    let target = "/src/target".to_string();
    let link = symlink_entry_line("link", "/src/link", Some(&target), 0).unwrap();
    assert_eq!(texts(&link), strings(&["#", " ", "link", " ", "->", " ", "/src/target"]));
    let verbose = symlink_entry_line("link", "/src/link", Some(&target), 1).unwrap();
    assert_eq!(
        texts(&verbose),
        strings(&["#+", " ", "link", " ", "/src/link", " ", "->", " ", "/src/target"])
    );
    assert!(symlink_entry_line("link", "/src/link", None, 1).is_none());
}

#[test]
fn name_lists_are_bulleted() {
    let lines = name_list("groups:", &strings(&["core", "extra"]));
    assert_eq!(lines.len(), 3);
    assert_eq!(texts(&lines[0]), strings(&["groups:"]));
    assert_eq!(texts(&lines[1]), strings(&["  ", "-", " ", "core"]));
    assert_eq!(texts(&lines[2]), strings(&["  ", "-", " ", "extra"]));
    assert_eq!(lines[2][3].color, Color::Yellow);
    assert_eq!(name_list("gardens:", &Vec::new()).len(), 1);
}

#[test]
fn extended_details_of_trees_and_worktrees() {
    let options = DisplayOptions { remotes: true, ..DisplayOptions::default() };
    let remotes = vec![("origin".to_string(), "https://example.com/tree.git".to_string())];
    let links = strings(&["https://example.com"]);
    let lines = extended_details("A tree", false, &options, &remotes, &links);
    assert_eq!(lines.len(), 5);
    assert_eq!(texts(&lines[0]), strings(&["A tree"]));
    assert_eq!(texts(&lines[1]), strings(&["remotes:"]));
    assert_eq!(texts(&lines[2]), strings(&["  ", "origin", ":", " ", "https://example.com/tree.git"]));
    assert_eq!(texts(&lines[3]), strings(&["links:"]));
    assert_eq!(texts(&lines[4]), strings(&["  ", "-", " ", "https://example.com"]));

    // A worktree shows only its description unless worktrees are displayed.
    let lines = extended_details("A worktree", true, &options, &remotes, &links);
    assert_eq!(lines.len(), 1);
    let with_worktrees = DisplayOptions { worktrees: true, ..options };
    assert_eq!(extended_details("", true, &with_worktrees, &remotes, &links).len(), 4);

    // Remotes are hidden unless remotes are displayed.
    let no_remotes = DisplayOptions::default();
    assert_eq!(extended_details("", false, &no_remotes, &remotes, &Vec::new()).len(), 0);
}

#[test]
fn command_line_is_shell_quoted() {
    let line = command_line(&strings(&["echo", "hello world"]));
    assert_eq!(texts(&line), strings(&[":", " ", "echo 'hello world'"]));
    assert_eq!(line[0].color, Color::Cyan);
    assert_eq!(line[2].color, Color::Green);
}

#[test]
fn list_actions_for_missing_symlink_and_present_trees() {
    let options = list_options(false, false);
    let (actions, owed) = list_tree_actions(&options, false, false, true, true, true);
    assert_eq!(actions, vec![ListAction::BlankLine, ListAction::MissingTree]);
    assert!(!owed);

    let all = list_options(true, false);
    let (actions, owed) = list_tree_actions(&all, false, false, true, false, true);
    assert_eq!(
        actions,
        vec![ListAction::MissingTree, ListAction::ExtendedDetails, ListAction::TreeCommands]
    );
    assert!(owed);

    let (actions, owed) = list_tree_actions(&options, true, true, false, true, true);
    assert_eq!(actions, vec![ListAction::BlankLine, ListAction::SymlinkTree]);
    assert!(!owed);

    let (actions, owed) = list_tree_actions(&options, true, false, false, false, true);
    assert_eq!(
        actions,
        vec![
            ListAction::BlankLine,
            ListAction::TreeLine,
            ListAction::ExtendedDetails,
            ListAction::TreeCommands
        ]
    );
    assert!(owed);

    let no_commands = list_options(false, true);
    let (actions, _) = list_tree_actions(&no_commands, true, false, true, false, true);
    assert_eq!(actions, vec![ListAction::TreeLine, ListAction::ExtendedDetails]);
}

#[test]
fn list_footer_sections() {
    let options = list_options(false, false);
    assert_eq!(
        list_footer_actions(&options, true, false, true),
        vec![
            ListAction::BlankLine,
            ListAction::Groups,
            ListAction::BlankLine,
            ListAction::ConfigCommands
        ]
    );
    let no_commands = list_options(false, true);
    assert_eq!(
        list_footer_actions(&no_commands, false, true, true),
        vec![ListAction::BlankLine, ListAction::Gardens]
    );
}

#[test]
fn list_queries_default_to_all_trees() {
    let mut options = list_options(false, false);
    list_default_queries(&mut options);
    assert_eq!(options.queries, strings(&["@*"]));
    let mut given = list_options(false, false);
    given.queries = strings(&["core"]);
    list_default_queries(&mut given);
    assert_eq!(given.queries, strings(&["core"]));
}

#[test]
fn thread_pool_sizes() {
    assert_eq!(default_num_jobs(Some(2)), 3);
    assert_eq!(default_num_jobs(Some(8)), 8);
    assert_eq!(default_num_jobs(None), 4);
    assert_eq!(initialize_threads_option(None, Some(8)), None);
    assert_eq!(initialize_threads_option(Some(0), Some(1)), Some(3));
    assert_eq!(initialize_threads_option(Some(5), Some(16)), Some(5));
}

#[test]
fn shell_command_words_split_like_a_shell() {
    assert_eq!(shell_command_words("zsh -i"), Some(strings(&["zsh", "-i"])));
    assert_eq!(shell_command_words("sh -c 'echo hi'"), Some(strings(&["sh", "-c", "echo hi"])));
    assert_eq!(shell_command_words("sh -c 'unterminated"), None);
}

#[test]
fn string_sets_keep_insertion_order() {
    let mut set = StringSet::new();
    assert!(set.is_empty());
    assert!(set.insert("b".to_string()));
    assert!(set.insert("a".to_string()));
    assert!(!set.insert("b".to_string()));
    assert_eq!(set.len(), 2);
    assert_eq!(set.get_index(0), "b");
    assert_eq!(set.get_index(1), "a");
    assert!(set.contains("a"));
    assert!(!set.contains("c"));

    let mut other = StringSet::new();
    other.insert("c".to_string());
    other.insert("a".to_string());
    set.append(&other);
    assert_eq!(set.len(), 3);
    assert_eq!(set.get_index(2), "c");

    let copy = set.clone();
    assert_eq!(copy.len(), 3);
    assert_eq!(copy.get_index(0), "b");
    set.clear();
    assert!(set.is_empty());
    assert_eq!(copy.len(), 3);
}

#[test]
fn color_modes_settle_by_terminal() {
    assert!(ColorMode::Auto.is_enabled(true));
    assert!(!ColorMode::Auto.is_enabled(false));
    assert!(ColorMode::On.is_enabled(false));
    assert!(!ColorMode::Off.is_enabled(true));
    let mut mode = ColorMode::Auto;
    mode.update(false);
    assert!(mode == ColorMode::Off);
    let mut mode = ColorMode::Auto;
    mode.update(true);
    assert!(mode == ColorMode::On);
    let mut mode = ColorMode::Off;
    mode.update(true);
    assert!(mode == ColorMode::Off);
}

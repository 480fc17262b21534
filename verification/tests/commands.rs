use garden::cli::InitOptions;
use garden::cmd::{command_args, command_string_args, ShellParams};
use garden::errors::GardenError;
use garden::init::{init_document, init_location, init_plants_tree};
use garden::git::worktree_paths;
use garden::grow::{grow_step, symlink_paths, symlink_target, GrowStep};
use garden::model::{Tree, Variable};
use garden::plant::{sort_trees, tree_sort_order};
use garden::prune::{child_depth, is_traversable_entry, is_traversed, subdir_step, TraverseStep};
use garden::yaml::Yaml;

fn strings(v: &[&str]) -> Vec<String> {
    v.iter().map(|s| s.to_string()).collect()
}

fn entry(name: &str, value: i64) -> (Yaml, Yaml) {
    (Yaml::String(name.to_string()), Yaml::Integer(value))
}

#[test]
fn command_args_for_shells_and_interpreters() {
    let bash = ShellParams::new("bash", false, true, false);
    assert_eq!(bash.shell_command, strings(&["bash", "-e", "-c"]));
    let args = command_args(&bash, "echo hi", "/usr/bin/garden", &strings(&["one", "two"]));
    assert_eq!(args, strings(&["bash", "-e", "-c", "echo hi", "/usr/bin/garden", "one", "two"]));

    let python = ShellParams::new("python3 -c", false, false, false);
    let args = command_args(&python, "print(1)", "/usr/bin/garden", &Vec::new());
    assert_eq!(args, strings(&["python3", "-c", "print(1)"]));
}

#[test]
fn command_string_args_follow_shebang_lines() {
    let zsh = ShellParams::new("zsh", false, false, false);
    let args = command_string_args(&zsh, "#!python3 -c\nprint(1)", "garden", &Vec::new());
    assert_eq!(args, strings(&["python3", "-c", "print(1)"]));
    let args = command_string_args(&zsh, "#!/bin/sh -c\necho $0", "garden", &strings(&["x"]));
    assert_eq!(args, strings(&["/bin/sh", "-c", "echo $0", "garden", "x"]));
    let args = command_string_args(&zsh, "echo plain", "garden", &Vec::new());
    assert_eq!(args, strings(&["zsh", "+o", "nomatch", "-c", "echo plain", "garden"]));
}

#[test]
fn worktree_paths_from_porcelain_output() {
    let output = "worktree /src/parent\nHEAD abc\nbranch refs/heads/main\n\nworktree /src/child\nHEAD def\ndetached\n";
    assert_eq!(worktree_paths(output), strings(&["/src/parent", "/src/child"]));
    assert!(worktree_paths("").is_empty());
}

#[test]
fn plant_sort_is_case_insensitive_and_stable() {
    let trees = vec![
        entry("b", 0),
        entry("A", 1),
        (Yaml::Integer(7), Yaml::Integer(2)),
        entry("a", 3),
        entry("C", 4),
    ];
    assert_eq!(tree_sort_order(&trees), vec![1, 3, 0, 4]);
    let sorted = sort_trees(&trees);
    let names: Vec<String> = sorted
        .iter()
        .map(|(key, _)| match key {
            Yaml::String(name) => name.clone(),
            _ => String::new(),
        })
        .collect();
    assert_eq!(names, strings(&["A", "a", "b", "C"]));
    assert!(matches!(sorted[1].1, Yaml::Integer(3)));
    assert!(sort_trees(&Vec::new()).is_empty());
}

fn init_options(filename: &str, global: bool, root: &str, empty: bool) -> InitOptions {
    InitOptions { empty, force: false, global, root: root.to_string(), filename: filename.to_string() }
}

fn hash_value<'a>(entries: &'a [(Yaml, Yaml)], key: &str) -> Option<&'a Yaml> {
    entries.iter().find(|(k, _)| matches!(k, Yaml::String(s) if s == key)).map(|(_, v)| v)
}

#[test]
fn init_location_of_the_garden_file() {
    let (dir, path) = init_location(&init_options("garden.yaml", false, "${GARDEN_CONFIG_DIR}", false), "/work", "/home/u/.config/garden").unwrap();
    assert_eq!((dir.as_str(), path.as_str()), ("/work", "/work/garden.yaml"));
    let (dir, path) = init_location(&init_options("/etc/garden/main.yaml", false, "x", false), "/work", "/xdg").unwrap();
    assert_eq!((dir.as_str(), path.as_str()), ("/etc/garden", "/etc/garden/main.yaml"));
    let (dir, path) = init_location(&init_options("garden.yaml", true, "x", false), "/work", "/xdg").unwrap();
    assert_eq!((dir.as_str(), path.as_str()), ("/xdg", "/xdg/garden.yaml"));
    assert!(matches!(
        init_location(&init_options("/etc/garden.yaml", true, "x", false), "/work", "/xdg"),
        Err(GardenError::Usage(_))
    ));
    assert!(matches!(
        init_location(&init_options("/", false, "x", false), "/work", "/xdg"),
        Err(GardenError::AssertionError(_))
    ));
}

#[test]
fn init_plants_only_with_the_default_root() {
    assert!(init_plants_tree(&init_options("garden.yaml", false, "${GARDEN_CONFIG_DIR}", false)));
    assert!(!init_plants_tree(&init_options("garden.yaml", false, "${GARDEN_CONFIG_DIR}", true)));
    assert!(!init_plants_tree(&init_options("garden.yaml", false, "/src", false)));
}

#[test]
fn init_document_sets_the_root() {
    let mut doc = Yaml::Hash(Vec::new());
    init_document(&mut doc, "${GARDEN_CONFIG_DIR}", None, false).unwrap();
    let Yaml::Hash(entries) = &doc else { panic!("not a mapping") };
    let Some(Yaml::Hash(garden)) = hash_value(entries, "garden") else { panic!("no garden") };
    assert!(matches!(hash_value(garden, "root"), Some(Yaml::String(r)) if r == "${GARDEN_CONFIG_DIR}"));

    let mut not_a_mapping = Yaml::Integer(1);
    assert!(matches!(
        init_document(&mut not_a_mapping, "/src", None, false),
        Err(GardenError::InvalidConfiguration { .. })
    ));
}

#[test]
fn init_document_anchors_the_planted_tree() {
    let tree = Yaml::Hash(vec![(Yaml::String("url".to_string()), Yaml::String("u".to_string()))]);
    let mut doc = Yaml::Hash(vec![(
        Yaml::String("trees".to_string()),
        Yaml::Hash(vec![(Yaml::String("repo".to_string()), tree)]),
    )]);
    init_document(&mut doc, "${GARDEN_CONFIG_DIR}", Some("repo"), true).unwrap();
    let Yaml::Hash(entries) = &doc else { panic!("not a mapping") };
    assert!(hash_value(entries, "garden").is_none());
    let Some(Yaml::Hash(trees)) = hash_value(entries, "trees") else { panic!("no trees") };
    let Some(Yaml::Hash(repo)) = hash_value(trees, "repo") else { panic!("no repo") };
    assert!(matches!(hash_value(repo, "path"), Some(Yaml::String(p)) if p == "${GARDEN_CONFIG_DIR}"));
    assert!(matches!(hash_value(repo, "url"), Some(Yaml::String(u)) if u == "u"));
}

#[test]
fn prune_traversal_steps() {
    assert_eq!(subdir_step("/g/repo", true, 1, 0, -1), TraverseStep::Found);
    assert_eq!(subdir_step("/g/bare.git", false, 1, 0, -1), TraverseStep::Found);
    assert_eq!(subdir_step("/g/repo", true, 0, 1, -1), TraverseStep::Skip);
    assert_eq!(subdir_step("/g/repo", true, 3, 0, 2), TraverseStep::Skip);
    assert_eq!(subdir_step("/g/dir", false, 1, 0, -1), TraverseStep::Descend);
    assert_eq!(subdir_step("/g/.git", false, 1, 0, -1), TraverseStep::Descend);

    assert!(is_traversable_entry("/g/dir", true, false));
    assert!(!is_traversable_entry("/g/dir", true, true));
    assert!(!is_traversable_entry("/g/file", false, false));
    assert!(!is_traversable_entry("/g/.git", true, false));

    let mut configured = garden::collections::StringSet::new();
    configured.insert("/g/tree".to_string());
    assert!(!is_traversed("/g/tree", "/g/tree", &configured, &Vec::new()));
    assert!(is_traversed("/g/other", "/g/other", &configured, &Vec::new()));
    let filters = strings(&["/g/keep"]);
    assert!(!is_traversed("/g/other", "/g/other", &configured, &filters));
    assert!(is_traversed("/g/keep/sub", "/g/keep/sub", &configured, &filters));
    assert!(is_traversed("/g", "/g", &configured, &filters));

    assert_eq!(child_depth(true, 0, 0), Some(0));
    assert_eq!(child_depth(false, 0, 0), Some(1));
    assert_eq!(child_depth(false, 1, 0), None);
    assert_eq!(child_depth(false, 5, -1), Some(6));
}

#[test]
fn grow_steps_for_each_kind_of_tree() {
    let mut tree = Tree::default();
    tree.default_remote = "origin".to_string();
    assert_eq!(grow_step(&tree, true), GrowStep::Update);
    assert_eq!(grow_step(&tree, false), GrowStep::NoRemote);
    tree.remotes.insert("origin".to_string(), Variable::new("https://example.com/repo.git".to_string(), None));
    assert_eq!(grow_step(&tree, false), GrowStep::Clone);
    tree.is_worktree = true;
    assert_eq!(grow_step(&tree, false), GrowStep::Worktree);
    tree.is_symlink = true;
    assert_eq!(grow_step(&tree, false), GrowStep::Symlink);
    assert_eq!(grow_step(&tree, true), GrowStep::Update);
}

#[test]
fn symlink_links_are_relative_to_their_directory() {
    let mut tree = Tree::default();
    assert!(matches!(symlink_paths(&tree), Err(GardenError::ConfigurationError(_))));
    tree.is_symlink = true;
    tree.path.set_value("/src/link".to_string());
    tree.symlink.set_value("/src/target/dir".to_string());
    let (path, target) = symlink_paths(&tree).unwrap();
    assert_eq!((path.as_str(), target.as_str()), ("/src/link", "/src/target/dir"));
    assert_eq!(symlink_target("/src/link", "/src/target/dir").unwrap(), "target/dir");
    assert_eq!(symlink_target("/src/link", "/elsewhere/dir").unwrap(), "/elsewhere/dir");
    assert!(matches!(symlink_target("/", "/x"), Err(GardenError::AssertionError(_))));
}

#[test]
fn shared_repositories_are_configured_once() {
    let mut configured = garden::collections::StringSet::new();
    assert!(garden::grow::configure_once(&mut configured, "/src/repo".to_string()));
    assert!(!garden::grow::configure_once(&mut configured, "/src/repo".to_string()));
    assert!(garden::grow::configure_once(&mut configured, "/src/other".to_string()));
    assert_eq!(configured.len(), 2);
}

use garden::cli::MainOptions;
use garden::collections::OrderedMap;
use garden::config::reader::{parse_body, parse_prelude, parse_trees, worktree_exprs};
use garden::model::{ApplicationContext, Configuration};
use garden::query::{resolve_trees, trees, CanonicalPaths};
use garden::yaml::Yaml;

fn s(v: &str) -> Yaml {
    Yaml::String(v.to_string())
}

fn hash(entries: Vec<(&str, Yaml)>) -> Yaml {
    Yaml::Hash(entries.into_iter().map(|(k, v)| (s(k), v)).collect())
}

fn list(items: &[&str]) -> Yaml {
    Yaml::Array(items.iter().map(|v| s(v)).collect())
}

fn document() -> Yaml {
    hash(vec![
        ("garden", hash(vec![("root", s("/home/test/src"))])),
        ("variables", hash(vec![("foo", s("foo_value")), ("bar", s("${foo}"))])),
        (
            "trees",
            hash(vec![
                ("git", s("https://github.com/git/git")),
                (
                    "cola",
                    hash(vec![
                        ("url", s("https://github.com/git-cola/git-cola")),
                        ("path", s("git-cola")),
                    ]),
                ),
                (
                    "cola-dev",
                    hash(vec![("worktree", s("cola")), ("branch", s("dev"))]),
                ),
                ("qtpy", hash(vec![("url", s("https://github.com/spyder-ide/qtpy"))])),
            ]),
        ),
        ("groups", hash(vec![("cola", list(&["git", "cola", "qtpy"]))])),
        ("gardens", hash(vec![("dev", hash(vec![("trees", list(&["cola*"]))]))])),
    ])
}

fn names(contexts: &[garden::model::TreeContext]) -> Vec<String> {
    contexts.iter().map(|c| c.tree.clone()).collect()
}

fn load() -> ApplicationContext {
    let doc = document();
    let mut app = ApplicationContext::new(MainOptions::new(), "zsh".to_string());
    {
        let config: &mut Configuration = app.get_root_config_mut();
        let prelude = parse_prelude(config, &doc, None);
        assert!(prelude.is_ok());
        assert!(parse_body(config, &doc, false).is_ok());
        let mut worktrees = OrderedMap::new();
        worktrees.insert("cola".to_string(), "cola".to_string());
        assert!(parse_trees(config, &doc, &worktrees).is_ok());
    }
    app
}

#[test]
fn document_variables_are_read() {
    let app = load();
    let config = app.get_root_config();
    let foo = config.variables.get("foo").expect("foo");
    assert_eq!(foo.get_expr(), "foo_value");
    let bar = config.variables.get("bar").expect("bar");
    assert_eq!(bar.get_expr(), "${foo}");
    assert!(config.variables.contains_key("GARDEN_ROOT"));
}

#[test]
fn document_trees_are_read() {
    let app = load();
    let config = app.get_root_config();
    assert_eq!(config.trees.len(), 4);
    let git = config.get_tree("git").expect("git tree");
    assert_eq!(git.get_name(), "git");
    let origin = git.remotes.get("origin").expect("origin remote");
    assert_eq!(origin.get_expr(), "https://github.com/git/git");
    let cola = config.get_tree("cola").expect("cola tree");
    assert_eq!(cola.get_path().get_expr(), "git-cola");
    let dev = config.get_tree("cola-dev").expect("worktree");
    assert!(dev.is_worktree);
    assert_eq!(dev.worktree.get_expr(), "cola");
}

#[test]
fn worktree_expressions_are_collected() {
    let doc = document();
    assert_eq!(worktree_exprs(&doc), vec!["cola".to_string()]);
}

#[test]
fn tree_patterns_match_names() {
    let app = load();
    let config = app.get_root_config();
    assert_eq!(names(&trees(config, "c*")), vec!["cola", "cola-dev"]);
    assert_eq!(names(&trees(config, "qtpy")), vec!["qtpy"]);
    assert!(trees(config, "nothing*").is_empty());
}

#[test]
fn queries_resolve_to_trees() {
    let app = load();
    let config = app.get_root_config();
    let paths = CanonicalPaths { paths: OrderedMap::new() };
    assert_eq!(names(&resolve_trees(&app, config, None, "@git", &paths)), vec!["git"]);
    assert_eq!(
        names(&resolve_trees(&app, config, None, "%cola", &paths)),
        vec!["git", "cola", "qtpy"]
    );
    let garden = resolve_trees(&app, config, None, ":dev", &paths);
    assert_eq!(names(&garden), vec!["cola", "cola-dev"]);
    assert_eq!(garden[0].garden.as_deref(), Some("dev"));
    // A bare name finds the group before the tree of the same name.
    let default = resolve_trees(&app, config, None, "cola", &paths);
    assert_eq!(names(&default), vec!["git", "cola", "qtpy"]);
}

#[test]
fn query_field_completions() {
    let app = load();
    let values = garden::gui::completion_values(&app);
    let expect: Vec<String> = [
        "cola", "cola", "cola-dev", "dev", "git", "qtpy", "@cola", "@cola-dev", "@git", "@qtpy",
        "%cola", ":dev",
    ]
    .iter()
    .map(|s| s.to_string())
    .collect();
    assert_eq!(values, expect);
}

#[test]
fn several_queries_in_one_string() {
    let app = load();
    let paths = CanonicalPaths { paths: OrderedMap::new() };
    let found = garden::gui::query_trees(&app, "@git '@qtpy'", &paths);
    assert_eq!(names(&found), vec!["git", "qtpy"]);
}

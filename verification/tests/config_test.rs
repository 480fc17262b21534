use garden::cli::MainOptions;
use garden::collections::{OrderedMap, StringSet};
use garden::config::reader::{parse_body, parse_prelude, parse_trees, worktree_exprs};
use garden::model::{select_default_shell, ApplicationContext, Configuration, Garden, TreeContext};
use garden::query::{shell_context, CanonicalPaths, ShellTarget};
use garden::errors::GardenError;
use garden::yaml::{document_text, parse_document, Yaml};
use garden::config::graft_details;
use garden::gui::gui_command_names;
use garden::query::find_tree;

/// Read a garden document into a new application context (expressions are read,
/// not evaluated).
fn garden_context_from_string(text: &str) -> ApplicationContext {
    let doc = parse_document(text, "garden.yaml").unwrap();
    let mut app = ApplicationContext::new(MainOptions::new(), "zsh".to_string());
    {
        let config = app.get_root_config_mut();
        parse_prelude(config, &doc, None).unwrap();
        parse_body(config, &doc, false).unwrap();
        let mut worktrees = OrderedMap::new();
        for expr in worktree_exprs(&doc) {
            worktrees.insert(expr.clone(), expr);
        }
        parse_trees(config, &doc, &worktrees).unwrap();
    }
    app
}

fn garden_context() -> ApplicationContext {
    garden_context_from_string(
        r#"
    garden:
        root: ${root}

    variables:
        echo_cmd: echo cmd
        echo_cmd_exec: $ ${echo_cmd}
        test: TEST
        local: ${test}/local
        src: src
        root: ~/${src}

    templates:
        makefile:
            variables:
                prefix: ${TREE_PATH}/local
            commands:
                build: make -j prefix=${prefix} all
                install: make -j prefix=${prefix} install
                test: make test
        python:
            environment:
                PYTHONPATH: ${TREE_PATH}
        local:
            url: ${local}/${TREE_NAME}

    trees:
        git:
            url: https://github.com/git/git
            templates: makefile
            variables:
                prefix: ~/.local
            gitconfig:
                user.name: A U Thor
                user.email: author@example.com
        cola:
            url: https://github.com/git-cola/git-cola
            path: git-cola
            templates: [makefile, python]
            variables:
                prefix: ${TREE_PATH}/local
            environment:
                PATH:
                    - ${prefix}/bin
                    - ${TREE_PATH}/bin
                PYTHONPATH: ${GARDEN_ROOT}/python/send2trash
            commands:
                test:
                    - git status --short
                    - make tox
            remotes:
                davvid: git@github.com:davvid/git-cola.git
        python/qtpy:
            url: https://github.com/spider-ide/qtpy.git
            templates: python
        tmp:
            environment:
                EMPTY: [a, b]
                ${TREE_NAME}_VALUE=: ${TREE_PATH}

            path: /tmp
            templates: local
        annex/data:
            url: git@example.com:git-annex/data.git
            gitconfig:
                remote.origin.annex-ignore: true
            remotes:
                local: ${GARDEN_ROOT}/annex/local
        annex/local:
            extend: annex/data
        oneline: git@example.com:example/oneline.git

    groups:
        cola: [git, cola, python/qtpy]
        test: [a, b, c]
        reverse: [cola, git]
        annex: annex/*
        annex-1: annex/data
        annex-2: annex/local

    gardens:
        cola:
            groups: cola
            variables:
                prefix: ~/apps/git-cola/current
            environment:
                GIT_COLA_TRACE=: full
                PATH+: ${prefix}/bin
            commands:
                summary:
                    - git branch
                    - git status --short
        git:
            groups: cola
            trees: gitk
            gitconfig:
                user.name: A U Thor
                user.email: author@example.com
        annex/group:
            groups: annex
        annex/wildcard-groups:
            groups: annex-*
        annex/wildcard-trees:
            trees: annex/*
    "#,
    )
}

fn set_items(set: &StringSet) -> Vec<String> {
    (0..set.len()).map(|i| set.get_index(i).clone()).collect()
}

fn strings(v: &[&str]) -> Vec<String> {
    v.iter().map(|s| s.to_string()).collect()
}

fn no_paths() -> CanonicalPaths {
    CanonicalPaths { paths: OrderedMap::new() }
}

fn tree_name(config: &Configuration, index: usize) -> String {
    config.trees.key_at(index).clone()
}

fn query(app: &ApplicationContext, text: &str) -> Vec<TreeContext> {
    garden::query::resolve_trees(app, app.get_root_config(), None, text, &no_paths())
}

/// Defaults
#[test]
fn config_test_config_default() {
    let shell = select_default_shell(
        which::which("zsh").is_ok(),
        which::which("bash").is_ok(),
        which::which("dash").is_ok(),
    );
    let config = Configuration::new(shell);
    assert!(matches!(config.shell.as_str(), "bash" | "sh" | "zsh"));
    assert_eq!(0, config.verbose);
    assert_eq!("", config.root.get_expr());
}

/// Commands
#[test]
fn config_test_commands() {
    let app = garden_context_from_string(
        r#"
    commands:
        test_cmd: echo cmd
        test_cmd_vec:
            - echo first
            - echo second
    "#,
    );
    let config = app.get_root_config();
    assert_eq!(2, config.commands.len());

    assert!(config.commands.get("test_cmd").is_some());
    assert_eq!(1, config.commands.get("test_cmd").unwrap().len());
    assert_eq!("echo cmd", config.commands.get("test_cmd").unwrap()[0].get_expr());

    let test_cmd_vec = config.commands.get("test_cmd_vec").unwrap();
    assert_eq!(2, test_cmd_vec.len());
    assert_eq!("echo first", test_cmd_vec[0].get_expr());
    assert_eq!("echo second", test_cmd_vec[1].get_expr());
}

/// Templates
#[test]
fn config_test_templates() {
    let app = garden_context_from_string(
        r#"
    templates:
        template1:
            variables:
                foo: bar
            environment:
                ENV=: ${foo}env
                THEPATH:
                    - ${foo}
                    - ${ENV}
        template2:
            extend: template1
            variables:
                baz: zax
                zee: ${foo}
        template3:
            extend: [template1, template2]
            variables:
                foo: boo
    "#,
    );
    let config = app.get_root_config();
    assert_eq!(3, config.templates.len());

    let template1 = config.templates.get("template1").unwrap();
    assert_eq!("template1", template1.get_name());
    assert_eq!(1, template1.tree.variables.len());
    assert_eq!("bar", template1.tree.variables.get("foo").unwrap().get_expr());

    assert_eq!(2, template1.tree.environment.len());
    assert_eq!("ENV=", template1.tree.environment[0].get_name());
    assert_eq!(1, template1.tree.environment[0].len());
    assert_eq!("${foo}env", template1.tree.environment[0].get(0).get_expr());
    assert_eq!("THEPATH", template1.tree.environment[1].get_name());
    assert_eq!(2, template1.tree.environment[1].len());
    assert_eq!("${foo}", template1.tree.environment[1].get(0).get_expr());
    assert_eq!("${ENV}", template1.tree.environment[1].get(1).get_expr());

    let template2 = config.templates.get("template2").unwrap();
    assert_eq!("template2", template2.get_name());
    assert_eq!(strings(&["template1"]), set_items(&template2.extend));
    assert_eq!(3, template2.tree.variables.len());
    assert_eq!("zax", template2.tree.variables.get("baz").unwrap().get_expr());
    assert_eq!("${foo}", template2.tree.variables.get("zee").unwrap().get_expr());
    assert_eq!("bar", template2.tree.variables.get("foo").unwrap().get_expr());

    let template3 = config.templates.get("template3").unwrap();
    assert_eq!("template3", template3.get_name());
    assert_eq!(strings(&["template1", "template2"]), set_items(&template3.extend));
    assert_eq!(3, template3.tree.variables.len());
    assert_eq!("boo", template3.tree.variables.get("foo").unwrap().get_expr());
}

/// Groups
#[test]
fn config_test_groups() {
    let app = garden_context();
    let config = app.get_root_config();
    assert!(config.groups.len() >= 2);
    assert!(config.groups.get("cola").is_some());
    assert_eq!("cola", config.groups.get("cola").unwrap().get_name());
    assert_eq!(strings(&["git", "cola", "python/qtpy"]), set_items(&config.groups.get("cola").unwrap().members));

    let test_group = config.groups.get("test").unwrap();
    assert_eq!("test", test_group.get_name());
    assert_eq!(strings(&["a", "b", "c"]), set_items(&test_group.members));
}

fn test_gardens(config: &Configuration) {
    assert!(config.gardens.len() >= 2);

    // "cola" garden
    let cola: &Garden = config.gardens.value_at(0);
    assert_eq!("cola", cola.get_name());
    assert!(cola.trees.is_empty());
    assert!(cola.gitconfig.is_empty());
    assert_eq!(1, cola.groups.len());
    assert_eq!("cola", cola.groups.get_index(0));

    assert_eq!(1, cola.commands.len());
    let summary = cola.commands.get("summary");
    assert!(summary.is_some());
    let summary = summary.unwrap();
    assert_eq!(2, summary.len());
    assert_eq!("git branch", summary[0].get_expr());
    assert_eq!("git status --short", summary[1].get_expr());

    assert_eq!("~/apps/git-cola/current", cola.variables.get("prefix").unwrap().get_expr());

    assert_eq!(2, cola.environment.len());
    assert_eq!("GIT_COLA_TRACE=", cola.environment[0].get_name());
    assert_eq!(1, cola.environment[0].len());
    assert_eq!("full", cola.environment[0].get(0).get_expr());
    assert_eq!("PATH+", cola.environment[1].get_name());
    assert_eq!(1, cola.environment[1].len());
    assert_eq!("${prefix}/bin", cola.environment[1].get(0).get_expr());

    // "git" garden
    let git: &Garden = config.gardens.value_at(1);
    assert_eq!("git", git.get_name());
    assert!(git.environment.is_empty());
    assert!(git.variables.is_empty());
    assert!(git.commands.is_empty());
    assert_eq!(strings(&["cola"]), set_items(&git.groups));
    assert_eq!(strings(&["gitk"]), set_items(&git.trees));

    assert_eq!(git.gitconfig.len(), 2);
    assert_eq!("A U Thor", git.gitconfig.get("user.name").unwrap()[0].get_expr());
    assert_eq!("author@example.com", git.gitconfig.get("user.email").unwrap()[0].get_expr());
}

/// Gardens
#[test]
fn config_test_gardens() {
    let app = garden_context();
    test_gardens(app.get_root_config());
}

#[test]
fn config_test_gardens_json() {
    let app = garden_context_from_string(
        r#"
{
    "gardens": {
        "cola": {
            "groups": "cola",
            "variables": {
                "prefix": "~/apps/git-cola/current"
            },
            "environment": {
                "GIT_COLA_TRACE=": "full",
                "PATH+": "${prefix}/bin"
            },
            "commands": {
                "summary": [
                    "git branch",
                    "git status --short"
                ]
            }
        },
        "git": {
            "groups": "cola",
            "trees": "gitk",
            "gitconfig": {
                "user.name": "A U Thor",
                "user.email": "author@example.com"
            }
        }
    }
}
    "#,
    );
    test_gardens(app.get_root_config());
}

#[test]
fn config_test_test_template_url() {
    let app = garden_context();
    let config = app.get_root_config();
    assert!(config.trees.len() > 3);
    // The "tmp" tree uses the "local" template which defines a URL.
    let tree = config.trees.value_at(3);
    assert_eq!("tmp", tree.get_name());
    assert_eq!(1, tree.remotes.len());
    assert_eq!("${local}/${TREE_NAME}", tree.remotes.get("origin").unwrap().get_expr());
}

#[test]
fn default_expression_finds_garden() {
    let app = garden_context();
    let config = app.get_root_config();
    let result = query(&app, "cola");
    assert_eq!(result.len(), 3);
    assert_eq!(result[0].garden.as_deref(), Some("cola"));
    assert_eq!(result[0].tree, tree_name(config, 0));
    assert_eq!(result[1].garden.as_deref(), Some("cola"));
    assert_eq!(result[1].tree, tree_name(config, 1));
    assert_eq!(result[2].garden.as_deref(), Some("cola"));
    assert_eq!(result[2].tree, tree_name(config, 2));
}

#[test]
fn tree_expression_wildcard() {
    let app = garden_context();
    let config = app.get_root_config();
    let result = query(&app, "@c*");
    assert_eq!(result.len(), 1);
    assert_eq!(result[0].garden, None);
    assert_eq!(result[0].group, None);
    assert_eq!(result[0].tree, tree_name(config, 1));
}

#[test]
fn group_expression() {
    let app = garden_context();
    let config = app.get_root_config();
    let result = query(&app, "%rev*");
    assert_eq!(result.len(), 2);
    assert_eq!(result[0].garden, None);
    assert_eq!(result[0].group.as_deref(), Some(config.groups.key_at(2).as_str()));
    assert_eq!(result[0].tree, tree_name(config, 1));
    assert_eq!(result[1].garden, None);
    assert_eq!(result[1].group.as_deref(), Some(config.groups.key_at(2).as_str()));
    assert_eq!(result[1].tree, tree_name(config, 0));
}

#[test]
fn resolve_trees_default_query_finds_garden() {
    let app = garden_context();
    let config = app.get_root_config();
    let result = query(&app, "cola");
    assert_eq!(3, result.len());
    assert_eq!(Some("cola".to_string()), result[0].garden);
    assert_eq!(tree_name(config, 0), result[0].tree);
    assert_eq!(Some("cola".to_string()), result[1].garden);
    assert_eq!(tree_name(config, 1), result[1].tree);
    assert_eq!(Some("cola".to_string()), result[2].garden);
    assert_eq!(tree_name(config, 2), result[2].tree);
}

#[test]
fn resolve_trees_tree_query_wildcard() {
    let app = garden_context();
    let config = app.get_root_config();
    let result = query(&app, "@c*");
    assert_eq!(1, result.len());
    assert_eq!(None, result[0].garden);
    assert_eq!(None, result[0].group);
    assert_eq!(tree_name(config, 1), result[0].tree);
}

#[test]
fn resolve_trees_group_query() {
    let app = garden_context();
    let config = app.get_root_config();
    let result = query(&app, "%rev*");
    assert_eq!(2, result.len());
    assert_eq!(None, result[0].garden);
    assert_eq!(Some("reverse".to_string()), result[0].group);
    assert_eq!(tree_name(config, 1), result[0].tree);
    assert_eq!(None, result[1].garden);
    assert_eq!(Some("reverse".to_string()), result[1].group);
    assert_eq!(tree_name(config, 0), result[1].tree);
}

#[test]
fn resolve_trees_group_with_wildcards() {
    let app = garden_context();
    let config = app.get_root_config();
    // annex group
    let result = query(&app, "%annex");
    assert_eq!(2, result.len());
    // annex/data
    assert_eq!(None, result[0].garden);
    assert_eq!(Some("annex".to_string()), result[0].group);
    assert_eq!(tree_name(config, 4), result[0].tree);
    // annex/local
    assert_eq!(None, result[1].garden);
    assert_eq!(Some("annex".to_string()), result[1].group);
    assert_eq!(tree_name(config, 5), result[1].tree);
}

#[test]
fn trees_from_pattern() {
    let app = garden_context();
    let config = app.get_root_config();
    let result = garden::query::trees_from_pattern(&app, config, None, "annex/*", &None, &None, &no_paths());
    assert_eq!(2, result.len());
    assert_eq!(None, result[0].garden);
    assert_eq!(None, result[0].group);
    assert_eq!(tree_name(config, 4), result[0].tree); // annex/data
    assert_eq!(None, result[1].garden);
    assert_eq!(None, result[1].group);
    assert_eq!(tree_name(config, 5), result[1].tree); // annex/local
}

#[test]
fn trees_from_group() {
    let app = garden_context();
    let config = app.get_root_config();
    assert!(config.groups.len() > 3);

    let annex_grp = config.groups.get("annex").unwrap();
    assert_eq!("annex", annex_grp.get_name());

    let result = garden::query::trees_from_group(&app, config, None, &None, annex_grp, &no_paths());
    assert_eq!(2, result.len());
    assert_eq!(None, result[0].garden);
    assert_eq!(Some("annex".to_string()), result[0].group);
    assert_eq!(tree_name(config, 4), result[0].tree); // annex/data
    assert_eq!(None, result[1].garden);
    assert_eq!(Some("annex".to_string()), result[1].group);
    assert_eq!(tree_name(config, 5), result[1].tree); // annex/local
}

#[test]
fn trees_from_garden() {
    let app = garden_context();
    let config = app.get_root_config();
    assert!(config.gardens.len() > 3);

    // regular group, group uses wildcards
    let annex_group = config.gardens.get("annex/group").unwrap();
    let mut result = garden::query::trees_from_garden(&app, config, None, annex_group, &no_paths());
    assert_eq!(2, result.len());
    assert_eq!(Some("annex/group".to_string()), result[0].garden);
    assert_eq!(Some("annex".to_string()), result[0].group);
    assert_eq!(tree_name(config, 4), result[0].tree);
    assert_eq!(Some("annex/group".to_string()), result[1].garden);
    assert_eq!(Some("annex".to_string()), result[1].group);
    assert_eq!(tree_name(config, 5), result[1].tree);

    // wildcard groups
    let annex_wild_groups = config.gardens.get("annex/wildcard-groups").unwrap();
    result = garden::query::trees_from_garden(&app, config, None, annex_wild_groups, &no_paths());
    assert_eq!(2, result.len());
    assert_eq!(Some("annex/wildcard-groups".to_string()), result[0].garden);
    assert_eq!(Some("annex-1".to_string()), result[0].group);
    assert_eq!(tree_name(config, 4), result[0].tree);
    assert_eq!(Some("annex/wildcard-groups".to_string()), result[1].garden);
    assert_eq!(Some("annex-2".to_string()), result[1].group);
    assert_eq!(tree_name(config, 5), result[1].tree);

    // wildcard trees
    let annex_wild_trees = config.gardens.get("annex/wildcard-trees").unwrap();
    result = garden::query::trees_from_garden(&app, config, None, annex_wild_trees, &no_paths());
    assert_eq!(2, result.len());
    assert_eq!(Some("annex/wildcard-trees".to_string()), result[0].garden);
    assert_eq!(None, result[0].group);
    assert_eq!(tree_name(config, 4), result[0].tree);
    assert_eq!(Some("annex/wildcard-trees".to_string()), result[1].garden);
    assert_eq!(None, result[1].group);
    assert_eq!(tree_name(config, 5), result[1].tree);
}

#[test]
fn tree_query() {
    let app = garden_context();
    let config = app.get_root_config();

    // Success: "cola" is in the "git" garden.
    let tree_context_result = garden::query::tree_context(&app, config, "cola", Some("git"), &no_paths());
    assert!(tree_context_result.is_ok());
    let tree_context = tree_context_result.unwrap();
    assert_eq!(tree_name(config, 1), tree_context.tree);
    assert_eq!(Some("git".to_string()), tree_context.garden);

    // Success: "cola" alone has a tree context with a None garden.
    let tree_context_result = garden::query::tree_context(&app, config, "cola", None, &no_paths());
    assert!(tree_context_result.is_ok());
    let tree_context = tree_context_result.unwrap();
    assert_eq!(tree_name(config, 1), tree_context.tree);
    assert_eq!(None, tree_context.garden);

    // "unknown" garden is not a real garden.
    let tree_context_result = garden::query::tree_context(&app, config, "cola", Some("unknown-garden"), &no_paths());
    assert!(tree_context_result.is_err());

    // "tmp" is not in the "git" garden, and must raise an error.
    let tree_context_result = garden::query::tree_context(&app, config, "tmp", Some("git"), &no_paths());
    assert!(tree_context_result.is_err());

    // "unknown-tree" is not a real tree.
    let tree_context_result = garden::query::tree_context(&app, config, "unknown-tree", None, &no_paths());
    assert!(tree_context_result.is_err());
}

#[test]
fn shell_opens_the_tree_named_by_the_query() {
    let app = garden_context();
    let config = app.get_root_config();
    let contexts = query(&app, "cola");
    assert!(matches!(shell_context(config, &contexts, "cola", &None, &no_paths()),
        ShellTarget::Context(c) if c.tree == "cola"));
    assert!(matches!(shell_context(config, &contexts, "@*", &None, &no_paths()),
        ShellTarget::Context(c) if c.tree == "git"));
    assert!(matches!(shell_context(config, &contexts, "cola", &Some("python/qtpy".to_string()), &no_paths()),
        ShellTarget::Context(c) if c.tree == "python/qtpy"));
    assert!(matches!(shell_context(config, &contexts, "cola", &Some("tmp".to_string()), &no_paths()),
        ShellTarget::NotInQuery));
    assert!(matches!(shell_context(config, &contexts, "cola", &Some("nothing".to_string()), &no_paths()),
        ShellTarget::UnknownTree));
    assert!(matches!(shell_context(config, &Vec::new(), "cola", &None, &no_paths()), ShellTarget::NoTrees));
}

#[test]
fn documents_are_read_and_written() {
    assert!(matches!(parse_document("a: [1", "bad.yaml"), Err(GardenError::ReadConfig { path, .. }) if path == "bad.yaml"));
    assert!(matches!(parse_document("", "empty.yaml"), Err(GardenError::EmptyConfiguration { path }) if path == "empty.yaml"));
    let doc = parse_document("a: b\nn: 3\n", "ok.yaml").unwrap();
    let Yaml::Hash(entries) = &doc else { panic!("not a mapping") };
    assert_eq!(entries.len(), 2);
    assert!(matches!((&entries[0].0, &entries[0].1), (Yaml::String(k), Yaml::String(v)) if k == "a" && v == "b"));
    assert!(matches!(entries[1].1, Yaml::Integer(3)));
    let text = document_text(&doc);
    assert_eq!(text, "---\na: b\nn: 3\n");
    let again = parse_document(&text, "ok.yaml").unwrap();
    let Yaml::Hash(again) = &again else { panic!("not a mapping") };
    assert_eq!(again.len(), 2);
}

#[test]
fn repeated_mapping_keys_are_read_once() {
    let doc = parse_document("a: 1\nb: 2\na: 3\n", "dup.yaml").ok().unwrap();
    match doc {
        Yaml::Hash(entries) => {
            assert_eq!(entries.len(), 2);
            assert!(matches!(entries[0], (Yaml::String(ref k), Yaml::Integer(2)) if k == "b"));
            assert!(matches!(entries[1], (Yaml::String(ref k), Yaml::Integer(3)) if k == "a"));
        }
        _ => panic!("expected a mapping"),
    }
}

/// Read a garden document into a configuration (expressions are read, not
/// evaluated).
fn configuration_from_string(text: &str) -> Configuration {
    let doc = parse_document(text, "garden.yaml").unwrap();
    let mut config = Configuration::new("zsh".to_string());
    parse_prelude(&mut config, &doc, None).unwrap();
    parse_body(&mut config, &doc, false).unwrap();
    parse_trees(&mut config, &doc, &OrderedMap::new()).unwrap();
    config
}

/// A root configuration with an attached graft "graft" (holding a tree "graft")
/// and an unattached graft "loose".
fn grafted_context() -> ApplicationContext {
    let mut app = garden_context_from_string(
        "grafts:\n  graft: grafts/graft.yaml\n  loose: grafts/loose.yaml\ntrees:\n  local: https://example.com/local\n",
    );
    let root_id = app.get_root_id();
    let mut graft = configuration_from_string("trees:\n  graft: https://example.com/graft\n");
    graft.set_parent(root_id);
    let graft_id = app.add_graft(graft);
    let index = app.get_root_config().grafts.index_of("graft").unwrap();
    app.get_config_mut(root_id).grafts.value_at_mut(index).set_id(graft_id);
    app
}

#[test]
fn find_tree_through_attached_graft() {
    let app = grafted_context();
    let root_id = app.get_root_id();
    let ctx = find_tree(&app, root_id, "graft::graft", None, &no_paths()).ok().unwrap();
    assert_eq!("graft", ctx.tree);
    assert_eq!(ctx.config, Some(1));
    // A graft without a configuration is a configuration error.
    assert!(matches!(
        find_tree(&app, root_id, "loose::tree", None, &no_paths()),
        Err(GardenError::ConfigurationError(_))
    ));
    // Any other name is looked up in the configuration itself.
    let ctx = find_tree(&app, root_id, "local", None, &no_paths()).ok().unwrap();
    assert_eq!("local", ctx.tree);
    assert!(matches!(
        find_tree(&app, root_id, "missing", None, &no_paths()),
        Err(GardenError::TreeNotFound { .. })
    ));
}

#[test]
fn grafts_are_checked_before_any_is_read() {
    let config = configuration_from_string(
        "grafts:\n  one: one.yaml\n  two:\n    config: two.yaml\n    root: trees\n",
    );
    let paths = strings(&["/g/one.yaml", "/g/two.yaml"]);
    let details = graft_details(&config, &paths, &vec![true, true]).ok().unwrap();
    assert_eq!(
        details,
        vec![
            ("one".to_string(), "/g/one.yaml".to_string(), None),
            ("two".to_string(), "/g/two.yaml".to_string(), Some("trees".to_string())),
        ]
    );
    match graft_details(&config, &paths, &vec![true, false]) {
        Err(GardenError::ConfigurationError(msg)) => assert_eq!(msg, "two: invalid graft in \".\""),
        _ => panic!("expected a configuration error"),
    }
}

#[test]
fn gui_shows_each_command_once() {
    let app = garden_context_from_string(
        r#"
commands:
    build: make
    build<: echo before
    test: make test
trees:
    a:
        url: https://example.com/a
        commands:
            lint: make lint
            test: make check
    b:
        url: https://example.com/b
        commands:
            deploy>: echo after
gardens:
    all:
        trees: [a, b]
        commands:
            release: make release
"#,
    );
    let contexts = query(&app, "all");
    assert_eq!(
        gui_command_names(&app, &contexts),
        strings(&["build", "test", "release", "lint", "deploy"])
    );
}

use garden::syntax::{
    graft_basename, is_git_dir, is_garden, is_graft, is_group, is_tree,
    split_graft, split_string, trim_exec, trim_graft,
};

#[test]
fn syntax_is_garden() {
    assert!(is_garden(":garden"), ":garden is a garden");
    assert!(!is_garden("garden"), "garden is not a garden");
}

#[test]
fn syntax_is_graft() {
    assert!(is_graft("foo::bar"), "foo::bar is a graft");
    assert!(!is_graft("foo"), "foo is not a graft");
}

#[test]
fn syntax_is_group() {
    assert!(is_group("%group"), "%group is a group");
    assert!(!is_group("group"), "group is not a group");
}

#[test]
fn syntax_is_tree() {
    assert!(is_tree("@tree"), "@tree is a tree");
    assert!(!is_tree("tree"), "tree is not a tree");
}

#[test]
fn syntax_is_git_dir() {
    assert!(is_git_dir("tree.git"), "tree.git is a git dir");
    assert!(is_git_dir("/src/tree.git"), "/src/tree.git is a git dir");
    assert!(!is_git_dir("src/tree/.git"), "src/tree/.git is a git dir");
    assert!(!is_git_dir(".git"), ".git is a git dir");
    assert!(!is_git_dir("/.git"), "/.git is a git dir");
}

#[test]
fn syntax_split_string_ok() {
    let (ok, pre, post) = split_string("foo::bar", "::");
    assert!(ok, "split :: on foo::bar is ok");
    assert_eq!(pre, "foo");
    assert_eq!(post, "bar");
}

#[test]
fn syntax_split_string_empty() {
    let (ok, pre, post) = split_string("foo::", "::");
    assert!(ok, "split :: on foo:: is ok");
    assert_eq!(pre, "foo");
    assert_eq!(post, "");
}

#[test]
fn syntax_split_string_not_found() {
    let (ok, pre, post) = split_string("foo", "::");
    assert!(!ok, "split :: on foo is false");
    assert_eq!(pre, "foo");
    assert_eq!(post, "");
}

#[test]
fn syntax_split_graft_ok() {
    let (ok, pre, post) = split_graft("foo::bar");
    assert!(ok, "split_graft on foo::bar is ok");
    assert_eq!(pre, "foo");
    assert_eq!(post, "bar");
}

#[test]
fn syntax_split_graft_nested_ok() {
    let (ok, pre, post) = split_graft("@foo::bar::baz");
    assert!(ok, "split_graft on @foo::bar::baz is ok");
    assert_eq!(pre, "@foo");
    assert_eq!(post, "bar::baz");
}

#[test]
fn syntax_split_graft_empty() {
    let (ok, pre, post) = split_graft("foo::");
    assert!(ok, "split_graft on foo:: is ok");
    assert_eq!(pre, "foo");
    assert_eq!(post, "");
}

#[test]
fn syntax_split_graft_not_found() {
    let (ok, pre, post) = split_graft("foo");
    assert!(!ok, "split_graft on foo is false");
    assert_eq!(pre, "foo");
    assert_eq!(post, "");
}

#[test]
fn syntax_trim_exec() {
    assert_eq!("cmd", trim_exec("$ cmd"));
    assert_eq!("$cmd", trim_exec("$cmd"));
    assert_eq!("cmd", trim_exec("cmd"));
    assert_eq!("", trim_exec("$ "));
    assert_eq!("$", trim_exec("$"));
    assert_eq!("", trim_exec(""));
}

#[test]
fn syntax_trim_graft() {
    let value = trim_graft("foo::bar::baz");
    assert!(value.is_some());
    assert_eq!("bar::baz", value.unwrap());

    let value = trim_graft("@foo::bar::baz");
    assert!(value.is_some());
    assert_eq!("@bar::baz", value.unwrap());

    let value = trim_graft("%foo::bar::baz");
    assert!(value.is_some());
    assert_eq!("%bar::baz", value.unwrap());

    let value = trim_graft(":foo::bar::baz");
    assert!(value.is_some());
    assert_eq!(":bar::baz", value.unwrap());

    let value = trim_graft("foo::bar");
    assert!(value.is_some());
    assert_eq!("bar", value.unwrap());

    let value = trim_graft("foo");
    assert!(value.is_none());
}

#[test]
fn syntax_graft_basename() {
    let value = graft_basename("foo");
    assert!(value.is_none());

    let value = graft_basename(":foo");
    assert!(value.is_none());

    let value = graft_basename("%foo");
    assert!(value.is_none());

    let value = graft_basename("@foo");
    assert!(value.is_none());

    let value = graft_basename("foo::bar");
    assert!(value.is_some());
    assert_eq!("foo", value.unwrap());

    let value = graft_basename(":foo::bar");
    assert!(value.is_some());
    assert_eq!("foo", value.unwrap());

    let value = graft_basename("%foo::bar");
    assert!(value.is_some());
    assert_eq!("foo", value.unwrap());

    let value = graft_basename("@foo::bar");
    assert!(value.is_some());
    assert_eq!("foo", value.unwrap());

    let value = graft_basename("foo::bar::baz");
    assert!(value.is_some());
    assert_eq!("foo", value.unwrap());

    let value = graft_basename(":foo::bar::baz");
    assert!(value.is_some());
    assert_eq!("foo", value.unwrap());

    let value = graft_basename("%foo::bar::baz");
    assert!(value.is_some());
    assert_eq!("foo", value.unwrap());

    let value = graft_basename("@foo::bar::baz");
    assert!(value.is_some());
    assert_eq!("foo", value.unwrap());
}

#[test]
fn escape_shell_variables() {
    let value = garden::syntax::escape_shell_variables("$");
    assert_eq!(value, "$");

    let value = garden::syntax::escape_shell_variables("$ ");
    assert_eq!(value, "$ ");

    let value = garden::syntax::escape_shell_variables("$$");
    assert_eq!(value, "$$");

    let value = garden::syntax::escape_shell_variables("$_");
    assert_eq!(value, "$$_");

    let value = garden::syntax::escape_shell_variables("$a");
    assert_eq!(value, "$$a");

    let value = garden::syntax::escape_shell_variables("$_a");
    assert_eq!(value, "$$_a");

    let value = garden::syntax::escape_shell_variables("$ echo");
    assert_eq!(value, "$ echo");

    let value = garden::syntax::escape_shell_variables("embedded $$ value");
    assert_eq!(value, "embedded $$ value");

    let value = garden::syntax::escape_shell_variables("$variable");
    assert_eq!(value, "$$variable");

    let value = garden::syntax::escape_shell_variables("$$variable");
    assert_eq!(value, "$$variable");

    let value = garden::syntax::escape_shell_variables("${braces}${ignored}");
    assert_eq!(value, "${braces}${ignored}");

    let value = garden::syntax::escape_shell_variables("$a ${b} $c $");
    assert_eq!(value, "$$a ${b} $$c $");

    // Escaped ${braced} value
    let value = garden::syntax::escape_shell_variables("echo $${value[@]:0:1}");
    assert_eq!(value, "echo $${value[@]:0:1}");
}

#[test]
fn escaped_text_is_not_escaped_again() {
    for text in ["$a $$b $", "echo ${x}_$y", "$$$z", "$_1 $ $$"] {
        let once = garden::syntax::escape_shell_variables(text);
        let twice = garden::syntax::escape_shell_variables(&once);
        assert_eq!(once, twice);
    }
    assert_eq!(garden::syntax::escape_shell_variables("$a $$b $"), "$$a $$b $");
}

//! What the listings show: lines made of styled pieces of text, and which lines
//! "garden ls" prints for each tree.
use vstd::prelude::*;

use crate::cli::ListOptions;
use crate::cmd::{command_string, spec_shell_words_join, strs_view};
use crate::text::owned;

verus! {

/// Flags that select what is displayed for a tree.
#[derive(Clone, Copy, Debug, Default)]
pub struct DisplayOptions {
    pub branches: bool,
    pub commands: bool,
    pub force: bool,
    pub quiet: bool,
    pub remotes: bool,
    pub verbose: u8,
    pub worktrees: bool,
}

/// The colors of the listings.
#[derive(Clone, Copy, Debug, PartialEq, Eq, Structural)]
pub enum Color {
    Plain,
    Black,
    Red,
    Green,
    Yellow,
    Blue,
    Cyan,
}

/// A piece of text with its color and weight.
#[derive(Debug)]
pub struct Styled {
    pub text: String,
    pub color: Color,
    pub bold: bool,
    pub dim: bool,
}

/// A piece of styled text as a plain value.
pub struct StyledText {
    pub text: Seq<char>,
    pub color: Color,
    pub bold: bool,
    pub dim: bool,
}

impl View for Styled {
    type V = StyledText;

    open spec fn view(&self) -> StyledText {
        StyledText { text: self.text@, color: self.color, bold: self.bold, dim: self.dim }
    }
}

/// Text in a color, neither bold nor dim.
pub open spec fn colored(text: Seq<char>, color: Color) -> StyledText {
    StyledText { text, color, bold: false, dim: false }
}

/// Text without any style.
pub open spec fn plain(text: Seq<char>) -> StyledText {
    colored(text, Color::Plain)
}

/// Bold text in a color.
pub open spec fn bold(text: Seq<char>, color: Color) -> StyledText {
    StyledText { text, color, bold: true, dim: false }
}

/// Dim text in a color.
pub open spec fn dimmed(text: Seq<char>, color: Color) -> StyledText {
    StyledText { text, color, bold: false, dim: true }
}

/// The plain value of a line.
pub open spec fn line_view(line: Seq<Styled>) -> Seq<StyledText> {
    line.map_values(|s: Styled| s@)
}

/// The plain value of several lines.
pub open spec fn lines_view(lines: Seq<Vec<Styled>>) -> Seq<Seq<StyledText>> {
    lines.map_values(|l: Vec<Styled>| line_view(l@))
}

/// The line of a tree whose path does not exist, as shown before running commands.
pub open spec fn spec_missing_tree_line(name: Seq<char>, path: Seq<char>, verbose: u8, force: bool) -> Seq<StyledText> {
    let head = seq![bold("#"@, Color::Black), plain(" "@), bold(name, Color::Black)];
    let shown = if verbose > 0 {
        head + seq![plain(" "@), bold(path, Color::Black)]
    } else {
        head
    };
    if force {
        shown
    } else {
        shown.push(bold(" (skipped)"@, Color::Plain))
    }
}

/// The header line of a tree: its name, its branch when one is given, and its path
/// when verbose.
pub open spec fn spec_tree_line(name: Seq<char>, path: Seq<char>, branch: Option<Seq<char>>, verbose: u8) -> Seq<StyledText> {
    let head = seq![colored("#"@, Color::Cyan), plain(" "@), bold(name, Color::Blue)];
    let with_branch = match branch {
        Some(b) => head + seq![plain(" "@), colored("["@, Color::Blue), bold(b, Color::Green), colored("]"@, Color::Blue)],
        None => head,
    };
    if verbose > 0 {
        with_branch + seq![plain(" "@), colored(path, Color::Blue)]
    } else {
        with_branch
    }
}

/// The listing line of a tree that has not been grown.
pub open spec fn spec_missing_entry_line(name: Seq<char>, path: Seq<char>, verbose: u8) -> Seq<StyledText> {
    let head = seq![dimmed("#-"@, Color::Red), plain(" "@), colored(name, Color::Red)];
    if verbose > 0 {
        head + seq![plain(" "@), dimmed(path, Color::Red)]
    } else {
        head
    }
}

/// The listing line of a symlink tree and its target.
pub open spec fn spec_symlink_entry_line(name: Seq<char>, path: Seq<char>, target: Seq<char>, verbose: u8) -> Seq<StyledText> {
    if verbose > 0 {
        seq![
            colored("#+"@, Color::Cyan), plain(" "@), bold(name, Color::Blue), plain(" "@),
            colored(path, Color::Green), plain(" "@), colored("->"@, Color::Green), plain(" "@),
            colored(target, Color::Yellow),
        ]
    } else {
        seq![
            colored("#"@, Color::Cyan), plain(" "@), bold(name, Color::Blue), plain(" "@),
            colored("->"@, Color::Green), plain(" "@), colored(target, Color::Yellow),
        ]
    }
}

/// An item of a bulleted list.
pub open spec fn item_line(text: Seq<char>) -> Seq<StyledText> {
    seq![plain("  "@), colored("-"@, Color::Blue), plain(" "@), colored(text, Color::Yellow)]
}

/// Bulleted items, one per text.
pub open spec fn item_lines(texts: Seq<Seq<char>>) -> Seq<Seq<StyledText>> {
    texts.map_values(|t: Seq<char>| item_line(t))
}

/// A titled, bulleted list of names.
pub open spec fn spec_name_list(title: Seq<char>, names: Seq<Seq<char>>) -> Seq<Seq<StyledText>> {
    seq![seq![colored(title, Color::Blue)]] + item_lines(names)
}

/// The line of a remote: its name and its URL.
pub open spec fn remote_line(name: Seq<char>, url: Seq<char>) -> Seq<StyledText> {
    seq![plain("  "@), colored(name, Color::Blue), colored(":"@, Color::Blue), plain(" "@), colored(url, Color::Yellow)]
}

/// The lines of remotes, one per (name, url) pair.
pub open spec fn remote_lines(remotes: Seq<(String, String)>) -> Seq<Seq<StyledText>> {
    remotes.map_values(|r: (String, String)| remote_line(r.0@, r.1@))
}

/// The details of a tree: its description, then (unless it is a worktree and
/// worktrees are not displayed) its remotes when remotes are displayed, and its links.
pub open spec fn spec_extended_details(
    description: Seq<char>,
    is_worktree: bool,
    options: DisplayOptions,
    remotes: Seq<(String, String)>,
    links: Seq<Seq<char>>,
) -> Seq<Seq<StyledText>> {
    let described = if description.len() > 0 {
        seq![seq![colored(description, Color::Green)]]
    } else {
        Seq::empty()
    };
    if is_worktree && !options.worktrees {
        described
    } else {
        let r = if options.remotes && remotes.len() > 0 {
            seq![seq![colored("remotes:"@, Color::Blue)]] + remote_lines(remotes)
        } else {
            Seq::empty()
        };
        let l = if links.len() > 0 {
            spec_name_list("links:"@, links)
        } else {
            Seq::empty()
        };
        described + r + l
    }
}

/// A new piece of styled text.
fn piece(text: &str, color: Color, bold: bool, dim: bool) -> (s: Styled)
    ensures
        s@ == (StyledText { text: text@, color, bold, dim }),
{
    Styled { text: owned(text), color, bold, dim }
}

/// Append a piece of styled text to a line.
fn push_piece(line: &mut Vec<Styled>, text: &str, color: Color, bold: bool, dim: bool)
    ensures
        line_view(final(line)@) == line_view(old(line)@).push(StyledText { text: text@, color, bold, dim }),
{
    line.push(piece(text, color, bold, dim));
    assert(line_view(line@) =~= line_view(old(line)@).push(StyledText { text: text@, color, bold, dim }));
}

/// Append a line to a list of lines.
fn push_line(lines: &mut Vec<Vec<Styled>>, line: Vec<Styled>)
    ensures
        lines_view(final(lines)@) == lines_view(old(lines)@).push(line_view(line@)),
{
    let ghost l = line@;
    lines.push(line);
    assert(lines_view(lines@) =~= lines_view(old(lines)@).push(line_view(l)));
}

/// The line of a tree whose path does not exist, as shown before running commands;
/// "(skipped)" follows unless `force` is set.
pub fn missing_tree_line(name: &str, path: &str, verbose: u8, force: bool) -> (r: Vec<Styled>)
    ensures
        line_view(r@) == spec_missing_tree_line(name@, path@, verbose, force),
{
    let mut r: Vec<Styled> = Vec::new();
    push_piece(&mut r, "#", Color::Black, true, false);
    push_piece(&mut r, " ", Color::Plain, false, false);
    push_piece(&mut r, name, Color::Black, true, false);
    if verbose > 0 {
        push_piece(&mut r, " ", Color::Plain, false, false);
        push_piece(&mut r, path, Color::Black, true, false);
    }
    if !force {
        push_piece(&mut r, " (skipped)", Color::Plain, true, false);
    }
    assert(line_view(r@) =~= spec_missing_tree_line(name@, path@, verbose, force));
    r
}

/// The header line of a tree; `branch` is the tree's current branch where branches
/// are displayed and it is known.
pub fn tree_line(name: &str, path: &str, branch: &Option<String>, verbose: u8) -> (r: Vec<Styled>)
    ensures
        line_view(r@) == spec_tree_line(name@, path@, match branch {
            Some(b) => Some(b@),
            None => None,
        }, verbose),
{
    let mut r: Vec<Styled> = Vec::new();
    push_piece(&mut r, "#", Color::Cyan, false, false);
    push_piece(&mut r, " ", Color::Plain, false, false);
    push_piece(&mut r, name, Color::Blue, true, false);
    match branch {
        Some(b) => {
            push_piece(&mut r, " ", Color::Plain, false, false);
            push_piece(&mut r, "[", Color::Blue, false, false);
            push_piece(&mut r, b.as_str(), Color::Green, true, false);
            push_piece(&mut r, "]", Color::Blue, false, false);
        },
        None => {},
    }
    if verbose > 0 {
        push_piece(&mut r, " ", Color::Plain, false, false);
        push_piece(&mut r, path, Color::Blue, false, false);
    }
    assert(line_view(r@) =~= spec_tree_line(name@, path@, match branch {
        Some(b) => Some(b@),
        None => None,
    }, verbose));
    r
}

/// The listing line of a tree that has not been grown.
pub fn missing_entry_line(name: &str, path: &str, verbose: u8) -> (r: Vec<Styled>)
    ensures
        line_view(r@) == spec_missing_entry_line(name@, path@, verbose),
{
    let mut r: Vec<Styled> = Vec::new();
    push_piece(&mut r, "#-", Color::Red, false, true);
    push_piece(&mut r, " ", Color::Plain, false, false);
    push_piece(&mut r, name, Color::Red, false, false);
    if verbose > 0 {
        push_piece(&mut r, " ", Color::Plain, false, false);
        push_piece(&mut r, path, Color::Red, false, true);
    }
    assert(line_view(r@) =~= spec_missing_entry_line(name@, path@, verbose));
    r
}

/// The listing line of a symlink tree; nothing is shown when its target is unset.
pub fn symlink_entry_line(name: &str, path: &str, target: Option<&String>, verbose: u8) -> (r: Option<Vec<Styled>>)
    ensures
        r.is_some() == target.is_some(),
        r.is_some() ==> line_view(r.unwrap()@) == spec_symlink_entry_line(name@, path@, target.unwrap()@, verbose),
{
    let target = match target {
        Some(t) => t,
        None => return None,
    };
    let mut r: Vec<Styled> = Vec::new();
    if verbose > 0 {
        push_piece(&mut r, "#+", Color::Cyan, false, false);
    } else {
        push_piece(&mut r, "#", Color::Cyan, false, false);
    }
    push_piece(&mut r, " ", Color::Plain, false, false);
    push_piece(&mut r, name, Color::Blue, true, false);
    push_piece(&mut r, " ", Color::Plain, false, false);
    if verbose > 0 {
        push_piece(&mut r, path, Color::Green, false, false);
        push_piece(&mut r, " ", Color::Plain, false, false);
    }
    push_piece(&mut r, "->", Color::Green, false, false);
    push_piece(&mut r, " ", Color::Plain, false, false);
    push_piece(&mut r, target.as_str(), Color::Yellow, false, false);
    assert(line_view(r@) =~= spec_symlink_entry_line(name@, path@, target@, verbose));
    Some(r)
}

/// The line of a bulleted item.
fn item(text: &str) -> (r: Vec<Styled>)
    ensures
        line_view(r@) == item_line(text@),
{
    let mut r: Vec<Styled> = Vec::new();
    push_piece(&mut r, "  ", Color::Plain, false, false);
    push_piece(&mut r, "-", Color::Blue, false, false);
    push_piece(&mut r, " ", Color::Plain, false, false);
    push_piece(&mut r, text, Color::Yellow, false, false);
    assert(line_view(r@) =~= item_line(text@));
    r
}

/// Append a titled, bulleted list of names to `lines`.
fn push_name_list(lines: &mut Vec<Vec<Styled>>, title: &str, names: &Vec<String>)
    ensures
        lines_view(final(lines)@) == lines_view(old(lines)@) + spec_name_list(title@, strs_view(names@)),
{
    let mut head: Vec<Styled> = Vec::new();
    push_piece(&mut head, title, Color::Blue, false, false);
    assert(line_view(head@) =~= seq![colored(title@, Color::Blue)]);
    push_line(lines, head);
    let ghost start = lines_view(lines@);
    assert(start =~= lines_view(old(lines)@) + seq![seq![colored(title@, Color::Blue)]]);
    let mut i: usize = 0;
    while i < names.len()
        invariant
            i <= names@.len(),
            lines_view(lines@) == start + item_lines(strs_view(names@).take(i as int)),
        decreases names@.len() - i,
    {
        let line = item(names[i].as_str());
        push_line(lines, line);
        assert(item_lines(strs_view(names@).take(i + 1)) =~= item_lines(strs_view(names@).take(i as int)).push(item_line(names@[i as int]@)));
        i = i + 1;
    }
    assert(strs_view(names@).take(names@.len() as int) =~= strs_view(names@));
    assert(lines_view(lines@) =~= lines_view(old(lines)@) + seq![seq![colored(title@, Color::Blue)]] + item_lines(strs_view(names@)));
    assert(lines_view(lines@) =~= lines_view(old(lines)@) + spec_name_list(title@, strs_view(names@)));
}

/// A titled, bulleted list of names, as printed for commands, groups and gardens.
pub fn name_list(title: &str, names: &Vec<String>) -> (r: Vec<Vec<Styled>>)
    ensures
        lines_view(r@) == spec_name_list(title@, strs_view(names@)),
{
    let mut r: Vec<Vec<Styled>> = Vec::new();
    push_name_list(&mut r, title, names);
    assert(lines_view(r@) =~= spec_name_list(title@, strs_view(names@)));
    r
}

/// The description, remotes and links of a tree. Remotes are (name, evaluated URL)
/// pairs and links are evaluated links.
pub fn extended_details(
    description: &str,
    is_worktree: bool,
    options: &DisplayOptions,
    remotes: &Vec<(String, String)>,
    links: &Vec<String>,
) -> (r: Vec<Vec<Styled>>)
    ensures
        lines_view(r@) == spec_extended_details(description@, is_worktree, *options, remotes@, strs_view(links@)),
{
    let mut r: Vec<Vec<Styled>> = Vec::new();
    if description.unicode_len() > 0 {
        let mut line: Vec<Styled> = Vec::new();
        push_piece(&mut line, description, Color::Green, false, false);
        assert(line_view(line@) =~= seq![colored(description@, Color::Green)]);
        push_line(&mut r, line);
    }
    assert(lines_view(r@) =~= (if description@.len() > 0 {
        seq![seq![colored(description@, Color::Green)]]
    } else {
        Seq::<Seq<StyledText>>::empty()
    }));
    if is_worktree && !options.worktrees {
        return r;
    }
    let ghost described = lines_view(r@);
    if options.remotes && remotes.len() > 0 {
        let mut head: Vec<Styled> = Vec::new();
        push_piece(&mut head, "remotes:", Color::Blue, false, false);
        assert(line_view(head@) =~= seq![colored("remotes:"@, Color::Blue)]);
        push_line(&mut r, head);
        let ghost start = lines_view(r@);
        let mut i: usize = 0;
        while i < remotes.len()
            invariant
                i <= remotes@.len(),
                lines_view(r@) == start + remote_lines(remotes@.take(i as int)),
            decreases remotes@.len() - i,
        {
            let mut line: Vec<Styled> = Vec::new();
            push_piece(&mut line, "  ", Color::Plain, false, false);
            push_piece(&mut line, remotes[i].0.as_str(), Color::Blue, false, false);
            push_piece(&mut line, ":", Color::Blue, false, false);
            push_piece(&mut line, " ", Color::Plain, false, false);
            push_piece(&mut line, remotes[i].1.as_str(), Color::Yellow, false, false);
            assert(line_view(line@) =~= remote_line(remotes@[i as int].0@, remotes@[i as int].1@));
            push_line(&mut r, line);
            assert(remote_lines(remotes@.take(i + 1)) =~= remote_lines(remotes@.take(i as int)).push(remote_line(remotes@[i as int].0@, remotes@[i as int].1@)));
            i = i + 1;
        }
        assert(remotes@.take(remotes@.len() as int) =~= remotes@);
    }
    let ghost with_remotes = lines_view(r@);
    if links.len() > 0 {
        push_name_list(&mut r, "links:", links);
    }
    assert(lines_view(r@) =~= spec_extended_details(description@, is_worktree, *options, remotes@, strs_view(links@)));
    r
}

/// The line that shows a command before it runs: its shell-quoted words.
pub fn command_line(command: &Vec<String>) -> (r: Vec<Styled>)
    ensures
        line_view(r@) == seq![colored(":"@, Color::Cyan), plain(" "@), colored(spec_shell_words_join(strs_view(command@)), Color::Green)],
{
    let words = command_string(command);
    let mut r: Vec<Styled> = Vec::new();
    push_piece(&mut r, ":", Color::Cyan, false, false);
    push_piece(&mut r, " ", Color::Plain, false, false);
    push_piece(&mut r, words.as_str(), Color::Green, false, false);
    assert(line_view(r@) =~= seq![colored(":"@, Color::Cyan), plain(" "@), colored(spec_shell_words_join(strs_view(command@)), Color::Green)]);
    r
}

/// One step of a tree listing.
#[derive(Clone, Copy, Debug, PartialEq, Eq, Structural)]
pub enum ListAction {
    BlankLine,
    MissingTree,
    SymlinkTree,
    TreeLine,
    ExtendedDetails,
    TreeCommands,
    Groups,
    Gardens,
    ConfigCommands,
}

/// What "garden ls" prints for one tree, and whether a blank line is owed before the
/// next missing or symlink tree. `exists` says whether the tree's path exists and
/// `first` whether this is the first tree of its query.
pub open spec fn spec_list_tree(
    all: bool,
    show_commands: bool,
    exists: bool,
    is_symlink: bool,
    first: bool,
    needs_newline: bool,
    has_commands: bool,
) -> (Seq<ListAction>, bool) {
    let separator = if needs_newline { seq![ListAction::BlankLine] } else { Seq::empty() };
    let commands = if show_commands && has_commands { seq![ListAction::TreeCommands] } else { Seq::empty() };
    if !exists {
        let details = if all { seq![ListAction::ExtendedDetails] + commands } else { Seq::empty() };
        (separator + seq![ListAction::MissingTree] + details, all)
    } else if is_symlink {
        (separator + seq![ListAction::SymlinkTree], false)
    } else {
        let lead = if first { Seq::empty() } else { seq![ListAction::BlankLine] };
        (lead + seq![ListAction::TreeLine, ListAction::ExtendedDetails] + commands, true)
    }
}

/// What "garden ls" prints after its trees: groups, gardens and commands, each after a
/// blank line.
pub open spec fn spec_list_footer(show_commands: bool, has_groups: bool, has_gardens: bool, has_commands: bool) -> Seq<ListAction> {
    (if has_groups { seq![ListAction::BlankLine, ListAction::Groups] } else { Seq::empty() })
        + (if has_gardens { seq![ListAction::BlankLine, ListAction::Gardens] } else { Seq::empty() })
        + (if show_commands && has_commands { seq![ListAction::BlankLine, ListAction::ConfigCommands] } else { Seq::empty() })
}

/// The steps of "garden ls" for one tree, and whether a blank line is owed afterwards.
pub fn list_tree_actions(
    options: &ListOptions,
    exists: bool,
    is_symlink: bool,
    first: bool,
    needs_newline: bool,
    has_commands: bool,
) -> (r: (Vec<ListAction>, bool))
    ensures
        (r.0@, r.1) == spec_list_tree(options.all, !options.no_commands, exists, is_symlink, first, needs_newline, has_commands),
{
    let mut actions: Vec<ListAction> = Vec::new();
    let show_commands = !options.no_commands;
    if !exists {
        if needs_newline {
            actions.push(ListAction::BlankLine);
        }
        actions.push(ListAction::MissingTree);
        if options.all {
            actions.push(ListAction::ExtendedDetails);
            if show_commands && has_commands {
                actions.push(ListAction::TreeCommands);
            }
        }
        assert(actions@ =~= spec_list_tree(options.all, show_commands, exists, is_symlink, first, needs_newline, has_commands).0);
        return (actions, options.all);
    }
    if is_symlink {
        if needs_newline {
            actions.push(ListAction::BlankLine);
        }
        actions.push(ListAction::SymlinkTree);
        assert(actions@ =~= spec_list_tree(options.all, show_commands, exists, is_symlink, first, needs_newline, has_commands).0);
        return (actions, false);
    }
    if !first {
        actions.push(ListAction::BlankLine);
    }
    actions.push(ListAction::TreeLine);
    actions.push(ListAction::ExtendedDetails);
    if show_commands && has_commands {
        actions.push(ListAction::TreeCommands);
    }
    assert(actions@ =~= spec_list_tree(options.all, show_commands, exists, is_symlink, first, needs_newline, has_commands).0);
    (actions, true)
}

/// The steps of "garden ls" after its trees.
pub fn list_footer_actions(options: &ListOptions, has_groups: bool, has_gardens: bool, has_commands: bool) -> (r: Vec<ListAction>)
    ensures
        r@ == spec_list_footer(!options.no_commands, has_groups, has_gardens, has_commands),
{
    let mut actions: Vec<ListAction> = Vec::new();
    if has_groups {
        actions.push(ListAction::BlankLine);
        actions.push(ListAction::Groups);
    }
    if has_gardens {
        actions.push(ListAction::BlankLine);
        actions.push(ListAction::Gardens);
    }
    if !options.no_commands && has_commands {
        actions.push(ListAction::BlankLine);
        actions.push(ListAction::ConfigCommands);
    }
    assert(actions@ =~= spec_list_footer(!options.no_commands, has_groups, has_gardens, has_commands));
    actions
}

/// With no query given, "garden ls" lists every tree ("@*").
pub fn list_default_queries(options: &mut ListOptions)
    ensures
        final(options).all == old(options).all,
        final(options).no_commands == old(options).no_commands,
        final(options).worktrees == old(options).worktrees,
        old(options).queries@.len() == 0 ==> strs_view(final(options).queries@) == seq!["@*"@],
        old(options).queries@.len() > 0 ==> final(options).queries@ == old(options).queries@,
{
    if options.queries.len() == 0 {
        options.queries.push(owned("@*"));
        assert(strs_view(options.queries@) =~= seq!["@*"@]);
    }
}

} // verus!

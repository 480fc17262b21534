//! Shell command construction.
use vstd::prelude::*;

use crate::constants;
use crate::model::opt_view;
use crate::path::{is_absolute, is_shell, path_push, spec_is_absolute, spec_is_shell, spec_path_push, spec_str_basename, str_basename};
use crate::syntax::{spec_split_shebang, split_shebang};
use crate::text::{owned, str_eq};

verus! {

/// The words of a shell string as split by `shlex::split`, or `None` when the string
/// is not well-formed (unbalanced quotes or a trailing escape).
pub uninterp spec fn spec_shlex_split(s: Seq<char>) -> Option<Seq<Seq<char>>>;

/// The shell-quoted form of an argument from `shlex::try_quote`, or `None` when it
/// cannot be quoted.
pub uninterp spec fn spec_shlex_try_quote(s: Seq<char>) -> Option<Seq<char>>;

/// The plain view of a list of strings.
pub open spec fn strs_view(v: Seq<String>) -> Seq<Seq<char>> {
    v.map_values(|s: String| s@)
}

/// Calls `shlex::split`. Trusted: the result is named `spec_shlex_split` of the text.
#[verifier::external_body]
fn shlex_split_words(s: &str) -> (r: Option<Vec<String>>)
    ensures
        match r {
            Some(v) => spec_shlex_split(s@) == Some(strs_view(v@)),
            None => spec_shlex_split(s@) is None,
        },
{
    shlex::split(s)
}

/// Calls `shlex::try_quote`. Trusted: the result is named `spec_shlex_try_quote` of
/// the argument; shlex documents that its default quoter fails only on a nul byte.
#[verifier::external_body]
fn shlex_try_quote(arg: &str) -> (r: Option<String>)
    ensures
        opt_view(r) == spec_shlex_try_quote(arg@),
        r is None ==> arg@.contains('\0'),
{
    match shlex::try_quote(arg) {
        Ok(quoted) => Some(quoted.to_string()),
        Err(_) => None,
    }
}

/// The command-line words of a shell string: none for the empty string; the words
/// that shlex finds; the whole string as one word when shlex finds none or fails.
pub open spec fn spec_shell_words(shell: Seq<char>) -> Seq<Seq<char>> {
    if shell.len() == 0 {
        Seq::empty()
    } else {
        match spec_shlex_split(shell) {
            Some(words) => if words.len() > 0 {
                words
            } else {
                seq![shell]
            },
            None => seq![shell],
        }
    }
}

/// Split a shell string into command-line arguments (see `spec_shell_words`).
pub fn shlex_split(shell: &str) -> (r: Vec<String>)
    ensures
        strs_view(r@) == spec_shell_words(shell@),
{
    if shell.is_empty() {
        let r: Vec<String> = Vec::new();
        assert(strs_view(r@) =~= Seq::<Seq<char>>::empty());
        return r;
    }
    match shlex_split_words(shell) {
        Some(shell_command) => {
            if shell_command.len() > 0 {
                return shell_command;
            }
        },
        None => {},
    }
    let r = vec![owned(shell)];
    assert(strs_view(r@) =~= seq![shell@]);
    r
}

/// Shell-quote an argument for display; an argument that cannot be quoted is used
/// as it is.
pub fn shell_quote(arg: &str) -> (r: String)
    ensures
        r@ == (match spec_shlex_try_quote(arg@) {
            Some(q) => q,
            None => arg@,
        }),
{
    match shlex_try_quote(arg) {
        Some(quoted) => quoted,
        None => owned(arg),
    }
}

/// The command used to run command strings with a shell, and whether it is a shell
/// that takes `$0` after the command string.
pub struct ShellParams {
    pub shell_command: Vec<String>,
    pub is_shell: bool,
}

/// Interpreters that evaluate a string given with "-e".
pub open spec fn spec_is_dash_e(basename: Seq<char>) -> bool {
    basename == constants::SHELL_BUN@ || basename == constants::SHELL_NODE@ || basename
        == constants::SHELL_NODEJS@ || basename == constants::SHELL_PERL@ || basename
        == constants::SHELL_RUBY@
}

/// The options added to a single-word shell: zsh splits words when asked and never
/// fails on unmatched globs; shells echo with "-x" and stop on errors with "-e"; the
/// command string follows "-e" for interpreters and "-c" otherwise.
pub open spec fn shell_options(basename: Seq<char>, echo: bool, exit_on_error: bool, word_split: bool) -> Seq<
    Seq<char>,
> {
    let is_zsh = basename == constants::SHELL_ZSH@;
    let is_shell = spec_is_shell(basename);
    let s1 = if word_split && is_zsh {
        seq!["-o"@, "shwordsplit"@]
    } else {
        Seq::empty()
    };
    let s2 = if is_zsh {
        s1.push("+o"@).push("nomatch"@)
    } else {
        s1
    };
    let s3 = if echo && is_shell {
        s2.push("-x"@)
    } else {
        s2
    };
    let s4 = if exit_on_error && is_shell {
        s3.push("-e"@)
    } else {
        s3
    };
    if spec_is_dash_e(basename) {
        s4.push("-e"@)
    } else {
        s4.push("-c"@)
    }
}

/// Append a word.
fn push_word(v: &mut Vec<String>, w: &str)
    ensures
        strs_view(final(v)@) == strs_view(old(v)@).push(w@),
{
    let ghost before = v@;
    v.push(owned(w));
    assert(strs_view(v@) =~= strs_view(before).push(w@));
}

impl ShellParams {
    /// Shell parameters for a shell string. A single-word shell gets the options that
    /// run a command string (see `shell_options`); a shell given with its own options
    /// is used as it is.
    pub fn new(shell: &str, echo: bool, exit_on_error: bool, word_split: bool) -> (p: Self)
        requires
            shell@.len() > 0,
        ensures
            spec_shell_words(shell@).len() > 0,
            p.is_shell == spec_is_shell(spec_str_basename(spec_shell_words(shell@)[0])),
            strs_view(p.shell_command@) == spec_shell_words(shell@) + if spec_shell_words(shell@).len()
                > 1 {
                Seq::empty()
            } else {
                shell_options(spec_str_basename(spec_shell_words(shell@)[0]), echo, exit_on_error, word_split)
            },
    {
        let mut shell_command = shlex_split(shell);
        let basename = str_basename(shell_command[0].as_str());
        let is_shell = is_shell(basename.as_str());
        let is_zsh = str_eq(basename.as_str(), constants::SHELL_ZSH);
        let is_dash_e = str_eq(basename.as_str(), constants::SHELL_BUN) || str_eq(
            basename.as_str(),
            constants::SHELL_NODE,
        ) || str_eq(basename.as_str(), constants::SHELL_NODEJS) || str_eq(
            basename.as_str(),
            constants::SHELL_PERL,
        ) || str_eq(basename.as_str(), constants::SHELL_RUBY);
        // A shell given with its own options is used as it is.
        let is_custom = shell_command.len() > 1;
        let ghost words = strs_view(shell_command@);
        if !is_custom {
            let mut options: Vec<String> = Vec::new();
            if word_split && is_zsh {
                push_word(&mut options, "-o");
                push_word(&mut options, "shwordsplit");
                assert(strs_view(options@) =~= seq!["-o"@, "shwordsplit"@]);
            } else {
                assert(strs_view(options@) =~= Seq::<Seq<char>>::empty());
            }
            if is_zsh {
                push_word(&mut options, "+o");
                push_word(&mut options, "nomatch");
            }
            if echo && is_shell {
                push_word(&mut options, "-x");
            }
            if exit_on_error && is_shell {
                push_word(&mut options, "-e");
            }
            if is_dash_e {
                push_word(&mut options, "-e");
            } else {
                push_word(&mut options, "-c");
            }
            assert(strs_view(options@) =~= shell_options(basename@, echo, exit_on_error, word_split));
            let ghost before = shell_command@;
            let ghost opts = options@;
            shell_command.append(&mut options);
            assert(strs_view(shell_command@) =~= strs_view(before) + strs_view(opts));
        } else {
            assert(strs_view(shell_command@) =~= words + Seq::<Seq<char>>::empty());
        }
        ShellParams { shell_command, is_shell }
    }

    /// Shell parameters for a "#!" shebang line: its words, used as they are.
    pub fn from_str(shell: &str) -> (p: Self)
        requires
            shell@.len() > 0,
        ensures
            strs_view(p.shell_command@) == spec_shell_words(shell@),
            p.is_shell == spec_is_shell(spec_str_basename(spec_shell_words(shell@)[0])),
    {
        let shell_command = shlex_split(shell);
        assert(strs_view(shell_command@).len() == shell_command@.len());
        let basename = str_basename(shell_command[0].as_str());
        let is_shell = is_shell(basename.as_str());
        ShellParams { shell_command, is_shell }
    }
}


/// The command line that `shell_words::join` builds from words: each word quoted
/// for the shell, separated by spaces.
pub uninterp spec fn spec_shell_words_join(words: Seq<Seq<char>>) -> Seq<char>;

/// Calls `shell_words::join`. Trusted: the result is named `spec_shell_words_join`
/// of the words.
#[verifier::external_body]
fn shell_words_join(words: &Vec<String>) -> (r: String)
    ensures
        r@ == spec_shell_words_join(strs_view(words@)),
{
    shell_words::join(words)
}

/// The shell-quoted command line of an argument list, for display.
pub fn command_string(command: &Vec<String>) -> (r: String)
    ensures
        r@ == spec_shell_words_join(strs_view(command@)),
{
    shell_words_join(command)
}

/// The state of splitting a string at every ':': the entries completed so far and
/// the entry being read.
pub open spec fn entries_fold(s: Seq<char>) -> (Seq<Seq<char>>, Seq<char>)
    decreases s.len(),
{
    if s.len() == 0 {
        (Seq::empty(), Seq::empty())
    } else {
        let (done, cur) = entries_fold(s.drop_last());
        if s.last() == ':' {
            (done.push(cur), Seq::empty())
        } else {
            (done, cur.push(s.last()))
        }
    }
}

/// The entries of a search path: the text between ':' separators, empty entries
/// included (`std::env::split_paths` on Unix).
pub open spec fn spec_path_entries(s: Seq<char>) -> Seq<Seq<char>> {
    entries_fold(s).0.push(entries_fold(s).1)
}

/// Split a search path into its entries (see `spec_path_entries`).
pub fn path_entries(s: &str) -> (r: Vec<String>)
    ensures
        strs_view(r@) == spec_path_entries(s@),
{
    let chars = crate::text::chars_of(s);
    let mut done: Vec<String> = Vec::new();
    let mut cur = String::new();
    let mut i: usize = 0;
    assert(chars@.take(0) =~= Seq::<char>::empty());
    assert(strs_view(done@) =~= Seq::<Seq<char>>::empty());
    while i < chars.len()
        invariant
            chars@ == s@,
            i <= chars@.len(),
            (strs_view(done@), cur@) == entries_fold(chars@.take(i as int)),
        decreases chars@.len() - i,
    {
        assert(chars@.take(i + 1).drop_last() =~= chars@.take(i as int));
        let c = chars[i];
        if c == ':' {
            let ghost before = done@;
            let entry = cur;
            done.push(entry);
            assert(strs_view(done@) =~= strs_view(before).push(entry@));
            cur = String::new();
        } else {
            crate::text::push_char(&mut cur, c);
        }
        i = i + 1;
    }
    assert(chars@.take(chars@.len() as int) =~= chars@);
    let ghost before = done@;
    let last = cur;
    done.push(last);
    assert(strs_view(done@) =~= strs_view(before).push(last@));
    done
}

/// The plain view of an environment.
pub open spec fn env_view(env: Seq<(String, String)>) -> Seq<(Seq<char>, Seq<char>)> {
    env.map_values(|p: (String, String)| (p.0@, p.1@))
}

/// The files that a command name may be inside an environment: none for an
/// absolute path; else the command name joined onto each entry of the first PATH
/// definition of the environment, in order. The first candidate that exists is run.
pub open spec fn spec_command_candidates(command: Seq<char>, env: Seq<(Seq<char>, Seq<char>)>) -> Seq<
    Seq<char>,
> {
    if spec_is_absolute(command) {
        Seq::empty()
    } else {
        match crate::collections::entry_get(env, constants::ENV_PATH@) {
            Some(path) => spec_path_entries(path).map_values(|d: Seq<char>| spec_path_push(d, command)),
            None => Seq::empty(),
        }
    }
}

/// List the files that a command name may be inside an environment (see
/// `spec_command_candidates`).
pub fn command_candidates(command: &str, env: &Vec<(String, String)>) -> (r: Vec<String>)
    ensures
        strs_view(r@) == spec_command_candidates(command@, env_view(env@)),
{
    let mut r: Vec<String> = Vec::new();
    assert(strs_view(r@) =~= Seq::<Seq<char>>::empty());
    if is_absolute(command) {
        return r;
    }
    let ghost ev = env_view(env@);
    let mut k: usize = 0;
    while k < env.len()
        invariant
            ev == env_view(env@),
            k <= env@.len(),
            !spec_is_absolute(command@),
            forall|j: int| 0 <= j < k ==> ev[j].0 != constants::ENV_PATH@,
            strs_view(r@) == Seq::<Seq<char>>::empty(),
        decreases env@.len() - k,
    {
        if str_eq(env[k].0.as_str(), constants::ENV_PATH) {
            assert(ev[k as int].0 == env@[k as int].0@);
            proof {
                crate::collections::lemma_entry_index_intro(ev, constants::ENV_PATH@, k as int);
            }
            let entries = path_entries(env[k].1.as_str());
            let ghost es = strs_view(entries@);
            let mut i: usize = 0;
            while i < entries.len()
                invariant
                    es == strs_view(entries@),
                    i <= entries@.len(),
                    ev == env_view(env@),
                    k < env@.len(),
                    !spec_is_absolute(command@),
                    forall|j: int| 0 <= j < k ==> ev[j].0 != constants::ENV_PATH@,
                    ev[k as int].0 == constants::ENV_PATH@,
                    strs_view(r@) == es.take(i as int).map_values(|d: Seq<char>| spec_path_push(d, command@)),
                decreases entries@.len() - i,
            {
                let ghost before = r@;
                let c = path_push(entries[i].as_str(), command);
                r.push(c);
                assert(es[i as int] == entries@[i as int]@);
                assert(es.take(i + 1) =~= es.take(i as int).push(es[i as int]));
                assert(strs_view(r@) =~= strs_view(before).push(c@));
                assert(strs_view(r@) =~= es.take(i + 1).map_values(|d: Seq<char>| spec_path_push(d, command@)));
                i = i + 1;
            }
            assert(es.take(entries@.len() as int) =~= es);
            proof {
                crate::collections::lemma_entry_index_intro(ev, constants::ENV_PATH@, k as int);
                assert(ev[k as int].1 == env@[k as int].1@);
                assert(es == spec_path_entries(env@[k as int].1@));
            }
            return r;
        }
        k = k + 1;
    }
    proof {
        crate::collections::lemma_entry_index_none(ev, constants::ENV_PATH@);
    }
    r
}

/// The words that run one command string with a shell: the shell command, the
/// command string, the garden executable as `$0` when the shell takes it, then the
/// extra arguments.
pub open spec fn spec_command_args(
    shell_command: Seq<Seq<char>>,
    is_shell: bool,
    body: Seq<char>,
    current_exe: Seq<char>,
    arguments: Seq<Seq<char>>,
) -> Seq<Seq<char>> {
    shell_command + seq![body] + (if is_shell { seq![current_exe] } else { Seq::empty() }) + arguments
}

/// Append every word of `words`.
fn push_words(v: &mut Vec<String>, words: &Vec<String>)
    ensures
        strs_view(final(v)@) == strs_view(old(v)@) + strs_view(words@),
{
    let mut i: usize = 0;
    while i < words.len()
        invariant
            i <= words@.len(),
            strs_view(v@) == strs_view(old(v)@) + strs_view(words@).take(i as int),
        decreases words@.len() - i,
    {
        push_word(v, words[i].as_str());
        assert(strs_view(words@).take(i + 1) =~= strs_view(words@).take(i as int).push(words@[i as int]@));
        i = i + 1;
    }
    assert(strs_view(words@).take(words@.len() as int) =~= strs_view(words@));
}

/// The words that run the command string `body` with the shell parameters.
pub fn command_args(shell: &ShellParams, body: &str, current_exe: &str, arguments: &Vec<String>) -> (r: Vec<String>)
    ensures
        strs_view(r@) == spec_command_args(strs_view(shell.shell_command@), shell.is_shell, body@, current_exe@, strs_view(arguments@)),
{
    let mut r: Vec<String> = Vec::new();
    assert(strs_view(r@) =~= Seq::<Seq<char>>::empty());
    push_words(&mut r, &shell.shell_command);
    push_word(&mut r, body);
    if shell.is_shell {
        push_word(&mut r, current_exe);
    }
    push_words(&mut r, arguments);
    assert(strs_view(r@) =~= spec_command_args(strs_view(shell.shell_command@), shell.is_shell, body@, current_exe@, strs_view(arguments@)));
    r
}

/// The words that run a command string: with the interpreter of its "#!" first line
/// when it has one (the rest of the string being the command), else with the default
/// shell parameters.
pub fn command_string_args(
    default_shell: &ShellParams,
    cmd_str: &str,
    current_exe: &str,
    arguments: &Vec<String>,
) -> (r: Vec<String>)
    requires
        spec_split_shebang(cmd_str@) matches Some((interpreter, _)) ==> interpreter.len() > 0,
    ensures
        match spec_split_shebang(cmd_str@) {
            Some((interpreter, body)) => strs_view(r@) == spec_command_args(
                spec_shell_words(interpreter),
                spec_is_shell(spec_str_basename(spec_shell_words(interpreter)[0])),
                body,
                current_exe@,
                strs_view(arguments@),
            ),
            None => strs_view(r@) == spec_command_args(
                strs_view(default_shell.shell_command@),
                default_shell.is_shell,
                cmd_str@,
                current_exe@,
                strs_view(arguments@),
            ),
        },
{
    match split_shebang(cmd_str) {
        Some((interpreter, body)) => {
            let shell = ShellParams::from_str(interpreter);
            command_args(&shell, body, current_exe, arguments)
        },
        None => command_args(default_shell, cmd_str, current_exe, arguments),
    }
}

/// The words of the shell command that "garden shell" runs, as `shlex::split` gives
/// them; `None` when the command cannot be split.
pub fn shell_command_words(shell: &str) -> (r: Option<Vec<String>>)
    ensures
        match r {
            Some(v) => spec_shlex_split(shell@) == Some(strs_view(v@)),
            None => spec_shlex_split(shell@) is None,
        },
{
    shlex_split_words(shell)
}

/// The default number of parallel jobs: the available parallelism of the machine but
/// at least three (pruning needs three threads), or four when it is unknown.
pub fn default_num_jobs(available: Option<usize>) -> (n: usize)
    ensures
        n == default_num_jobs_spec(available),
{
    match available {
        Some(v) => if v > 3 { v } else { 3 },
        None => 4,
    }
}

/// The size of the global thread pool that the jobs option asks for: none when the
/// option is absent, the default number of jobs for zero, else the number given.
pub fn initialize_threads_option(num_jobs: Option<usize>, available: Option<usize>) -> (r: Option<usize>)
    ensures
        match num_jobs {
            None => r is None,
            Some(n) => r == Some(if n == 0 { default_num_jobs_spec(available) } else { n }),
        },
{
    match num_jobs {
        None => None,
        Some(n) => Some(if n == 0 { default_num_jobs(available) } else { n }),
    }
}

/// The default number of parallel jobs, as a value.
pub open spec fn default_num_jobs_spec(available: Option<usize>) -> usize {
    match available {
        Some(v) => if v > 3 { v } else { 3 },
        None => 4,
    }
}

} // verus!

//! Command-line and configuration syntax conventions.
use vstd::prelude::*;
use vstd::string::StrSliceExecFns;

use crate::text::{
    lemma_first_occurrence, occurs_at,
    chars_eq, chars_of, contains_char, ends_with, find, is_first_occurrence, owned, push_char,
    seq_contains, seq_ends_with, seq_starts_with, starts_with, string_from_chars,
};

verus! {

/// Every character is an ASCII digit (vacuously true of the empty string).
pub open spec fn spec_is_digit(s: Seq<char>) -> bool {
    forall|i: int| 0 <= i < s.len() ==> '0' <= #[trigger] s[i] <= '9'
}

/// The "$ " prefix that introduces an exec expression.
pub open spec fn exec_prefix() -> Seq<char> {
    seq!['$', ' ']
}

/// The "::" separator between a graft name and the grafted value.
pub open spec fn graft_separator() -> Seq<char> {
    seq![':', ':']
}

pub open spec fn spec_is_exec(s: Seq<char>) -> bool {
    seq_starts_with(s, exec_prefix())
}

pub open spec fn spec_is_garden(s: Seq<char>) -> bool {
    s.len() > 0 && s[0] == ':'
}

pub open spec fn spec_is_group(s: Seq<char>) -> bool {
    s.len() > 0 && s[0] == '%'
}

pub open spec fn spec_is_tree(s: Seq<char>) -> bool {
    s.len() > 0 && s[0] == '@'
}

pub open spec fn spec_is_append_op(s: Seq<char>) -> bool {
    s.len() > 0 && s.last() == '+'
}

pub open spec fn spec_is_replace_op(s: Seq<char>) -> bool {
    s.len() > 0 && s.last() == '='
}

pub open spec fn spec_is_graft(s: Seq<char>) -> bool {
    seq_contains(s, graft_separator())
}

pub open spec fn spec_is_eval_candidate(s: Seq<char>) -> bool {
    s.contains('$')
}

pub open spec fn spec_is_git_dir(s: Seq<char>) -> bool {
    s.len() > 4 && seq_ends_with(s, seq!['.', 'g', 'i', 't']) && !seq_ends_with(
        s,
        seq!['/', '.', 'g', 'i', 't'],
    )
}

/// The string with its garden, group or tree sigil removed.
pub open spec fn spec_trim(s: Seq<char>) -> Seq<char> {
    if spec_is_group(s) || spec_is_tree(s) || spec_is_garden(s) {
        s.drop_first()
    } else {
        s
    }
}

/// The string with its "$ " exec prefix removed.
pub open spec fn spec_trim_exec(s: Seq<char>) -> Seq<char> {
    if spec_is_exec(s) {
        s.subrange(2, s.len() as int)
    } else {
        s
    }
}

/// The result of splitting `s` around the first occurrence of `split`:
/// `(found, before, after)`. When `split` does not occur the whole string is "before".
pub open spec fn spec_split_string(s: Seq<char>, split: Seq<char>) -> (bool, Seq<char>, Seq<char>) {
    if seq_contains(s, split) {
        let i = choose|i: int| is_first_occurrence(s, split, i);
        (true, s.subrange(0, i), s.subrange(i + split.len(), s.len() as int))
    } else {
        (false, s, Seq::empty())
    }
}

/// What follows a non-empty separator is shorter than the whole string.
pub proof fn lemma_split_after_shorter(s: Seq<char>, split: Seq<char>)
    requires
        split.len() > 0,
        spec_split_string(s, split).0,
    ensures
        spec_split_string(s, split).2.len() < s.len(),
        spec_split_string(s, split).1.len() + split.len() <= s.len(),
        spec_split_string(s, split).2.len() + split.len() <= s.len(),
{
    let k = choose|i: int| occurs_at(s, split, i);
    lemma_first_occurrence(s, split, k);
}

/// The sigil prefix (":", "%" or "@") of a query string, if any.
pub open spec fn sigil_prefix(s: Seq<char>) -> Seq<char> {
    if spec_is_garden(s) {
        seq![':']
    } else if spec_is_group(s) {
        seq!['%']
    } else if spec_is_tree(s) {
        seq!['@']
    } else {
        Seq::empty()
    }
}

/// "graft::rest" becomes "rest", keeping the leading sigil of the input.
pub open spec fn spec_trim_graft(s: Seq<char>) -> Option<Seq<char>> {
    let (ok, _before, after) = spec_split_string(s, graft_separator());
    if ok {
        Some(sigil_prefix(s) + after)
    } else {
        None
    }
}

/// "@graft::rest" becomes "graft".
pub open spec fn spec_graft_basename(s: Seq<char>) -> Option<Seq<char>> {
    let (ok, before, _after) = spec_split_string(s, graft_separator());
    if ok {
        if spec_is_garden(s) || spec_is_group(s) || spec_is_tree(s) {
            Some(spec_trim(before))
        } else {
            Some(before)
        }
    } else {
        None
    }
}

/// The Unicode "alphanumeric" property of a character beyond ASCII
/// (`char::is_alphanumeric`).
pub uninterp spec fn spec_char_is_alphanumeric(c: char) -> bool;

/// Whether a character is alphanumeric (`char::is_alphanumeric`): on ASCII, exactly
/// the digits and the letters.
pub open spec fn char_alphanumeric(c: char) -> bool {
    if (c as u32) < 0x80 {
        ('0' <= c && c <= '9') || ('a' <= c && c <= 'z') || ('A' <= c && c <= 'Z')
    } else {
        spec_char_is_alphanumeric(c)
    }
}

/// Characters that may follow `$` in a `$variable` reference.
pub open spec fn is_variable_char(c: char) -> bool {
    char_alphanumeric(c) || c == '_'
}

/// Escaping state after reading a prefix of the input: the escaped text so far and
/// whether the last character read was an unescaped `$`.
pub open spec fn escape_state(s: Seq<char>) -> (Seq<char>, bool)
    decreases s.len(),
{
    if s.len() == 0 {
        (Seq::empty(), false)
    } else {
        let (out, pending) = escape_state(s.drop_last());
        let c = s.last();
        if pending {
            if is_variable_char(c) {
                (out + seq!['$', c], false)
            } else if c == '$' {
                (out.push('$'), false)
            } else {
                (out.push(c), false)
            }
        } else {
            (out.push(c), c == '$')
        }
    }
}

/// `$variable` is escaped into `$$variable`; everything else is kept as-is.
pub open spec fn spec_escape_shell_variables(s: Seq<char>) -> Seq<char> {
    escape_state(s).0
}

/// Escaping an escaped text reads it back to the same text and state.
proof fn lemma_escape_state_stable(s: Seq<char>)
    ensures
        escape_state(escape_state(s).0) == escape_state(s),
    decreases s.len(),
{
    if s.len() > 0 {
        let s1 = s.drop_last();
        let c = s.last();
        lemma_escape_state_stable(s1);
        let (t1, p1) = escape_state(s1);
        let t = escape_state(s).0;
        assert(!is_variable_char('$'));
        if p1 && is_variable_char(c) {
            let t2 = t1.push('$');
            assert(t2.drop_last() =~= t1);
            assert(escape_state(t2) == (t2, false));
            assert(t =~= t2.push(c));
            assert(t.drop_last() =~= t2);
        } else {
            assert(t.drop_last() =~= t1);
        }
    }
}

/// Escaping is idempotent: an escaped text is escaped to itself (an escaped
/// `$$variable` is never escaped again).
pub proof fn law_escape_idempotent(s: Seq<char>)
    ensures
        spec_escape_shell_variables(spec_escape_shell_variables(s)) == spec_escape_shell_variables(s),
{
    lemma_escape_state_stable(s);
}

pub open spec fn spec_bool_to_string(value: bool) -> Seq<char> {
    if value {
        seq!['t', 'r', 'u', 'e']
    } else {
        seq!['f', 'a', 'l', 's', 'e']
    }
}

pub open spec fn spec_string_to_bool(s: Seq<char>) -> Option<bool> {
    if s == seq!['t', 'r', 'u', 'e'] || s == seq!['1'] {
        Some(true)
    } else if s == seq!['f', 'a', 'l', 's', 'e'] || s == seq!['0'] {
        Some(false)
    } else {
        None
    }
}

/// The "$ " prefix as a vector of characters.
fn exec_prefix_chars() -> (v: Vec<char>)
    ensures
        v@ == exec_prefix(),
{
    let v = vec!['$', ' '];
    assert(v@ =~= exec_prefix());
    v
}

/// The "::" separator as a vector of characters.
fn graft_separator_chars() -> (v: Vec<char>)
    ensures
        v@ == graft_separator(),
{
    let v = vec![':', ':'];
    assert(v@ =~= graft_separator());
    v
}

/// Return true if the string contains 0-9 digits only.
pub fn is_digit(string: &str) -> (r: bool)
    ensures
        r == spec_is_digit(string@),
{
    let v = chars_of(string);
    let mut i: usize = 0;
    while i < v.len()
        invariant
            v@ == string@,
            i <= v@.len(),
            forall|j: int| 0 <= j < i ==> '0' <= #[trigger] v@[j] <= '9',
        decreases v.len() - i,
    {
        let c = v[i];
        if !('0' <= c && c <= '9') {
            return false;
        }
        i = i + 1;
    }
    true
}

/// Return true if `string` is an `$ exec` expression.
pub fn is_exec(string: &str) -> (r: bool)
    ensures
        r == spec_is_exec(string@),
{
    starts_with(&chars_of(string), &exec_prefix_chars())
}

/// Return the first character of a string, if any.
fn first_char(string: &str) -> (r: Option<char>)
    ensures
        r == (if string@.len() > 0 {
            Some(string@[0])
        } else {
            None::<char>
        }),
{
    if string.unicode_len() > 0 {
        Some(string.get_char(0))
    } else {
        None
    }
}

/// Return the last character of a string, if any.
fn last_char(string: &str) -> (r: Option<char>)
    ensures
        r == (if string@.len() > 0 {
            Some(string@.last())
        } else {
            None::<char>
        }),
{
    let n = string.unicode_len();
    if n > 0 {
        Some(string.get_char(n - 1))
    } else {
        None
    }
}

/// Return true if `string` is a `:garden` expression.
pub fn is_garden(string: &str) -> (r: bool)
    ensures
        r == spec_is_garden(string@),
{
    first_char(string) == Some(':')
}

/// Return true if `string` is a `%group` expression.
pub fn is_group(string: &str) -> (r: bool)
    ensures
        r == spec_is_group(string@),
{
    first_char(string) == Some('%')
}

/// Return true if `string` is a `@tree` expression.
pub fn is_tree(string: &str) -> (r: bool)
    ensures
        r == spec_is_tree(string@),
{
    first_char(string) == Some('@')
}

/// Return true if `string` is a variable "append" operation.
pub fn is_append_op(string: &str) -> (r: bool)
    ensures
        r == spec_is_append_op(string@),
{
    last_char(string) == Some('+')
}

/// Return true if `string` is a variable "replace" operation.
pub fn is_replace_op(string: &str) -> (r: bool)
    ensures
        r == spec_is_replace_op(string@),
{
    last_char(string) == Some('=')
}

/// Return true if `string` is a `graft::value` expression.
pub fn is_graft(string: &str) -> (r: bool)
    ensures
        r == spec_is_graft(string@),
{
    find(&chars_of(string), &graft_separator_chars()).is_some()
}

/// Return true if `string` is a candidate for evaluation.
/// Returns true for strings with ${vars} and "$ exec" expressions.
pub fn is_eval_candidate(string: &str) -> (r: bool)
    ensures
        r == spec_is_eval_candidate(string@),
{
    contains_char(&chars_of(string), '$')
}

/// Return true if `string` ends in ".git". This is used to detect bare repositories.
pub fn is_git_dir(string: &str) -> (r: bool)
    ensures
        r == spec_is_git_dir(string@),
{
    let v = chars_of(string);
    let dot_git = vec!['.', 'g', 'i', 't'];
    let slash_dot_git = vec!['/', '.', 'g', 'i', 't'];
    assert(dot_git@ =~= seq!['.', 'g', 'i', 't']);
    assert(slash_dot_git@ =~= seq!['/', '.', 'g', 'i', 't']);
    v.len() > 4 && ends_with(&v, &dot_git) && !ends_with(&v, &slash_dot_git)
}

/// Trim garden, group, and tree prefixes.
pub fn trim(string: &str) -> (r: &str)
    ensures
        r@ == spec_trim(string@),
{
    let needs_trim = is_group(string) || is_tree(string) || is_garden(string);
    if needs_trim {
        string.substring_char(1, string.unicode_len())
    } else {
        string
    }
}

/// Trim the "$ " prefix from an exec expression.
pub fn trim_exec(string: &str) -> (r: &str)
    ensures
        r@ == spec_trim_exec(string@),
{
    if is_exec(string) {
        string.substring_char(2, string.unicode_len())
    } else {
        string
    }
}

/// Trim "+" and "=" suffixes in-place: strings longer than a single character lose
/// their last character.
pub fn trim_op_inplace(string: &mut String)
    requires
        old(string)@.len() == 0 || (old(string)@.last() as u32) < 0x80,
    ensures
        final(string)@ == (if old(string)@.len() > 1 {
            old(string)@.drop_last()
        } else {
            old(string)@
        }),
{
    let n = string.as_str().unicode_len();
    if n > 1 {
        let trimmed = owned(string.as_str().substring_char(0, n - 1));
        *string = trimmed;
    }
}

/// Split a string into the text before and after the first occurrence of `split`.
pub fn split_string<'a>(string: &'a str, split: &str) -> (r: (bool, &'a str, &'a str))
    ensures
        (r.0, r.1@, r.2@) == spec_split_string(string@, split@),
{
    let v = chars_of(string);
    let p = chars_of(split);
    match find(&v, &p) {
        Some(i) => {
            let end = v.len();
            proof {
                let j = choose|j: int| is_first_occurrence(string@, split@, j);
                if j < i {
                } else if i < j {
                }
                assert(j == i);
            }
            (true, string.substring_char(0, i), string.substring_char(i + p.len(), end))
        },
        None => (false, string, string.substring_char(0, 0)),
    }
}

/// Split a string into pre and post-graft namespace strings.
pub fn split_graft(string: &str) -> (r: (bool, &str, &str))
    ensures
        (r.0, r.1@, r.2@) == spec_split_string(string@, graft_separator()),
{
    let sep = graft_separator_chars();
    let sep_str = string_from_chars(&sep);
    split_string(string, sep_str.as_str())
}

/// Remove the graft basename leaving the remainder of the graft string.
pub fn trim_graft(string: &str) -> (r: Option<String>)
    ensures
        r matches Some(v) ==> spec_trim_graft(string@) == Some(v@),
        r is None ==> spec_trim_graft(string@) is None,
{
    let (ok, _before, after) = split_graft(string);
    if !ok {
        return None;
    }
    let mut result = String::new();
    if is_garden(string) {
        push_char(&mut result, ':');
    } else if is_group(string) {
        push_char(&mut result, '%');
    } else if is_tree(string) {
        push_char(&mut result, '@');
    }
    result.append(after);
    proof {
        assert(result@ =~= sigil_prefix(string@) + after@);
    }
    Some(result)
}

/// Return the graft basename.  "@foo::bar::baz" -> "foo"
pub fn graft_basename(string: &str) -> (r: Option<String>)
    ensures
        r matches Some(v) ==> spec_graft_basename(string@) == Some(v@),
        r is None ==> spec_graft_basename(string@) is None,
{
    let (ok, before, _after) = split_graft(string);
    if !ok {
        return None;
    }
    let result = if is_garden(string) || is_group(string) || is_tree(string) {
        owned(trim(before))
    } else {
        owned(before)
    };
    Some(result)
}

/// `char::is_alphanumeric`: on ASCII characters, exactly the digits and the letters;
/// beyond ASCII, the Unicode property named `spec_char_is_alphanumeric`.
#[verifier::external_body]
fn char_is_alphanumeric(c: char) -> (r: bool)
    ensures
        r == (if (c as u32) < 0x80 {
            ('0' <= c && c <= '9') || ('a' <= c && c <= 'z') || ('A' <= c && c <= 'Z')
        } else {
            spec_char_is_alphanumeric(c)
        }),
{
    c.is_alphanumeric()
}

/// Escape $variable into $$variable for evaluation by shellexpand.
pub fn escape_shell_variables(string: &str) -> (r: String)
    ensures
        r@ == spec_escape_shell_variables(string@),
{
    let v = chars_of(string);
    let mut result = String::new();
    // Did we just see '$' ? If so, we might need to escape it.
    let mut potential_variable = false;
    let mut i: usize = 0;
    while i < v.len()
        invariant
            v@ == string@,
            i <= v@.len(),
            (result@, potential_variable) == escape_state(v@.take(i as int)),
        decreases v.len() - i,
    {
        let c = v[i];
        proof {
            assert(v@.take(i + 1).drop_last() =~= v@.take(i as int));
        }
        if potential_variable {
            if char_is_alphanumeric(c) || c == '_' {
                push_char(&mut result, '$');  // Escape $variable -> $$variable.
                push_char(&mut result, c);
                proof {
                    let prev = escape_state(v@.take(i as int)).0;
                    assert(prev.push('$').push(c) =~= prev + seq!['$', c]);
                }
            } else if c == '$' {
                push_char(&mut result, '$');  // Escape $$ -> $
            } else {
                push_char(&mut result, c);
            }
            potential_variable = false;
        } else {
            // Push the value into the stream.
            push_char(&mut result, c);
            // If the current value is '$' then the next loop may need to escape it.
            potential_variable = c == '$';
        }
        i = i + 1;
    }
    proof {
        assert(v@.take(v@.len() as int) =~= v@);
    }
    result
}

/// Return the value of a boolean as a string.
pub fn bool_to_string(value: bool) -> (r: String)
    ensures
        r@ == spec_bool_to_string(value),
{
    let chars = if value {
        vec!['t', 'r', 'u', 'e']
    } else {
        vec!['f', 'a', 'l', 's', 'e']
    };
    let r = string_from_chars(&chars);
    assert(r@ =~= spec_bool_to_string(value));
    r
}

/// Return the value of a string as a boolean. Accepts "true", "false", "1" and "0".
pub fn string_to_bool(value: &str) -> (r: Option<bool>)
    ensures
        r == spec_string_to_bool(value@),
{
    let v = chars_of(value);
    let t = vec!['t', 'r', 'u', 'e'];
    let f = vec!['f', 'a', 'l', 's', 'e'];
    let one = vec!['1'];
    let zero = vec!['0'];
    assert(t@ =~= seq!['t', 'r', 'u', 'e']);
    assert(f@ =~= seq!['f', 'a', 'l', 's', 'e']);
    assert(one@ =~= seq!['1']);
    assert(zero@ =~= seq!['0']);
    if chars_eq(&v, &t) || chars_eq(&v, &one) {
        Some(true)
    } else if chars_eq(&v, &f) || chars_eq(&v, &zero) {
        Some(false)
    } else {
        None
    }
}

/// The index of the first newline of a string, if any.
pub open spec fn first_newline(s: Seq<char>) -> Option<int> {
    if s.contains('\n') {
        Some(choose|i: int| 0 <= i < s.len() && s[i] == '\n' && forall|j: int| 0 <= j < i ==> s[j] != '\n')
    } else {
        None
    }
}

/// A command that starts with a "#!" line: the interpreter named on that line and
/// the rest of the command after it.
pub open spec fn spec_split_shebang(s: Seq<char>) -> Option<(Seq<char>, Seq<char>)> {
    if s.len() >= 2 && s[0] == '#' && s[1] == '!' {
        match first_newline(s) {
            Some(i) => Some((s.subrange(2, i), s.subrange(i + 1, s.len() as int))),
            None => None,
        }
    } else {
        None
    }
}

/// Split a "#!<interpreter>" first line from the rest of a command.
pub fn split_shebang(string: &str) -> (r: Option<(&str, &str)>)
    ensures
        match r {
            Some((shell, body)) => spec_split_shebang(string@) == Some((shell@, body@)),
            None => spec_split_shebang(string@) is None,
        },
{
    let n = string.unicode_len();
    if n < 2 || string.get_char(0) != '#' || string.get_char(1) != '!' {
        return None;
    }
    let mut i: usize = 2;
    while i < n
        invariant
            n == string@.len(),
            2 <= i <= n,
            string@[0] == '#' && string@[1] == '!',
            forall|j: int| 0 <= j < i ==> string@[j] != '\n',
        decreases n - i,
    {
        if string.get_char(i) == '\n' {
            proof {
                let s = string@;
                assert(s[i as int] == '\n');
                assert(s.contains('\n'));
                assert(0 <= i < s.len() && s[i as int] == '\n' && forall|j: int| 0 <= j < i ==> s[j] != '\n');
                let k = choose|k: int| 0 <= k < s.len() && s[k] == '\n' && forall|j: int| 0 <= j < k ==> s[j] != '\n';
                assert(0 <= k < s.len() && s[k] == '\n' && forall|j: int| 0 <= j < k ==> s[j] != '\n');
                if k < i {
                    assert(s[k] != '\n');
                } else if i < k {
                    assert(s[i as int] != '\n');
                }
                assert(k == i);
                assert(first_newline(s) == Some(i as int));
            }
            let shell = string.substring_char(2, i);
            let body = string.substring_char(i + 1, n);
            assert(string@.len() >= 2 && string@[0] == '#' && string@[1] == '!');
            assert(spec_split_shebang(string@) == Some((shell@, body@)));
            return Some((shell, body));
        }
        i = i + 1;
    }
    proof {
        if string@.contains('\n') {
            let k = choose|k: int| 0 <= k < string@.len() && string@[k] == '\n';
            assert(string@[k] != '\n');
        }
    }
    None
}

/// Add a pre-command suffix to a command name.
pub fn pre_command(name: &str) -> (r: String)
    ensures
        r@ == name@.push('<'),
{
    let mut r = owned(name);
    push_char(&mut r, '<');
    r
}

/// Add a post-command suffix to a command name.
pub fn post_command(name: &str) -> (r: String)
    ensures
        r@ == name@.push('>'),
{
    let mut r = owned(name);
    push_char(&mut r, '>');
    r
}


/// Splitting a string at a separator it contains gives the text before the first
/// occurrence and the text after it, which rejoin to the string; a string without the
/// separator stays whole.
pub proof fn law_split_string_rejoins(s: Seq<char>, sep: Seq<char>)
    ensures
        spec_split_string(s, sep).0 ==> spec_split_string(s, sep).1 + sep + spec_split_string(s, sep).2
            == s,
        spec_split_string(s, sep).0 ==> forall|j: int|
            0 <= j < spec_split_string(s, sep).1.len() ==> !occurs_at(s, sep, j),
        !spec_split_string(s, sep).0 ==> spec_split_string(s, sep).1 == s && spec_split_string(
            s,
            sep,
        ).2.len() == 0,
{
    if seq_contains(s, sep) {
        let k = choose|i: int| occurs_at(s, sep, i);
        lemma_first_occurrence(s, sep, k);
        let i = choose|i: int| is_first_occurrence(s, sep, i);
        assert(s.subrange(0, i) + sep + s.subrange(i + sep.len(), s.len() as int) =~= s);
    }
}

/// Booleans survive a round trip through their string form.
pub proof fn law_bool_string_round_trip(b: bool)
    ensures
        spec_string_to_bool(spec_bool_to_string(b)) == Some(b),
{
    assert(seq!['t', 'r', 'u', 'e'] != seq!['f', 'a', 'l', 's', 'e']);
    assert(seq!['t', 'r', 'u', 'e'] != seq!['1']);
    assert(seq!['f', 'a', 'l', 's', 'e'] != seq!['1']);
}

/// A graft expression "graft::rest" has a graft name and a remainder, and the
/// remainder is shorter, so following grafts always ends.
pub proof fn law_graft_expression_parts(s: Seq<char>)
    ensures
        spec_split_string(s, graft_separator()).0 ==> spec_graft_basename(s) is Some
            && spec_trim_graft(s) is Some && spec_trim_graft(s)->0.len() < s.len(),
        !spec_split_string(s, graft_separator()).0 ==> spec_graft_basename(s) is None
            && spec_trim_graft(s) is None,
{
    if spec_split_string(s, graft_separator()).0 {
        lemma_split_after_shorter(s, graft_separator());
    }
}

} // verus!

//! Model objects: variables, trees, groups, gardens, grafts and configurations.
use vstd::prelude::*;

use crate::collections::{
    entries_append, entry_map_values, lemma_entries_append_step, lemma_entry_insert_map, set_append,
    OrderedMap, StringSet,
};
use crate::constants;
use crate::errors::GardenError;
use crate::path::{is_absolute, path_parent, path_push, spec_is_absolute, spec_path_parent, spec_path_push};
use crate::syntax;
use crate::text::{chars_of, concat, find, owned, push_char, str_eq, string_from_range};

verus! {

/// TreeName keys into config.trees
pub type TreeName = String;

/// GroupName keys into config.groups
pub type GroupName = String;

/// GardenName keys into config.gardens
pub type GardenName = String;

/// GraftName keys into config.grafts
pub type GraftName = String;

/// Configuration IDs index the configurations held by an `ApplicationContext`.
pub type ConfigId = usize;

/// Environment variables are set when running commands.
pub type Environment = Vec<(String, String)>;

/// Config files can define a sequence of variables that are
/// iteratively calculated.  Variables can reference other
/// variables in their Tree, Garden, and Configuration scopes.
///
/// The config values can contain either plain values,
/// string ${expressions} that resolve against other Variables,
/// or exec expressions that evaluate to a command whose stdout is
/// captured and placed into the value of the variable.
///
/// An exec expression is denoted by using a "$ " (dollar-sign followed by
/// space) before the value.  For example, using "$ echo foo" will place the
/// value "foo" in the variable.
pub struct Variable {
    expr: String,
    value: Option<String>,
    evaluating: bool,
}

impl Variable {
    /// The raw expression.
    pub closed spec fn expr_of(&self) -> Seq<char> {
        self.expr@
    }

    /// The cached value of evaluating the expression.
    pub closed spec fn value_of(&self) -> Option<Seq<char>> {
        match self.value {
            Some(v) => Some(v@),
            None => None,
        }
    }

    /// The evaluation guard flag.
    pub closed spec fn evaluating_of(&self) -> bool {
        self.evaluating
    }

    /// The copy made by `clone`: same expression and value, not being evaluated.
    pub closed spec fn copied(self) -> Variable {
        Variable { evaluating: false, ..self }
    }

    /// Facts about `copied`.
    pub proof fn lemma_copied(self)
        ensures
            self.copied().expr_of() == self.expr_of(),
            self.copied().value_of() == self.value_of(),
            !self.copied().evaluating_of(),
    {
    }

    pub fn new(expr: String, value: Option<String>) -> (v: Self)
        ensures
            v.expr_of() == expr@,
            v.value_of() == (match value {
                Some(s) => Some(s@),
                None => None::<Seq<char>>,
            }),
            !v.evaluating_of(),
    {
        Variable { expr, value, evaluating: false }
    }

    /// Does this variable have an empty expression?
    pub fn is_empty(&self) -> (b: bool)
        ensures
            b == (self.expr_of().len() == 0),
    {
        self.expr.as_str().is_empty()
    }

    /// Is this variable currently being evaluated?
    /// This is a guard variable to avoid infinite loops when evaluating.
    pub fn is_evaluating(&self) -> (b: bool)
        ensures
            b == self.evaluating_of(),
    {
        self.evaluating
    }

    /// Set the evaluation state.
    pub fn set_evaluating(&mut self, value: bool)
        ensures
            final(self).evaluating_of() == value,
            final(self).expr_of() == old(self).expr_of(),
            final(self).value_of() == old(self).value_of(),
    {
        self.evaluating = value;
    }

    /// Return the raw expression for this variable.
    pub fn get_expr(&self) -> (r: &String)
        ensures
            r@ == self.expr_of(),
    {
        &self.expr
    }

    /// Return a mutable reference to the underlying raw expression.
    pub fn get_expr_mut(&mut self) -> (r: &mut String)
        ensures
            r@ == old(self).expr_of(),
            final(self).expr_of() == final(r)@,
            final(self).value_of() == old(self).value_of(),
            final(self).evaluating_of() == old(self).evaluating_of(),
    {
        &mut self.expr
    }

    /// Set the expression for this variable.
    pub fn set_expr(&mut self, expr: String)
        ensures
            final(self).expr_of() == expr@,
            final(self).value_of() == old(self).value_of(),
            final(self).evaluating_of() == old(self).evaluating_of(),
    {
        self.expr = expr;
    }

    /// Store the cached result of evaluating the expression.
    pub fn set_value(&mut self, value: String)
        ensures
            final(self).value_of() == Some(value@),
            final(self).expr_of() == old(self).expr_of(),
            final(self).evaluating_of() == old(self).evaluating_of(),
    {
        self.value = Some(value);
    }

    /// Return the cached value, if the variable has been evaluated.
    pub fn get_value(&self) -> (r: Option<&String>)
        ensures
            r matches Some(s) ==> self.value_of() == Some(s@),
            r is None ==> self.value_of() is None,
    {
        match &self.value {
            Some(v) => Some(v),
            None => None,
        }
    }

    /// Forget the cached value.
    pub fn reset(&mut self)
        ensures
            final(self).value_of() is None,
            final(self).expr_of() == old(self).expr_of(),
            final(self).evaluating_of() == old(self).evaluating_of(),
    {
        self.value = None;
    }
}

impl Clone for Variable {
    /// A copy that is not marked as being evaluated.
    fn clone(&self) -> (r: Self)
        ensures
            r == self.copied(),
    {
        let value = match &self.value {
            Some(v) => Some(v.clone()),
            None => None,
        };
        Variable { expr: self.expr.clone(), value, evaluating: false }
    }
}

/// The copies of a list of variables.
pub open spec fn copied_variables(vars: Seq<Variable>) -> Seq<Variable> {
    vars.map_values(|v: Variable| v.copied())
}

/// Copy every variable in a list.
pub fn clone_variables(vars: &Vec<Variable>) -> (r: Vec<Variable>)
    ensures
        r@ == copied_variables(vars@),
{
    let mut r: Vec<Variable> = Vec::new();
    let mut i: usize = 0;
    while i < vars.len()
        invariant
            i <= vars@.len(),
            r@ == copied_variables(vars@.take(i as int)),
        decreases vars.len() - i,
    {
        r.push(vars[i].clone());
        assert(copied_variables(vars@.take(i + 1)) =~= copied_variables(vars@.take(i as int)).push(
            vars@[i as int].copied(),
        ));
        i = i + 1;
    }
    assert(vars@.take(vars@.len() as int) =~= vars@);
    r
}

/// A map of named variable lists (e.g. "commands" and "gitconfig").
pub type MultiVariableMap = OrderedMap<Vec<Variable>>;

/// A map of named variables.
pub type VariableMap = OrderedMap<Variable>;

/// The copy of a variable, as a spec function.
pub open spec fn copy_var() -> spec_fn(Variable) -> Variable {
    |v: Variable| v.copied()
}

/// The copy of a variable list, as a spec function.
pub open spec fn copy_vars() -> spec_fn(Seq<Variable>) -> Seq<Variable> {
    |s: Seq<Variable>| copied_variables(s)
}

/// The view of a variable-list map with each list seen as a sequence.
pub open spec fn vec_entries(s: Seq<(Seq<char>, Vec<Variable>)>) -> Seq<(Seq<char>, Seq<Variable>)> {
    entry_map_values(s, |v: Vec<Variable>| v@)
}

/// Update a variable map "a" with copies of the values from "b".
pub fn append_variable_map(a: &mut VariableMap, b: &VariableMap)
    ensures
        final(a)@ == entries_append(old(a)@, b@, copy_var()),
{
    let mut i: usize = 0;
    while i < b.len()
        invariant
            i <= b@.len(),
            a@ == entries_append(old(a)@, b@.take(i as int), copy_var()),
        decreases b@.len() - i,
    {
        let key = b.key_at(i).clone();
        let value = b.value_at(i).clone();
        a.insert(key, value);
        proof {
            lemma_entries_append_step(old(a)@, b@, copy_var(), i as int);
        }
        i = i + 1;
    }
    assert(b@.take(b@.len() as int) =~= b@);
}

/// Update a map of variable lists "a" with copies of the values from "b".
pub fn append_multivariable_map(a: &mut MultiVariableMap, b: &MultiVariableMap)
    ensures
        vec_entries(final(a)@) == entries_append(vec_entries(old(a)@), vec_entries(b@), copy_vars()),
{
    let mut i: usize = 0;
    while i < b.len()
        invariant
            i <= b@.len(),
            vec_entries(a@) == entries_append(
                vec_entries(old(a)@),
                vec_entries(b@).take(i as int),
                copy_vars(),
            ),
        decreases b@.len() - i,
    {
        let key = b.key_at(i).clone();
        let value = clone_variables(b.value_at(i));
        let ghost before = a@;
        a.insert(key, value);
        proof {
            lemma_entry_insert_map(before, |v: Vec<Variable>| v@, key@, value);
            lemma_entries_append_step(vec_entries(old(a)@), vec_entries(b@), copy_vars(), i as int);
            assert(vec_entries(b@)[i as int] == (b@[i as int].0, b@[i as int].1@));
        }
        i = i + 1;
    }
    assert(vec_entries(b@).take(b@.len() as int) =~= vec_entries(b@));
}

/// Named variables with multiple values.
pub struct MultiVariable {
    name: String,
    variables: Vec<Variable>,
}

impl MultiVariable {
    /// The name of the multi-variable.
    pub closed spec fn name_of(&self) -> Seq<char> {
        self.name@
    }

    /// The variables held by the multi-variable.
    pub closed spec fn variables_of(&self) -> Seq<Variable> {
        self.variables@
    }

    pub fn new(name: String, variables: Vec<Variable>) -> (m: Self)
        ensures
            m.name_of() == name@,
            m.variables_of() == variables@,
    {
        MultiVariable { name, variables }
    }

    pub fn get(&self, idx: usize) -> (v: &Variable)
        requires
            idx < self.variables_of().len(),
        ensures
            *v == self.variables_of()[idx as int],
    {
        &self.variables[idx]
    }

    pub fn get_name(&self) -> (r: &String)
        ensures
            r@ == self.name_of(),
    {
        &self.name
    }

    pub fn len(&self) -> (n: usize)
        ensures
            n == self.variables_of().len(),
    {
        self.variables.len()
    }

    pub fn is_empty(&self) -> (b: bool)
        ensures
            b == (self.variables_of().len() == 0),
    {
        self.variables.len() == 0
    }

    /// Forget the cached values of every variable.
    pub fn reset(&mut self)
        ensures
            final(self).name_of() == old(self).name_of(),
            final(self).variables_of().len() == old(self).variables_of().len(),
            forall|i: int|
                0 <= i < final(self).variables_of().len() ==> {
                    &&& (#[trigger] final(self).variables_of()[i]).value_of() is None
                    &&& final(self).variables_of()[i].expr_of() == old(self).variables_of()[i].expr_of()
                    &&& final(self).variables_of()[i].evaluating_of() == old(
                        self,
                    ).variables_of()[i].evaluating_of()
                },
    {
        let mut i: usize = 0;
        while i < self.variables.len()
            invariant
                i <= self.variables@.len(),
                self.name@ == old(self).name@,
                self.variables@.len() == old(self).variables@.len(),
                forall|j: int|
                    0 <= j < self.variables@.len() ==> {
                        &&& (j < i ==> (#[trigger] self.variables@[j]).value_of() is None)
                        &&& (j >= i ==> self.variables@[j] == old(self).variables@[j])
                        &&& self.variables@[j].expr_of() == old(self).variables@[j].expr_of()
                        &&& self.variables@[j].evaluating_of() == old(self).variables@[j].evaluating_of()
                    },
            decreases self.variables.len() - i,
        {
            let mut var = self.variables[i].clone();
            var.reset();
            let evaluating = self.variables[i].is_evaluating();
            var.set_evaluating(evaluating);
            self.variables.set(i, var);
            i = i + 1;
        }
    }

    /// The variables, in order.
    pub fn iter(&self) -> (r: &Vec<Variable>)
        ensures
            r@ == self.variables_of(),
    {
        &self.variables
    }
}

/// `b` is the copy of `a` made by `clone`.
pub open spec fn multivariable_copied(a: MultiVariable, b: MultiVariable) -> bool {
    b.name_of() == a.name_of() && b.variables_of() == copied_variables(a.variables_of())
}

impl Clone for MultiVariable {
    fn clone(&self) -> (r: Self)
        ensures
            multivariable_copied(*self, r),
    {
        MultiVariable { name: self.name.clone(), variables: clone_variables(&self.variables) }
    }
}

/// Copy every multi-variable in a list.
pub fn clone_multivariables(vars: &Vec<MultiVariable>) -> (r: Vec<MultiVariable>)
    ensures
        r@.len() == vars@.len(),
        forall|i: int| 0 <= i < r@.len() ==> multivariable_copied(vars@[i], #[trigger] r@[i]),
{
    let mut r: Vec<MultiVariable> = Vec::new();
    let mut i: usize = 0;
    while i < vars.len()
        invariant
            i <= vars@.len(),
            r@.len() == i,
            forall|j: int| 0 <= j < i ==> multivariable_copied(vars@[j], #[trigger] r@[j]),
        decreases vars.len() - i,
    {
        r.push(vars[i].clone());
        i = i + 1;
    }
    r
}

/// Trees represent a single worktree.
pub struct Tree {
    pub commands: MultiVariableMap,
    pub environment: Vec<MultiVariable>,
    pub gitconfig: MultiVariableMap,
    pub remotes: VariableMap,
    pub symlink: Variable,
    pub templates: StringSet,
    pub variables: VariableMap,
    pub branch: Variable,
    pub branches: VariableMap,
    pub worktree: Variable,
    pub default_remote: String,
    pub clone_depth: i64,
    pub is_single_branch: bool,
    pub is_symlink: bool,
    pub is_bare_repository: bool,
    pub is_worktree: bool,
    pub description: String,
    pub links: Vec<Variable>,
    pub name: String,
    pub path: Variable,
}

/// The flags after `update_flags`: a symlink or worktree expression sets its flag, and
/// worktrees are never bare.
pub open spec fn flags_updated(
    symlink_empty: bool,
    worktree_empty: bool,
    is_symlink: bool,
    is_worktree: bool,
    is_bare: bool,
) -> (bool, bool, bool) {
    let s = is_symlink || !symlink_empty;
    let w = is_worktree || !worktree_empty;
    (s, w, is_bare && !w)
}

/// Every field but the name, path, variables, remotes and bare flag holds its
/// default: empty collections and expressions, the "origin" default remote, no
/// clone depth and no flags.
pub open spec fn tree_blank(t: Tree) -> bool {
    &&& t.commands@.len() == 0
    &&& t.environment@.len() == 0
    &&& t.gitconfig@.len() == 0
    &&& t.symlink.expr_of().len() == 0 && t.symlink.value_of() is None
    &&& t.templates@.len() == 0
    &&& t.branch.expr_of().len() == 0 && t.branch.value_of() is None
    &&& t.branches@.len() == 0
    &&& t.worktree.expr_of().len() == 0 && t.worktree.value_of() is None
    &&& t.default_remote@ == constants::ORIGIN@
    &&& t.clone_depth == 0
    &&& !t.is_single_branch && !t.is_symlink && !t.is_worktree
    &&& t.description@.len() == 0
    &&& t.links@.len() == 0
}

/// `t` is `old` after copying the contents of `other` into it (`clone_from_tree`).
pub open spec fn tree_merged(t: Tree, old: Tree, other: Tree) -> bool {
    let is_symlink = old.is_symlink || other.is_symlink;
    let is_worktree = old.is_worktree || other.is_worktree;
    let is_bare = old.is_bare_repository || other.is_bare_repository;
    let symlink = if other.symlink.expr_of().len() != 0 {
        other.symlink.copied()
    } else {
        old.symlink
    };
    let worktree = if other.worktree.expr_of().len() != 0 {
        other.worktree.copied()
    } else {
        old.worktree
    };
    let flags = flags_updated(
        symlink.expr_of().len() == 0,
        worktree.expr_of().len() == 0,
        is_symlink,
        is_worktree,
        is_bare,
    );
    &&& vec_entries(t.commands@) == entries_append(
        vec_entries(old.commands@),
        vec_entries(other.commands@),
        copy_vars(),
    )
    &&& vec_entries(t.gitconfig@) == entries_append(
        vec_entries(old.gitconfig@),
        vec_entries(other.gitconfig@),
        copy_vars(),
    )
    &&& t.variables@ == entries_append(old.variables@, other.variables@, copy_var())
    &&& t.remotes@ == entries_append(old.remotes@, other.remotes@, copy_var())
    &&& t.templates@ == set_append(old.templates@, other.templates@)
    &&& t.environment@.len() == old.environment@.len() + other.environment@.len()
    &&& forall|i: int|
        0 <= i < old.environment@.len() ==> #[trigger] t.environment@[i] == old.environment@[i]
    &&& forall|i: int|
        0 <= i < other.environment@.len() ==> multivariable_copied(
            other.environment@[i],
            #[trigger] t.environment@[old.environment@.len() + i],
        )
    &&& t.clone_depth == (if other.clone_depth > 0 {
        other.clone_depth
    } else {
        old.clone_depth
    })
    &&& t.is_single_branch == (old.is_single_branch || other.is_single_branch)
    &&& t.branch == (if other.branch.expr_of().len() != 0 {
        other.branch.copied()
    } else {
        old.branch
    })
    &&& t.symlink == symlink
    &&& t.worktree == worktree
    &&& (t.is_symlink, t.is_worktree, t.is_bare_repository) == flags
    &&& t.default_remote@ == other.default_remote@
    &&& t.description@ == other.description@
    &&& t.links@ == copied_variables(other.links@)
    &&& t.branches@ == old.branches@
    &&& t.name_of() == old.name_of()
    &&& t.path_of() == old.path_of()
}

impl Tree {
    /// The tree name.
    pub open spec fn name_of(&self) -> Seq<char> {
        self.name@
    }

    /// The tree path variable.
    pub open spec fn path_of(&self) -> Variable {
        self.path
    }

    /// A tree with empty fields and the "origin" default remote.
    pub fn default() -> (t: Tree)
        ensures
            tree_blank(t),
            t.remotes@.len() == 0,
            t.variables@.len() == 0,
            !t.is_bare_repository,
            t.name_of().len() == 0,
            t.path_of().expr_of().len() == 0 && t.path_of().value_of() is None,
    {
        Tree {
            commands: OrderedMap::new(),
            environment: Vec::new(),
            gitconfig: OrderedMap::new(),
            remotes: OrderedMap::new(),
            symlink: Variable::new(String::new(), None),
            templates: StringSet::new(),
            variables: OrderedMap::new(),
            branch: Variable::new(String::new(), None),
            branches: OrderedMap::new(),
            worktree: Variable::new(String::new(), None),
            default_remote: owned(constants::ORIGIN),
            clone_depth: 0,
            is_single_branch: false,
            is_symlink: false,
            is_bare_repository: false,
            is_worktree: false,
            description: String::new(),
            links: Vec::new(),
            name: String::new(),
            path: Variable::new(String::new(), None),
        }
    }

    pub fn get_name(&self) -> (r: &String)
        ensures
            r@ == self.name_of(),
    {
        &self.name
    }

    /// Set the tree name.
    pub fn set_name(&mut self, name: String)
        ensures
            *final(self) == (Tree { name: name, ..*old(self) }),
    {
        self.name = name;
    }

    pub fn get_path(&self) -> (r: &Variable)
        ensures
            *r == self.path_of(),
    {
        &self.path
    }

    /// Replace the path variable.
    pub fn set_path(&mut self, path: Variable)
        ensures
            final(self).path_of() == path,
            final(self).name_of() == old(self).name_of(),
    {
        self.path = path;
    }

    /// Does the tree have an evaluated path?
    pub fn path_is_valid(&self) -> (b: bool)
        ensures
            b == (self.path_of().value_of() is Some),
    {
        self.path.get_value().is_some()
    }

    /// The evaluated tree path, or an error when the path is unset.
    pub fn path_as_ref(&self) -> (r: Result<&String, GardenError>)
        ensures
            r matches Ok(p) ==> self.path_of().value_of() == Some(p@),
            r is Err ==> self.path_of().value_of() is None && r->Err_0 is ConfigurationError,
    {
        match self.path.get_value() {
            Some(value) => Ok(value),
            None => Err(
                GardenError::ConfigurationError(concat("unset tree path for ", self.name.as_str())),
            ),
        }
    }

    /// The evaluated symlink target, or an error when it is unset.
    pub fn symlink_as_ref(&self) -> (r: Result<&String, GardenError>)
        ensures
            r matches Ok(p) ==> self.symlink.value_of() == Some(p@),
            r is Err ==> self.symlink.value_of() is None && r->Err_0 is ConfigurationError,
    {
        match self.symlink.get_value() {
            Some(value) => Ok(value),
            None => Err(
                GardenError::ConfigurationError(concat("unset tree path for ", self.name.as_str())),
            ),
        }
    }

    /// Add the builtin TREE_NAME and TREE_PATH variables.
    pub fn add_builtin_variables(&mut self)
        ensures
            vars_view(final(self).variables@) == crate::collections::entry_insert(
                crate::collections::entry_insert(
                    vars_view(old(self).variables@),
                    constants::TREE_NAME@,
                    (old(self).name_of(), None::<Seq<char>>),
                ),
                constants::TREE_PATH@,
                (old(self).path_of().expr_of(), None::<Seq<char>>),
            ),
            *final(self) == (Tree { variables: final(self).variables, ..*old(self) }),
    {
        let ghost v0 = self.variables@;
        let name_var = Variable::new(self.name.clone(), None);
        self.variables.insert(owned(constants::TREE_NAME), name_var);
        let ghost v1 = self.variables@;
        let path_var = Variable::new(self.path.get_expr().clone(), None);
        self.variables.insert(owned(constants::TREE_PATH), path_var);
        proof {
            crate::collections::lemma_entry_insert_map(v0, |v: Variable| var_view(v), constants::TREE_NAME@, name_var);
            crate::collections::lemma_entry_insert_map(v1, |v: Variable| var_view(v), constants::TREE_PATH@, path_var);
        }
    }

    /// Update internal flags in response to newly read data.
    pub fn update_flags(&mut self)
        ensures
            (final(self).is_symlink, final(self).is_worktree, final(self).is_bare_repository)
                == flags_updated(
                old(self).symlink.expr_of().len() == 0,
                old(self).worktree.expr_of().len() == 0,
                old(self).is_symlink,
                old(self).is_worktree,
                old(self).is_bare_repository,
            ),
            final(self).symlink == old(self).symlink,
            final(self).worktree == old(self).worktree,
            final(self).commands@ == old(self).commands@,
            final(self).gitconfig@ == old(self).gitconfig@,
            final(self).variables@ == old(self).variables@,
            final(self).remotes@ == old(self).remotes@,
            final(self).templates@ == old(self).templates@,
            final(self).environment@ == old(self).environment@,
            final(self).clone_depth == old(self).clone_depth,
            final(self).is_single_branch == old(self).is_single_branch,
            final(self).branch == old(self).branch,
            final(self).branches@ == old(self).branches@,
            final(self).default_remote@ == old(self).default_remote@,
            final(self).description@ == old(self).description@,
            final(self).links@ == old(self).links@,
            final(self).name_of() == old(self).name_of(),
            final(self).path_of() == old(self).path_of(),
    {
        if !self.symlink.is_empty() {
            self.is_symlink = true;
        }
        if !self.worktree.is_empty() {
            self.is_worktree = true;
        }
        if self.is_worktree {
            self.is_bare_repository = false;
        }
    }

    /// The variable that configures the upstream of a local branch under
    /// "branches"; none for the empty branch name.
    pub fn upstream_branch_var(&self, branch: &str) -> (r: Option<&Variable>)
        ensures
            branch@.len() == 0 ==> r is None,
            branch@.len() > 0 ==> match r {
                Some(v) => crate::collections::entry_get(self.branches@, branch@) == Some(*v),
                None => crate::collections::entry_get(self.branches@, branch@) is None,
            },
    {
        if branch.unicode_len() == 0 {
            return None;
        }
        self.branches.get(branch)
    }

    /// The remote of an evaluated upstream branch ("<remote>/<branch>"): the text
    /// before its first "/", when the tree has a remote of that name.
    pub fn remote_for_upstream(&self, upstream: &str) -> (r: Option<String>)
        ensures
            opt_view(r) == ({
                let (found, remote, _rest) = syntax::spec_split_string(upstream@, seq!['/']);
                if found && crate::collections::entry_index(self.remotes@, remote) is Some {
                    Some(remote)
                } else {
                    None::<Seq<char>>
                }
            }),
    {
        let slash = crate::text::string_from_chars(&vec!['/']);
        proof {
            assert(slash@ =~= seq!['/']);
        }
        let (found, remote, _rest) = syntax::split_string(upstream, slash.as_str());
        if found && self.remotes.contains_key(remote) {
            Some(owned(remote))
        } else {
            None
        }
    }

    /// Copy the guts of another tree into the current tree.
    #[verifier::spinoff_prover]
    #[verifier::rlimit(50)]
    pub fn clone_from_tree(&mut self, tree: &Tree)
        ensures
            tree_merged(*final(self), *old(self), *tree),
    {
        append_multivariable_map(&mut self.commands, &tree.commands);
        append_multivariable_map(&mut self.gitconfig, &tree.gitconfig);
        append_variable_map(&mut self.variables, &tree.variables);
        append_variable_map(&mut self.remotes, &tree.remotes);
        self.templates.append(&tree.templates);

        // "environment" follow last-set-wins semantics.
        let mut environment = clone_multivariables(&tree.environment);
        let ghost env_before = self.environment@;
        self.environment.append(&mut environment);
        // The last value set is the one that wins.
        if tree.clone_depth > 0 {
            self.clone_depth = tree.clone_depth;
        }
        if tree.is_bare_repository {
            self.is_bare_repository = tree.is_bare_repository;
        }
        if tree.is_single_branch {
            self.is_single_branch = tree.is_single_branch;
        }
        if tree.is_worktree {
            self.is_worktree = tree.is_worktree;
        }
        if tree.is_symlink {
            self.is_symlink = tree.is_symlink;
        }
        if !tree.branch.is_empty() {
            self.branch = tree.branch.clone();
        }
        if !tree.symlink.is_empty() {
            self.symlink = tree.symlink.clone();
        }
        if !tree.worktree.is_empty() {
            self.worktree = tree.worktree.clone();
        }
        self.default_remote = tree.default_remote.clone();
        self.description = tree.description.clone();
        self.links = clone_variables(&tree.links);

        self.update_flags();
    }
}

/// A named group of tree name patterns.
pub struct Group {
    pub name: String,
    pub members: StringSet,
}

impl Group {
    /// An unnamed group without members.
    pub fn default() -> (g: Group)
        ensures
            g.name@.len() == 0,
            g.members@.len() == 0,
    {
        Group { name: String::new(), members: StringSet::new() }
    }

    pub fn get_name(&self) -> (r: &String)
        ensures
            r@ == self.name@,
    {
        &self.name
    }

    /// Return an owned copy of the name field.
    pub fn get_name_owned(&self) -> (r: String)
        ensures
            r@ == self.name@,
    {
        self.name.clone()
    }

    pub fn get_name_mut(&mut self) -> (r: &mut String)
        ensures
            *r == old(self).name,
            final(self).name == *final(r),
            final(self).members@ == old(self).members@,
    {
        &mut self.name
    }
}

/// Groups are stored in a GroupMap inside Configuration.
pub type GroupMap = OrderedMap<Group>;

/// Templates can be used to create trees.
/// They contain a (path-less) tree object which can be used for creating
/// materialized trees.
pub struct Template {
    pub tree: Tree,
    pub extend: StringSet,
    pub name: String,
}

impl Template {
    /// An unnamed template with an empty tree.
    pub fn default() -> (t: Template)
        ensures
            t.name@.len() == 0,
            t.extend@.len() == 0,
            tree_blank(t.tree),
            t.tree.remotes@.len() == 0,
            t.tree.variables@.len() == 0,
            !t.tree.is_bare_repository,
            t.tree.name_of().len() == 0,
    {
        Template { tree: Tree::default(), extend: StringSet::new(), name: String::new() }
    }

    pub fn get_name(&self) -> (r: &String)
        ensures
            r@ == self.name@,
    {
        &self.name
    }

    pub fn get_name_mut(&mut self) -> (r: &mut String)
        ensures
            *r == old(self).name,
            final(self).name == *final(r),
            final(self).tree == old(self).tree,
            final(self).extend@ == old(self).extend@,
    {
        &mut self.name
    }

    /// Apply this template onto the specified tree.
    pub fn apply(&self, tree: &mut Tree)
        ensures
            tree_merged(*final(tree), *old(tree), self.tree),
    {
        tree.clone_from_tree(&self.tree);
    }
}

/// Gardens aggregate trees.
pub struct Garden {
    pub commands: MultiVariableMap,
    pub environment: Vec<MultiVariable>,
    pub gitconfig: MultiVariableMap,
    pub groups: StringSet,
    pub trees: StringSet,
    pub variables: VariableMap,
    pub name: GardenName,
}

impl Garden {
    /// An unnamed, empty garden.
    pub fn default() -> (g: Garden)
        ensures
            g.commands@.len() == 0,
            g.environment@.len() == 0,
            g.gitconfig@.len() == 0,
            g.groups@.len() == 0,
            g.trees@.len() == 0,
            g.variables@.len() == 0,
            g.name@.len() == 0,
    {
        Garden {
            commands: OrderedMap::new(),
            environment: Vec::new(),
            gitconfig: OrderedMap::new(),
            groups: StringSet::new(),
            trees: StringSet::new(),
            variables: OrderedMap::new(),
            name: String::new(),
        }
    }

    pub fn get_name(&self) -> (r: &GardenName)
        ensures
            r@ == self.name@,
    {
        &self.name
    }

    pub fn get_name_mut(&mut self) -> (r: &mut String)
        ensures
            *r == old(self).name,
            final(self).name == *final(r),
    {
        &mut self.name
    }
}

/// Gardens are stored in a GardenMap inside Configuration.
pub type GardenMap = OrderedMap<Garden>;

/// A graft attaches another garden file under a namespace.
pub struct Graft {
    pub id: Option<ConfigId>,
    pub name: String,
    pub root: String,
    pub config: String,
}

impl Graft {
    pub fn new(name: String, root: String, config: String) -> (g: Self)
        ensures
            g.id is None,
            g.name@ == name@,
            g.root@ == root@,
            g.config@ == config@,
    {
        Graft { id: None, name, root, config }
    }

    pub fn get_name(&self) -> (r: &String)
        ensures
            r@ == self.name@,
    {
        &self.name
    }

    pub fn get_id(&self) -> (r: Option<ConfigId>)
        ensures
            r == self.id,
    {
        self.id
    }

    pub fn set_id(&mut self, id: ConfigId)
        ensures
            final(self).id == Some(id),
            final(self).name@ == old(self).name@,
            final(self).root@ == old(self).root@,
            final(self).config@ == old(self).config@,
    {
        self.id = Some(id);
    }
}

/// The tree, configuration, garden and group that an operation applies to.
pub struct TreeContext {
    pub tree: TreeName,
    pub config: Option<ConfigId>,
    pub garden: Option<GardenName>,
    pub group: Option<String>,
}

/// The view of an optional string.
pub open spec fn opt_view(s: Option<String>) -> Option<Seq<char>> {
    match s {
        Some(v) => Some(v@),
        None => None,
    }
}

/// The plain-value view of a tree context.
pub open spec fn context_view(c: TreeContext) -> (Seq<char>, Option<ConfigId>, Option<Seq<char>>, Option<Seq<char>>) {
    (c.tree@, c.config, opt_view(c.garden), opt_view(c.group))
}

/// Copy an optional string.
pub fn clone_opt(s: &Option<String>) -> (r: Option<String>)
    ensures
        opt_view(r) == opt_view(*s),
{
    match s {
        Some(v) => Some(v.clone()),
        None => None,
    }
}

impl TreeContext {
    /// Construct a new TreeContext.
    pub fn new(
        tree: &str,
        config: Option<ConfigId>,
        garden: Option<GardenName>,
        group: Option<String>,
    ) -> (c: Self)
        ensures
            c.tree@ == tree@,
            c.config == config,
            opt_view(c.garden) == opt_view(garden),
            opt_view(c.group) == opt_view(group),
    {
        TreeContext { tree: owned(tree), config, garden, group }
    }
}

impl Clone for TreeContext {
    fn clone(&self) -> (r: Self)
        ensures
            context_view(r) == context_view(*self),
    {
        TreeContext {
            tree: self.tree.clone(),
            config: self.config,
            garden: clone_opt(&self.garden),
            group: clone_opt(&self.group),
        }
    }
}

/// Represent the different types of Git worktree.
pub enum GitTreeType {
    /// A worktree with child worktrees attached to it.
    Parent,
    /// A child worktree created with "git worktree"; holds the parent worktree path.
    Worktree(String),
    /// A regular Git clone / worktree created with "git clone/init".
    Tree,
    /// A bare repository.
    Bare,
}

/// Represent "git worktree list" details queried from Git.
pub struct GitTreeDetails {
    pub branch: String,
    pub tree_type: GitTreeType,
}

/// When to use ANSI colors.
#[derive(PartialEq, Eq, Structural)]
pub enum ColorMode {
    /// Enable color when a tty is detected
    Auto,
    /// Enable color
    On,
    /// Disable color
    Off,
}

/// The spellings accepted for each color mode (compared case-insensitively).
pub open spec fn color_mode_names(mode: ColorMode) -> Seq<Seq<char>> {
    match mode {
        ColorMode::Auto => seq![seq!['a', 'u', 't', 'o']],
        ColorMode::On => seq![
            seq!['1'],
            seq!['o', 'n'],
            seq!['t', 'r', 'u', 'e'],
            seq!['a', 'l', 'w', 'a', 'y', 's'],
            seq!['y'],
            seq!['y', 'e', 's'],
        ],
        ColorMode::Off => seq![
            seq!['0'],
            seq!['o', 'f', 'f'],
            seq!['f', 'a', 'l', 's', 'e'],
            seq!['n', 'e', 'v', 'e', 'r'],
            seq!['n'],
            seq!['n', 'o'],
        ],
    }
}

/// ASCII lower-casing of a character.
pub open spec fn ascii_lower(c: char) -> char {
    if 'A' <= c <= 'Z' {
        ((c as u32) + 32) as char
    } else {
        c
    }
}

/// ASCII lower-casing of a string.
pub open spec fn ascii_lower_seq(s: Seq<char>) -> Seq<char> {
    s.map_values(|c: char| ascii_lower(c))
}

/// `s` spells one of the names of `mode`, ignoring ASCII case.
pub open spec fn names_color_mode(s: Seq<char>, mode: ColorMode) -> bool {
    color_mode_names(mode).contains(ascii_lower_seq(s))
}

/// The message given for a string that names no color mode.
pub open spec fn color_mode_choices() -> Seq<char> {
    "choices are [\"auto\", \"always\", \"never\"]"@
}

/// What parsing a color mode gives: the first mode that the string names, ignoring
/// ASCII case, or the list of choices.
pub open spec fn spec_parse_color_mode(s: Seq<char>) -> Result<ColorMode, Seq<char>> {
    if names_color_mode(s, ColorMode::Auto) {
        Ok(ColorMode::Auto)
    } else if names_color_mode(s, ColorMode::On) {
        Ok(ColorMode::On)
    } else if names_color_mode(s, ColorMode::Off) {
        Ok(ColorMode::Off)
    } else {
        Err(color_mode_choices())
    }
}

/// A parse result as a plain value.
pub open spec fn color_result_view(r: Result<ColorMode, String>) -> Result<ColorMode, Seq<char>> {
    match r {
        Ok(m) => Ok(m),
        Err(e) => Err(e@),
    }
}

/// ASCII upper-casing of a character.
pub open spec fn ascii_upper(c: char) -> char {
    if 'a' <= c <= 'z' {
        ((c as u32) - 32) as char
    } else {
        c
    }
}

/// ASCII upper-casing of a string.
pub open spec fn ascii_upper_seq(s: Seq<char>) -> Seq<char> {
    s.map_values(|c: char| ascii_upper(c))
}

/// The name used when displaying a color mode.
pub open spec fn spec_color_mode_display(mode: ColorMode) -> Seq<char> {
    match mode {
        ColorMode::Auto => seq!['a', 'u', 't', 'o'],
        ColorMode::On => seq!['a', 'l', 'w', 'a', 'y', 's'],
        ColorMode::Off => seq!['n', 'e', 'v', 'e', 'r'],
    }
}

/// Lower-case the ASCII letters of a string.
fn to_ascii_lower(s: &str) -> (r: Vec<char>)
    ensures
        r@ == ascii_lower_seq(s@),
{
    let v = crate::text::chars_of(s);
    let mut r: Vec<char> = Vec::new();
    let mut i: usize = 0;
    while i < v.len()
        invariant
            v@ == s@,
            i <= v@.len(),
            r@ == ascii_lower_seq(v@.take(i as int)),
        decreases v.len() - i,
    {
        let c = v[i];
        let lc = if 'A' <= c && c <= 'Z' {
            let code = (c as u32) + 32;
            assert(0x61 <= code <= 0x7a);
            char_from_ascii(code)
        } else {
            c
        };
        r.push(lc);
        assert(ascii_lower_seq(v@.take(i + 1)) =~= ascii_lower_seq(v@.take(i as int)).push(
            ascii_lower(c),
        ));
        i = i + 1;
    }
    assert(v@.take(v@.len() as int) =~= v@);
    r
}

/// The character with an ASCII code.
fn char_from_ascii(code: u32) -> (c: char)
    requires
        code < 0x80,
    ensures
        c == code as char,
{
    let byte = code as u8;
    byte as char
}

/// The character vector of a sequence of spellings, for comparison.
fn matches_any(s: &Vec<char>, names: &Vec<Vec<char>>) -> (b: bool)
    ensures
        b == names@.map_values(|v: Vec<char>| v@).contains(s@),
{
    let ghost views = names@.map_values(|v: Vec<char>| v@);
    let mut i: usize = 0;
    while i < names.len()
        invariant
            i <= names@.len(),
            views == names@.map_values(|v: Vec<char>| v@),
            forall|j: int| 0 <= j < i ==> views[j] != s@,
        decreases names.len() - i,
    {
        if crate::text::chars_eq(s, &names[i]) {
            assert(views[i as int] == s@);
            return true;
        }
        i = i + 1;
    }
    false
}

impl ColorMode {
    /// Whether colors are used: "auto" uses them when standard output is a terminal.
    pub fn is_enabled(&self, stdout_is_terminal: bool) -> (b: bool)
        ensures
            b == match *self {
                ColorMode::Auto => stdout_is_terminal,
                ColorMode::On => true,
                ColorMode::Off => false,
            },
    {
        match self {
            ColorMode::Auto => stdout_is_terminal,
            ColorMode::On => true,
            ColorMode::Off => false,
        }
    }

    /// Settle "auto" once, by whether standard output is a terminal; "on" and "off"
    /// stay.
    pub fn update(&mut self, stdout_is_terminal: bool)
        ensures
            *final(self) == match *old(self) {
                ColorMode::Auto => if stdout_is_terminal {
                    ColorMode::On
                } else {
                    ColorMode::Off
                },
                ColorMode::On => ColorMode::On,
                ColorMode::Off => ColorMode::Off,
            },
    {
        if self.is_enabled(stdout_is_terminal) {
            *self = ColorMode::On;
        } else {
            *self = ColorMode::Off;
        }
    }

    /// Parse a color mode, ignoring ASCII case.
    pub fn parse_from_str(string: &str) -> (r: Result<ColorMode, String>)
        ensures
            color_result_view(r) == spec_parse_color_mode(string@),
    {
        let lower = to_ascii_lower(string);
        let auto = vec![vec!['a', 'u', 't', 'o']];
        let on = vec![
            vec!['1'],
            vec!['o', 'n'],
            vec!['t', 'r', 'u', 'e'],
            vec!['a', 'l', 'w', 'a', 'y', 's'],
            vec!['y'],
            vec!['y', 'e', 's'],
        ];
        let off = vec![
            vec!['0'],
            vec!['o', 'f', 'f'],
            vec!['f', 'a', 'l', 's', 'e'],
            vec!['n', 'e', 'v', 'e', 'r'],
            vec!['n'],
            vec!['n', 'o'],
        ];
        assert(auto[0]@ =~= seq!['a', 'u', 't', 'o']);
        assert(on[0]@ =~= seq!['1']);
        assert(on[1]@ =~= seq!['o', 'n']);
        assert(on[2]@ =~= seq!['t', 'r', 'u', 'e']);
        assert(on[3]@ =~= seq!['a', 'l', 'w', 'a', 'y', 's']);
        assert(on[4]@ =~= seq!['y']);
        assert(on[5]@ =~= seq!['y', 'e', 's']);
        assert(off[0]@ =~= seq!['0']);
        assert(off[1]@ =~= seq!['o', 'f', 'f']);
        assert(off[2]@ =~= seq!['f', 'a', 'l', 's', 'e']);
        assert(off[3]@ =~= seq!['n', 'e', 'v', 'e', 'r']);
        assert(off[4]@ =~= seq!['n']);
        assert(off[5]@ =~= seq!['n', 'o']);
        assert(auto@.map_values(|v: Vec<char>| v@) =~= color_mode_names(ColorMode::Auto));
        assert(on@.map_values(|v: Vec<char>| v@) =~= color_mode_names(ColorMode::On));
        assert(off@.map_values(|v: Vec<char>| v@) =~= color_mode_names(ColorMode::Off));
        if matches_any(&lower, &auto) {
            Ok(ColorMode::Auto)
        } else if matches_any(&lower, &on) {
            Ok(ColorMode::On)
        } else if matches_any(&lower, &off) {
            Ok(ColorMode::Off)
        } else {
            let msg = owned("choices are [\"auto\", \"always\", \"never\"]");
            Err(msg)
        }
    }

    /// The name used when displaying the color mode.
    pub fn to_string(&self) -> (r: String)
        ensures
            r@ == spec_color_mode_display(*self),
    {
        let chars = match self {
            ColorMode::Auto => vec!['a', 'u', 't', 'o'],
            ColorMode::On => vec!['a', 'l', 'w', 'a', 'y', 's'],
            ColorMode::Off => vec!['n', 'e', 'v', 'e', 'r'],
        };
        let r = crate::text::string_from_chars(&chars);
        assert(r@ =~= spec_color_mode_display(*self));
        r
    }
}

/// The plain view of a variable: its expression and cached value.
pub open spec fn var_view(v: Variable) -> (Seq<char>, Option<Seq<char>>) {
    (v.expr_of(), v.value_of())
}

/// The plain view of the entries of a variable map.
pub open spec fn vars_view(s: Seq<(Seq<char>, Variable)>) -> Seq<(Seq<char>, (Seq<char>, Option<Seq<char>>))> {
    entry_map_values(s, |v: Variable| var_view(v))
}

/// Return the default shell given which shells are available: zsh, then bash, then
/// dash, falling back to sh.
pub fn select_default_shell(has_zsh: bool, has_bash: bool, has_dash: bool) -> (shell: String)
    ensures
        shell@ == (if has_zsh {
            constants::SHELL_ZSH@
        } else if has_bash {
            constants::SHELL_BASH@
        } else if has_dash {
            constants::SHELL_DASH@
        } else {
            constants::SHELL_SH@
        }),
{
    if has_zsh {
        owned(constants::SHELL_ZSH)
    } else if has_bash {
        owned(constants::SHELL_BASH)
    } else if has_dash {
        owned(constants::SHELL_DASH)
    } else {
        owned(constants::SHELL_SH)
    }
}

/// `name=value` split at the first '='; without '=' the value is empty.
pub open spec fn spec_split_define(d: Seq<char>) -> (Seq<char>, Seq<char>) {
    if d.contains('=') {
        let i = choose|i: int| 0 <= i < d.len() && d[i] == '=' && forall|j: int| 0 <= j < i ==> d[j] != '=';
        (d.subrange(0, i), d.subrange(i + 1, d.len() as int))
    } else {
        (d, Seq::empty())
    }
}

/// The settings that "--define" can change.
pub struct DefineState {
    pub interactive_shell: Seq<char>,
    pub shell: Seq<char>,
    pub shell_exit_on_error: bool,
    pub shell_word_split: bool,
    pub tree_branches: bool,
    pub override_variables: Seq<(Seq<char>, (Seq<char>, Option<Seq<char>>))>,
}

/// Apply one "name=value" define, or fail when a boolean setting gets an invalid value.
pub open spec fn apply_define(st: DefineState, d: Seq<char>) -> Option<DefineState> {
    let (name, expr) = spec_split_define(d);
    if name == constants::GARDEN_INTERACTIVE_SHELL@ {
        Some(DefineState { interactive_shell: expr, ..st })
    } else if name == constants::GARDEN_SHELL@ {
        Some(DefineState { shell: expr, ..st })
    } else if name == constants::GARDEN_SHELL_ERREXIT@ {
        match syntax::spec_string_to_bool(expr) {
            Some(b) => Some(DefineState { shell_exit_on_error: b, ..st }),
            None => None,
        }
    } else if name == constants::GARDEN_SHELL_WORDSPLIT@ {
        match syntax::spec_string_to_bool(expr) {
            Some(b) => Some(DefineState { shell_word_split: b, ..st }),
            None => None,
        }
    } else if name == constants::GARDEN_TREE_BRANCHES@ {
        match syntax::spec_string_to_bool(expr) {
            Some(b) => Some(DefineState { tree_branches: b, ..st }),
            None => None,
        }
    } else {
        Some(
            DefineState {
                override_variables: crate::collections::entry_insert(
                    st.override_variables,
                    name,
                    (expr, None::<Seq<char>>),
                ),
                ..st
            },
        )
    }
}

/// Apply a list of defines in order; `None` when one of them is invalid.
pub open spec fn apply_defines_spec(st: DefineState, defs: Seq<Seq<char>>) -> Option<DefineState>
    decreases defs.len(),
{
    if defs.len() == 0 {
        Some(st)
    } else {
        match apply_defines_spec(st, defs.drop_last()) {
            Some(s2) => apply_define(s2, defs.last()),
            None => None,
        }
    }
}

/// Split "name=value" at the first '='.
pub fn split_define(d: &str) -> (r: (String, String))
    ensures
        (r.0@, r.1@) == spec_split_define(d@),
{
    let v = chars_of(d);
    let mut i: usize = 0;
    while i < v.len()
        invariant
            v@ == d@,
            i <= v@.len(),
            forall|j: int| 0 <= j < i ==> v@[j] != '=',
        decreases v.len() - i,
    {
        if v[i] == '=' {
            proof {
                let k = choose|k: int|
                    0 <= k < d@.len() && d@[k] == '=' && forall|j: int| 0 <= j < k ==> d@[j] != '=';
                if k < i {
                } else if i < k {
                }
            }
            return (string_from_range(&v, 0, i), string_from_range(&v, i + 1, v.len()));
        }
        i = i + 1;
    }
    proof {
        assert(v@.subrange(0, v@.len() as int) =~= v@);
    }
    (string_from_range(&v, 0, v.len()), String::new())
}

/// Configuration represents an instantiated garden configuration.
pub struct Configuration {
    pub commands: MultiVariableMap,
    pub debug: OrderedMap<u8>,
    pub environment: Vec<MultiVariable>,
    pub gardens: GardenMap,
    pub grafts: OrderedMap<Graft>,
    pub groups: GroupMap,
    pub path: Option<String>,
    pub dirname: Option<String>,
    pub root: Variable,
    pub root_is_dynamic: bool,
    pub root_path: String,
    pub shell: String,
    pub interactive_shell: String,
    pub templates: OrderedMap<Template>,
    pub tree_search_path: Vec<String>,
    pub trees: OrderedMap<Tree>,
    pub variables: VariableMap,
    /// Variables defined on the command-line using "-D name=value" have the
    /// highest precedence and override variables defined by any configuration or tree.
    pub override_variables: VariableMap,
    pub config_verbose: u8,
    pub quiet: bool,
    pub verbose: u8,
    pub shell_exit_on_error: bool,
    pub shell_word_split: bool,
    pub tree_branches: bool,
    pub parent_id: Option<ConfigId>,
    pub id: Option<ConfigId>,
}

/// The "-v" flags for a verbosity level: "" for zero, else "-" and that many "v".
pub open spec fn verbose_flags(n: nat) -> Seq<char> {
    if n == 0 {
        Seq::empty()
    } else {
        seq!['-'] + Seq::new(n, |i: int| 'v')
    }
}

/// The file that a relative include path names next to the including file: the
/// including file's parent directory joined with the path.
pub fn include_candidate(include_path: &str, path: &str) -> (r: Option<String>)
    ensures
        opt_view(r) == match spec_path_parent(include_path@) {
            Some(d) => Some(spec_path_push(d, path@)),
            None => None::<Seq<char>>,
        },
{
    match path_parent(include_path) {
        Some(dir) => Some(path_push(dir.as_str(), path)),
        None => None,
    }
}

/// Build the "-vvv" verbosity flags.
pub fn verbose_string(verbose: u8) -> (r: String)
    ensures
        r@ == verbose_flags(verbose as nat),
{
    let mut r = String::new();
    if verbose > 0 {
        push_char(&mut r, '-');
        let mut i: u8 = 0;
        while i < verbose
            invariant
                i <= verbose,
                r@ == seq!['-'] + Seq::new(i as nat, |k: int| 'v'),
            decreases verbose - i,
        {
            push_char(&mut r, 'v');
            i = i + 1;
            assert(r@ =~= seq!['-'] + Seq::new(i as nat, |k: int| 'v'));
        }
    }
    assert(verbose == 0 ==> r@ =~= verbose_flags(verbose as nat));
    r
}

impl Configuration {
    /// The define-controlled settings of a configuration.
    pub open spec fn define_state(&self) -> DefineState {
        DefineState {
            interactive_shell: self.interactive_shell@,
            shell: self.shell@,
            shell_exit_on_error: self.shell_exit_on_error,
            shell_word_split: self.shell_word_split,
            tree_branches: self.tree_branches,
            override_variables: vars_view(self.override_variables@),
        }
    }

    /// An empty configuration that runs commands with `shell`.
    pub fn new(shell: String) -> (c: Self)
        ensures
            c.id is None && c.parent_id is None,
            c.shell@ == shell@,
            c.shell_exit_on_error && c.shell_word_split && c.tree_branches,
            c.commands@.len() == 0 && c.environment@.len() == 0 && c.gardens@.len() == 0,
            c.grafts@.len() == 0 && c.groups@.len() == 0 && c.templates@.len() == 0,
            c.trees@.len() == 0 && c.variables@.len() == 0 && c.override_variables@.len() == 0,
            c.debug@.len() == 0,
            c.path is None && c.dirname is None,
            c.root.expr_of().len() == 0 && c.root.value_of() is None,
            !c.root_is_dynamic,
            c.root_path@.len() == 0,
            c.interactive_shell@.len() == 0,
            c.tree_search_path@.len() == 0,
            c.config_verbose == 0 && !c.quiet && c.verbose == 0,
    {
        Configuration {
            commands: OrderedMap::new(),
            debug: OrderedMap::new(),
            environment: Vec::new(),
            gardens: OrderedMap::new(),
            grafts: OrderedMap::new(),
            groups: OrderedMap::new(),
            path: None,
            dirname: None,
            root: Variable::new(String::new(), None),
            root_is_dynamic: false,
            root_path: String::new(),
            shell,
            interactive_shell: String::new(),
            templates: OrderedMap::new(),
            tree_search_path: Vec::new(),
            trees: OrderedMap::new(),
            variables: OrderedMap::new(),
            override_variables: OrderedMap::new(),
            config_verbose: 0,
            quiet: false,
            verbose: 0,
            shell_exit_on_error: true,
            shell_word_split: true,
            tree_branches: true,
            parent_id: None,
            id: None,
        }
    }

    /// Return Some(id) when the configuration is a graft and None otherwise.
    pub fn graft_id(&self) -> (r: Option<ConfigId>)
        ensures
            r == (if self.parent_id is Some {
                self.id
            } else {
                None
            }),
    {
        match self.parent_id {
            Some(_) => self.id,
            None => None,
        }
    }

    /// Apply "--define name=value" options. The garden.shell, garden.interactive-shell,
    /// garden.shell-errexit, garden.shell-wordsplit and garden.tree-branches names
    /// change settings; every other name overrides a variable. Fails with a message
    /// when a boolean setting is given a value other than true, false, 1 or 0.
    pub fn apply_defines(&mut self, defines: &Vec<String>) -> (r: Result<(), String>)
        ensures
            r is Ok <==> apply_defines_spec(
                old(self).define_state(),
                defines@.map_values(|d: String| d@),
            ) is Some,
            r is Ok ==> Some(final(self).define_state()) == apply_defines_spec(
                old(self).define_state(),
                defines@.map_values(|d: String| d@),
            ),
    {
        let ghost defs = defines@.map_values(|d: String| d@);
        let mut i: usize = 0;
        while i < defines.len()
            invariant
                i <= defines@.len(),
                defs == defines@.map_values(|d: String| d@),
                apply_defines_spec(old(self).define_state(), defs.take(i as int)) == Some(
                    self.define_state(),
                ),
            decreases defines.len() - i,
        {
            let ghost before = self.define_state();
            assert(defs.take(i + 1).drop_last() =~= defs.take(i as int));
            assert(defs.take(i + 1).last() == defines@[i as int]@);
            let (name, expr) = split_define(defines[i].as_str());
            if str_eq(name.as_str(), constants::GARDEN_INTERACTIVE_SHELL) {
                self.interactive_shell = expr;
            } else if str_eq(name.as_str(), constants::GARDEN_SHELL) {
                self.shell = expr;
            } else if str_eq(name.as_str(), constants::GARDEN_SHELL_ERREXIT) {
                match syntax::string_to_bool(expr.as_str()) {
                    Some(b) => self.shell_exit_on_error = b,
                    None => {
                        proof {
                            lemma_defines_fail_rest(old(self).define_state(), defs, i as int + 1);
                        }
                        return Err(invalid_bool_message(name.as_str(), expr.as_str()));
                    },
                }
            } else if str_eq(name.as_str(), constants::GARDEN_SHELL_WORDSPLIT) {
                match syntax::string_to_bool(expr.as_str()) {
                    Some(b) => self.shell_word_split = b,
                    None => {
                        proof {
                            lemma_defines_fail_rest(old(self).define_state(), defs, i as int + 1);
                        }
                        return Err(invalid_bool_message(name.as_str(), expr.as_str()));
                    },
                }
            } else if str_eq(name.as_str(), constants::GARDEN_TREE_BRANCHES) {
                match syntax::string_to_bool(expr.as_str()) {
                    Some(b) => self.tree_branches = b,
                    None => {
                        proof {
                            lemma_defines_fail_rest(old(self).define_state(), defs, i as int + 1);
                        }
                        return Err(invalid_bool_message(name.as_str(), expr.as_str()));
                    },
                }
            } else {
                let ghost ov = self.override_variables@;
                let var = Variable::new(expr, None);
                self.override_variables.insert(name, var);
                proof {
                    crate::collections::lemma_entry_insert_map(ov, |v: Variable| var_view(v), name@, var);
                }
            }
            assert(Some(self.define_state()) == apply_define(before, defs[i as int]));
            i = i + 1;
        }
        assert(defs.take(defines@.len() as int) =~= defs);
        Ok(())
    }

    /// Apply the quiet and verbose options to resolve GARDEN_CMD_VERBOSE and GARDEN_CMD_QUIET.
    pub fn update_quiet_and_verbose_variables(&mut self, quiet: bool, verbose: u8)
        requires
            old(self).verbose + verbose <= 255,
        ensures
            vars_view(final(self).variables@) == crate::collections::entry_insert(
                crate::collections::entry_insert(
                    vars_view(old(self).variables@),
                    constants::GARDEN_CMD_QUIET@,
                    (quiet_flag(old(self).quiet || quiet), Some(quiet_flag(old(self).quiet || quiet))),
                ),
                constants::GARDEN_CMD_VERBOSE@,
                (
                    verbose_flags((old(self).verbose + verbose) as nat),
                    Some(verbose_flags((old(self).verbose + verbose) as nat)),
                ),
            ),
            *final(self) == (Configuration { variables: final(self).variables, ..*old(self) }),
    {
        let quiet_string = if self.quiet || quiet {
            owned("--quiet")
        } else {
            String::new()
        };
        proof {
            reveal_strlit("--quiet");
        }
        assert(quiet_string@ =~= quiet_flag(old(self).quiet || quiet));
        let ghost v0 = self.variables@;
        let var = Variable::new(quiet_string.clone(), Some(quiet_string));
        self.variables.insert(owned(constants::GARDEN_CMD_QUIET), var);
        proof {
            crate::collections::lemma_entry_insert_map(v0, |v: Variable| var_view(v), constants::GARDEN_CMD_QUIET@, var);
        }
        let total = self.verbose + verbose;
        let verbose_str = verbose_string(total);
        let ghost v1 = self.variables@;
        let var = Variable::new(verbose_str.clone(), Some(verbose_str));
        self.variables.insert(owned(constants::GARDEN_CMD_VERBOSE), var);
        proof {
            crate::collections::lemma_entry_insert_map(v1, |v: Variable| var_view(v), constants::GARDEN_CMD_VERBOSE@, var);
        }
    }

    /// Return a path string relative to the garden root.
    pub fn tree_path(&self, path: &str) -> (r: String)
        ensures
            r@ == (if spec_is_absolute(path@) {
                path@
            } else {
                spec_path_push(self.root_path@, path@)
            }),
    {
        if is_absolute(path) {
            owned(path)
        } else {
            path_push(self.root_path.as_str(), path)
        }
    }

    /// Resolve a path relative to the config directory.
    pub fn config_pathbuf(&self, path: &str) -> (r: Option<String>)
        ensures
            opt_view(r) == (if spec_is_absolute(path@) {
                Some(path@)
            } else {
                match self.dirname {
                    Some(d) => Some(spec_path_push(d@, path@)),
                    None => None::<Seq<char>>,
                }
            }),
    {
        if is_absolute(path) {
            Some(owned(path))
        } else {
            match &self.dirname {
                Some(dirname) => Some(path_push(dirname.as_str(), path)),
                None => None,
            }
        }
    }

    /// Resolve a path string relative to the config directory, or the garden root
    /// when the configuration has no directory.
    pub fn config_path(&self, path: &str) -> (r: String)
        ensures
            r@ == (if spec_is_absolute(path@) {
                path@
            } else {
                match self.dirname {
                    Some(d) => spec_path_push(d@, path@),
                    None => spec_path_push(self.root_path@, path@),
                }
            }),
    {
        match self.config_pathbuf(path) {
            Some(path_buf) => path_buf,
            None => self.tree_path(path),
        }
    }

    /// Record the evaluated path expression of the tree at index `i`: its value is the
    /// path relative to the garden root (see `tree_path`).
    pub fn set_tree_path_value(&mut self, i: usize, value: &str)
        requires
            i < old(self).trees@.len(),
        ensures
            final(self).trees@.len() == old(self).trees@.len(),
            final(self).trees@[i as int].0 == old(self).trees@[i as int].0,
            final(self).trees@[i as int].1 == (Tree { path: final(self).trees@[i as int].1.path, ..old(self).trees@[i as int].1 }),
            final(self).trees@[i as int].1.path.expr_of() == old(self).trees@[i as int].1.path.expr_of(),
            final(self).trees@[i as int].1.path.value_of() == Some(
                if spec_is_absolute(value@) {
                    value@
                } else {
                    spec_path_push(old(self).root_path@, value@)
                },
            ),
            forall|j: int| 0 <= j < old(self).trees@.len() && j != i ==> final(self).trees@[j] == old(self).trees@[j],
            *final(self) == (Configuration { trees: final(self).trees, ..*old(self) }),
    {
        let resolved = self.tree_path(value);
        let tree = self.trees.value_at_mut(i);
        tree.path.set_value(resolved);
    }

    /// Record the evaluated symlink expression of the tree at index `i`: its value is
    /// the path relative to the garden root (see `tree_path`).
    pub fn set_tree_symlink_value(&mut self, i: usize, value: &str)
        requires
            i < old(self).trees@.len(),
        ensures
            final(self).trees@.len() == old(self).trees@.len(),
            final(self).trees@[i as int].0 == old(self).trees@[i as int].0,
            final(self).trees@[i as int].1 == (Tree { symlink: final(self).trees@[i as int].1.symlink, ..old(self).trees@[i as int].1 }),
            final(self).trees@[i as int].1.symlink.expr_of() == old(self).trees@[i as int].1.symlink.expr_of(),
            final(self).trees@[i as int].1.symlink.value_of() == Some(
                if spec_is_absolute(value@) {
                    value@
                } else {
                    spec_path_push(old(self).root_path@, value@)
                },
            ),
            forall|j: int| 0 <= j < old(self).trees@.len() && j != i ==> final(self).trees@[j] == old(self).trees@[j],
            *final(self) == (Configuration { trees: final(self).trees, ..*old(self) }),
    {
        let resolved = self.tree_path(value);
        let tree = self.trees.value_at_mut(i);
        tree.symlink.set_value(resolved);
    }

    /// A directory for running commands that should always exist: the garden root
    /// when it exists, else the configuration directory when it exists, else
    /// `current_dir`. The flags tell which exist.
    pub fn fallback_execdir(&self, root_exists: bool, dirname_exists: bool, current_dir: &str) -> (r: String)
        ensures
            r@ == (if root_exists {
                self.root_path@
            } else {
                match self.dirname {
                    Some(d) => if dirname_exists {
                        d@
                    } else {
                        current_dir@
                    },
                    None => current_dir@,
                }
            }),
    {
        if root_exists {
            return self.root_path.clone();
        }
        if let Some(dirname) = &self.dirname {
            if dirname_exists {
                return dirname.clone();
            }
        }
        owned(current_dir)
    }

    /// Resolve a path named in an included file: an absolute path is kept; a
    /// relative path is taken next to the including file when that candidate exists
    /// (`candidate` is the including file's parent, when it has one, joined with
    /// the path; `candidate_exists` tells whether it exists), and else relative to
    /// the configuration directory (see `config_pathbuf`).
    pub fn config_pathbuf_from_include(&self, candidate: Option<String>, candidate_exists: bool, path: &str) -> (r: Option<String>)
        ensures
            spec_is_absolute(path@) ==> opt_view(r) == Some(path@),
            !spec_is_absolute(path@) && candidate is Some && candidate_exists ==> opt_view(r) == opt_view(candidate),
            !spec_is_absolute(path@) && !(candidate is Some && candidate_exists) ==> opt_view(r) == match self.dirname {
                Some(d) => Some(spec_path_push(d@, path@)),
                None => None::<Seq<char>>,
            },
    {
        if is_absolute(path) {
            return Some(owned(path));
        }
        if let Some(c) = candidate {
            if candidate_exists {
                return Some(c);
            }
        }
        self.config_pathbuf(path)
    }

    /// Return the garden config directory, or `current_dir` when it is unset.
    pub fn dirname_string(&self, current_dir: &str) -> (r: String)
        ensures
            r@ == (match self.dirname {
                Some(d) => d@,
                None => current_dir@,
            }),
    {
        match &self.dirname {
            Some(dirname) => dirname.clone(),
            None => owned(current_dir),
        }
    }

    /// Set the ConfigId for this configuration.
    pub fn set_id(&mut self, id: ConfigId)
        ensures
            *final(self) == (Configuration { id: Some(id), ..*old(self) }),
    {
        self.id = Some(id);
    }

    pub fn get_id(&self) -> (r: Option<ConfigId>)
        ensures
            r == self.id,
    {
        self.id
    }

    /// Set the parent ConfigId for this configuration.
    pub fn set_parent(&mut self, id: ConfigId)
        ensures
            final(self).parent_id == Some(id),
            final(self).id == old(self).id,
            final(self).grafts@ == old(self).grafts@,
    {
        self.parent_id = Some(id);
    }

    /// Set the config path and its directory (the path without its final component,
    /// or the path itself when it has no parent).
    pub fn set_path(&mut self, path: &str)
        ensures
            opt_view(final(self).path) == Some(path@),
            opt_view(final(self).dirname) == Some(
                match spec_path_parent(path@) {
                    Some(p) => p,
                    None => path@,
                },
            ),
            final(self).id == old(self).id,
            final(self).parent_id == old(self).parent_id,
            final(self).grafts@ == old(self).grafts@,
    {
        let dirname = match path_parent(path) {
            Some(parent) => parent,
            None => owned(path),
        };
        self.dirname = Some(dirname);
        self.path = Some(owned(path));
    }

    /// Get the config path if it is defined.
    pub fn get_path(&self) -> (r: Result<&String, GardenError>)
        ensures
            r matches Ok(p) ==> opt_view(self.path) == Some(p@),
            r is Err ==> self.path is None && r->Err_0 is AssertionError,
    {
        match &self.path {
            Some(p) => Ok(p),
            None => Err(GardenError::AssertionError(owned("Configuration path is unset"))),
        }
    }

    /// Get a path string for this configuration: "." when it has no path.
    pub fn get_path_for_display(&self) -> (r: String)
        ensures
            r@ == (match self.path {
                Some(p) => p@,
                None => constants::DOT@,
            }),
    {
        match &self.path {
            Some(p) => p.clone(),
            None => owned(constants::DOT),
        }
    }

    /// Return true if the configuration contains the named graft.
    pub fn contains_graft(&self, name: &str) -> (b: bool)
        ensures
            b == (crate::collections::entry_index(self.grafts@, syntax::spec_trim(name@)) is Some),
    {
        let graft_name = syntax::trim(name);
        self.grafts.contains_key(graft_name)
    }

    /// Return a graft by name (ignoring a leading sigil).
    pub fn get_graft(&self, name: &str) -> (r: Result<&Graft, GardenError>)
        ensures
            r matches Ok(g) ==> crate::collections::entry_get(self.grafts@, syntax::spec_trim(name@))
                == Some(*g),
            r is Err ==> crate::collections::entry_get(self.grafts@, syntax::spec_trim(name@)) is None
                && r->Err_0 is ConfigurationError,
    {
        let graft_name = syntax::trim(name);
        match self.grafts.get(graft_name) {
            Some(graft) => Ok(graft),
            None => Err(GardenError::ConfigurationError(concat(name, ": no such graft"))),
        }
    }

    /// Parse a "graft::value" string and return the ConfigId for the graft and the
    /// remaining unparsed "value".
    pub fn get_graft_id<'a>(&self, value: &'a str) -> (r: Result<(ConfigId, &'a str), GardenError>)
        ensures
            r is Ok <==> spec_graft_id(self, value@) is Some,
            r matches Ok(res) ==> spec_graft_id(self, value@) == Some((res.0, res.1@)),
            r is Err ==> r->Err_0 is ConfigurationError,
    {
        let (ok, graft_name, remainder) = syntax::split_graft(value);
        if !ok {
            return Err(GardenError::ConfigurationError(concat(value, ": invalid graft expression")));
        }
        let graft = self.get_graft(graft_name)?;
        match graft.get_id() {
            Some(graft_id) => Ok((graft_id, remainder)),
            None => Err(GardenError::ConfigurationError(concat(graft_name, ": no such graft"))),
        }
    }

    /// Find a tree by name and return a reference if it exists.
    pub fn get_tree(&self, name: &str) -> (r: Option<&Tree>)
        ensures
            r matches Some(t) ==> crate::collections::entry_get(self.trees@, name@) == Some(*t),
            r is None ==> crate::collections::entry_get(self.trees@, name@) is None,
    {
        self.trees.get(name)
    }
}

/// The text "--quiet" when quiet, else the empty string.
pub open spec fn quiet_flag(quiet: bool) -> Seq<char> {
    if quiet {
        seq!['-', '-', 'q', 'u', 'i', 'e', 't']
    } else {
        Seq::empty()
    }
}

/// The graft id and remainder named by a "graft::value" expression, when the graft
/// exists and has been attached.
pub open spec fn spec_graft_id(config: &Configuration, value: Seq<char>) -> Option<(ConfigId, Seq<char>)> {
    let (ok, name, rest) = syntax::spec_split_string(value, syntax::graft_separator());
    if !ok {
        None
    } else {
        match crate::collections::entry_get(config.grafts@, syntax::spec_trim(name)) {
            Some(g) => match g.id {
                Some(id) => Some((id, rest)),
                None => None,
            },
            None => None,
        }
    }
}

/// Once a define fails, applying more defines keeps failing.
proof fn lemma_defines_fail_rest(st: DefineState, defs: Seq<Seq<char>>, n: int)
    requires
        0 < n <= defs.len(),
        apply_defines_spec(st, defs.take(n)) is None,
    ensures
        apply_defines_spec(st, defs) is None,
    decreases defs.len() - n,
{
    if n < defs.len() {
        assert(defs.take(n + 1).drop_last() =~= defs.take(n));
        lemma_defines_fail_rest(st, defs, n + 1);
    } else {
        assert(defs.take(n) =~= defs);
    }
}

/// The message reported for an invalid boolean define.
fn invalid_bool_message(name: &str, expr: &str) -> (r: String)
    ensures
        r@ == "'"@ + name@ + "' is not a valid value for \""@ + expr@ + "\". Must be true, false, 0 or 1"@,
{
    let mut msg = owned("'");
    msg.append(name);
    msg.append("' is not a valid value for \"");
    msg.append(expr);
    msg.append("\". Must be true, false, 0 or 1");
    msg
}


/// A parsed tree query: ":garden", "%group", "@tree" or a default query that may
/// name any of these, with the glob pattern text used to match names.
pub struct TreeQuery {
    pub query: String,
    pub pattern: String,
    pub is_default: bool,
    pub is_garden: bool,
    pub is_group: bool,
    pub is_tree: bool,
    pub include_gardens: bool,
    pub include_groups: bool,
    pub include_trees: bool,
}

impl TreeQuery {
    /// Classify a query by its sigil and extract its pattern.
    pub fn new(query: &str) -> (q: Self)
        ensures
            q.query@ == query@,
            q.pattern@ == syntax::spec_trim(query@),
            q.is_garden == syntax::spec_is_garden(query@),
            q.is_group == (!q.is_garden && syntax::spec_is_group(query@)),
            q.is_tree == (!q.is_garden && !q.is_group && syntax::spec_is_tree(query@)),
            q.is_default == (!q.is_garden && !q.is_group && !q.is_tree),
            q.include_gardens == (q.is_garden || q.is_default),
            q.include_groups == (q.is_group || q.is_default),
            q.include_trees == (q.is_tree || q.is_default),
    {
        let mut is_default = false;
        let mut is_tree = false;
        let mut is_garden = false;
        let mut is_group = false;
        let mut include_gardens = true;
        let mut include_groups = true;
        let mut include_trees = true;
        if syntax::is_garden(query) {
            is_garden = true;
            include_groups = false;
            include_trees = false;
        } else if syntax::is_group(query) {
            is_group = true;
            include_gardens = false;
            include_trees = false;
        } else if syntax::is_tree(query) {
            is_tree = true;
            include_gardens = false;
            include_groups = false;
        } else {
            is_default = true;
        }
        TreeQuery {
            query: owned(query),
            pattern: owned(syntax::trim(query)),
            is_default,
            is_garden,
            is_group,
            is_tree,
            include_gardens,
            include_groups,
            include_trees,
        }
    }
}

/// Every graft of `c` that is attached names a configuration id below `n`.
pub open spec fn graft_ids_below(c: Configuration, n: nat) -> bool {
    forall|j: int| 0 <= j < c.grafts@.len() ==> ((#[trigger] c.grafts@[j]).1.id matches Some(x) ==> x < n)
}

/// The remainder of a resolved graft expression is shorter than the expression.
pub proof fn lemma_graft_rest_shorter(c: Configuration, value: Seq<char>)
    ensures
        spec_graft_id(&c, value) matches Some((id, rest)) ==> rest.len() < value.len(),
{
    if syntax::spec_split_string(value, syntax::graft_separator()).0 {
        syntax::lemma_split_after_shorter(value, syntax::graft_separator());
    }
}

/// A graft expression resolves to an attached configuration below `n` and a shorter
/// remainder.
pub proof fn lemma_graft_id_below(c: Configuration, n: nat, value: Seq<char>)
    requires
        graft_ids_below(c, n),
    ensures
        spec_graft_id(&c, value) matches Some((id, rest)) ==> id < n && rest.len() < value.len(),
{
    let (ok, name, rest) = syntax::spec_split_string(value, syntax::graft_separator());
    if ok {
        syntax::lemma_split_after_shorter(value, syntax::graft_separator());
        crate::collections::lemma_entry_index(c.grafts@, syntax::spec_trim(name));
    }
}

/// The application state: the command-line options and every configuration, the
/// root configuration first and grafted configurations after it, each found by its
/// `ConfigId`.
pub struct ApplicationContext {
    pub options: crate::cli::MainOptions,
    arena: Vec<Configuration>,
    root_id: ConfigId,
}

impl ApplicationContext {
    /// The configurations, indexed by `ConfigId`.
    pub closed spec fn configs(&self) -> Seq<Configuration> {
        self.arena@
    }

    /// The id of the root configuration.
    pub closed spec fn root_of(&self) -> ConfigId {
        self.root_id
    }

    /// The command-line options.
    pub closed spec fn options_of(&self) -> crate::cli::MainOptions {
        self.options
    }

    /// The command-line options.
    pub fn get_options(&self) -> (r: &crate::cli::MainOptions)
        ensures
            *r == self.options_of(),
    {
        &self.options
    }

    /// The root configuration exists and every attached graft names a configuration.
    pub open spec fn wf(&self) -> bool {
        &&& self.root_of() < self.configs().len()
        &&& forall|i: int|
            0 <= i < self.configs().len() ==> graft_ids_below(
                #[trigger] self.configs()[i],
                self.configs().len(),
            )
    }

    /// A context holding one empty root configuration that runs commands with `shell`.
    pub fn new(options: crate::cli::MainOptions, shell: String) -> (a: Self)
        ensures
            a.wf(),
            a.configs().len() == 1,
            a.root_of() == 0,
            a.configs()[0].id == Some(0usize),
            a.configs()[0].parent_id is None,
            a.configs()[0].shell@ == shell@,
            a.configs()[0].trees@.len() == 0 && a.configs()[0].grafts@.len() == 0,
            a.options_of() == options,
    {
        let mut config = Configuration::new(shell);
        config.set_id(0);
        let mut arena = Vec::new();
        arena.push(config);
        ApplicationContext { options, arena, root_id: 0 }
    }

    /// The number of configurations.
    pub fn config_count(&self) -> (n: usize)
        ensures
            n == self.configs().len(),
    {
        self.arena.len()
    }

    /// The configuration with the given id.
    pub fn get_config(&self, id: ConfigId) -> (r: &Configuration)
        requires
            id < self.configs().len(),
        ensures
            *r == self.configs()[id as int],
    {
        &self.arena[id]
    }

    /// Mutable access to the configuration with the given id.
    pub fn get_config_mut(&mut self, id: ConfigId) -> (r: &mut Configuration)
        requires
            id < old(self).configs().len(),
        ensures
            *r == old(self).configs()[id as int],
            final(self).configs() == old(self).configs().update(id as int, *final(r)),
            final(self).root_of() == old(self).root_of(),
            final(self).options_of() == old(self).options_of(),
    {
        &mut self.arena[id]
    }

    pub fn get_root_id(&self) -> (r: ConfigId)
        ensures
            r == self.root_of(),
    {
        self.root_id
    }

    /// The root configuration.
    pub fn get_root_config(&self) -> (r: &Configuration)
        requires
            self.wf(),
        ensures
            *r == self.configs()[self.root_of() as int],
    {
        &self.arena[self.root_id]
    }

    /// Mutable access to the root configuration.
    pub fn get_root_config_mut(&mut self) -> (r: &mut Configuration)
        requires
            old(self).wf(),
        ensures
            *r == old(self).configs()[old(self).root_of() as int],
            final(self).configs() == old(self).configs().update(old(self).root_of() as int, *final(r)),
            final(self).root_of() == old(self).root_of(),
            final(self).options_of() == old(self).options_of(),
    {
        let id = self.root_id;
        &mut self.arena[id]
    }

    /// Add a grafted configuration and return its id, which is recorded in it.
    pub fn add_graft(&mut self, config: Configuration) -> (id: ConfigId)
        requires
            old(self).configs().len() < usize::MAX,
        ensures
            id == old(self).configs().len(),
            final(self).configs() == old(self).configs().push(Configuration { id: Some(id), ..config }),
            final(self).root_of() == old(self).root_of(),
            final(self).options_of() == old(self).options_of(),
    {
        let id = self.arena.len();
        let mut config = config;
        config.set_id(id);
        self.arena.push(config);
        id
    }
}


/// `new` is `old` with its cached value forgotten.
pub open spec fn var_reset(new: Variable, old: Variable) -> bool {
    new.expr_of() == old.expr_of() && new.value_of() is None
}

/// Every variable of a map has its cached value forgotten.
pub open spec fn map_reset(new: Seq<(Seq<char>, Variable)>, old: Seq<(Seq<char>, Variable)>) -> bool {
    new.len() == old.len() && forall|i: int|
        0 <= i < old.len() ==> (#[trigger] new[i]).0 == old[i].0 && var_reset(new[i].1, old[i].1)
}

/// Every variable of a list has its cached value forgotten.
pub open spec fn list_reset(new: Seq<Variable>, old: Seq<Variable>) -> bool {
    new.len() == old.len() && forall|i: int| 0 <= i < old.len() ==> var_reset(#[trigger] new[i], old[i])
}

/// Every variable of every list of a map has its cached value forgotten.
pub open spec fn multimap_reset(new: Seq<(Seq<char>, Vec<Variable>)>, old: Seq<(Seq<char>, Vec<Variable>)>) -> bool {
    new.len() == old.len() && forall|i: int|
        0 <= i < old.len() ==> (#[trigger] new[i]).0 == old[i].0 && list_reset(new[i].1@, old[i].1@)
}

/// Every variable of every multi-variable has its cached value forgotten.
pub open spec fn multivars_reset(new: Seq<MultiVariable>, old: Seq<MultiVariable>) -> bool {
    new.len() == old.len() && forall|i: int|
        0 <= i < old.len() ==> (#[trigger] new[i]).name_of() == old[i].name_of() && list_reset(
            new[i].variables_of(),
            old[i].variables_of(),
        )
}

/// Forget the cached values of a map's variables.
pub fn reset_variable_map(map: &mut VariableMap)
    ensures
        map_reset(final(map)@, old(map)@),
{
    let mut i: usize = 0;
    while i < map.len()
        invariant
            i <= map@.len(),
            map@.len() == old(map)@.len(),
            forall|j: int|
                0 <= j < map@.len() ==> (#[trigger] map@[j]).0 == old(map)@[j].0 && (if j < i {
                    var_reset(map@[j].1, old(map)@[j].1)
                } else {
                    map@[j].1 == old(map)@[j].1
                }),
        decreases map@.len() - i,
    {
        let v = map.value_at_mut(i);
        v.reset();
        i = i + 1;
    }
}

/// Forget the cached values of a list of variables.
pub fn reset_variable_list(list: &mut Vec<Variable>)
    ensures
        list_reset(final(list)@, old(list)@),
{
    let mut i: usize = 0;
    while i < list.len()
        invariant
            i <= list@.len(),
            list@.len() == old(list)@.len(),
            forall|j: int|
                0 <= j < list@.len() ==> if j < i {
                    var_reset(#[trigger] list@[j], old(list)@[j])
                } else {
                    list@[j] == old(list)@[j]
                },
        decreases list@.len() - i,
    {
        let mut var = list[i].clone();
        var.reset();
        list.set(i, var);
        i = i + 1;
    }
}

/// Forget the cached values of every list of a map.
pub fn reset_map_variables(map: &mut MultiVariableMap)
    ensures
        multimap_reset(final(map)@, old(map)@),
{
    let mut i: usize = 0;
    while i < map.len()
        invariant
            i <= map@.len(),
            map@.len() == old(map)@.len(),
            forall|j: int|
                0 <= j < map@.len() ==> (#[trigger] map@[j]).0 == old(map)@[j].0 && (if j < i {
                    list_reset(map@[j].1@, old(map)@[j].1@)
                } else {
                    map@[j].1 == old(map)@[j].1
                }),
        decreases map@.len() - i,
    {
        let list = map.value_at_mut(i);
        reset_variable_list(list);
        i = i + 1;
    }
}

/// Forget the cached values of a list of multi-variables.
pub fn reset_multivariables(vars: &mut Vec<MultiVariable>)
    ensures
        multivars_reset(final(vars)@, old(vars)@),
{
    let mut i: usize = 0;
    while i < vars.len()
        invariant
            i <= vars@.len(),
            vars@.len() == old(vars)@.len(),
            forall|j: int|
                0 <= j < vars@.len() ==> if j < i {
                    (#[trigger] vars@[j]).name_of() == old(vars)@[j].name_of() && list_reset(
                        vars@[j].variables_of(),
                        old(vars)@[j].variables_of(),
                    )
                } else {
                    vars@[j] == old(vars)@[j]
                },
        decreases vars@.len() - i,
    {
        let mut m = vars[i].clone();
        m.reset();
        proof {
            assert(list_reset(m.variables_of(), old(vars)@[i as int].variables_of())) by {
                assert forall|k: int| 0 <= k < m.variables_of().len() implies var_reset(
                    #[trigger] m.variables_of()[k],
                    old(vars)@[i as int].variables_of()[k],
                ) by {
                    old(vars)@[i as int].variables_of()[k].lemma_copied();
                }
            }
        }
        vars.set(i, m);
        i = i + 1;
    }
}

/// `new` is tree `old` with the cached values of its variables, environment,
/// gitconfig and commands forgotten (its path keeps its value).
pub open spec fn tree_reset(new: Tree, old: Tree) -> bool {
    &&& map_reset(new.variables@, old.variables@)
    &&& multivars_reset(new.environment@, old.environment@)
    &&& multimap_reset(new.gitconfig@, old.gitconfig@)
    &&& multimap_reset(new.commands@, old.commands@)
    &&& new == Tree {
        variables: new.variables,
        environment: new.environment,
        gitconfig: new.gitconfig,
        commands: new.commands,
        ..old
    }
}

impl Tree {
    /// Forget the cached values of the tree's variables (see `tree_reset`).
    pub fn reset_variables(&mut self)
        ensures
            tree_reset(*final(self), *old(self)),
    {
        reset_variable_map(&mut self.variables);
        reset_multivariables(&mut self.environment);
        reset_map_variables(&mut self.gitconfig);
        reset_map_variables(&mut self.commands);
    }
}

/// Every tree of a map has its cached values forgotten.
pub open spec fn trees_reset(new: Seq<(Seq<char>, Tree)>, old: Seq<(Seq<char>, Tree)>) -> bool {
    new.len() == old.len() && forall|i: int|
        0 <= i < old.len() ==> (#[trigger] new[i]).0 == old[i].0 && tree_reset(new[i].1, old[i].1)
}

impl Configuration {
    /// Forget the cached values of the configuration's variables, environment,
    /// commands and trees.
    pub fn reset_variables(&mut self)
        ensures
            map_reset(final(self).variables@, old(self).variables@),
            multivars_reset(final(self).environment@, old(self).environment@),
            multimap_reset(final(self).commands@, old(self).commands@),
            trees_reset(final(self).trees@, old(self).trees@),
            *final(self) == (Configuration {
                variables: final(self).variables,
                environment: final(self).environment,
                commands: final(self).commands,
                trees: final(self).trees,
                ..*old(self)
            }),
    {
        reset_variable_map(&mut self.variables);
        reset_multivariables(&mut self.environment);
        reset_map_variables(&mut self.commands);
        let ghost mid = *self;
        let mut i: usize = 0;
        while i < self.trees.len()
            invariant
                *self == (Configuration { trees: self.trees, ..mid }),
                map_reset(mid.variables@, old(self).variables@),
                multivars_reset(mid.environment@, old(self).environment@),
                multimap_reset(mid.commands@, old(self).commands@),
                mid == (Configuration {
                    variables: mid.variables,
                    environment: mid.environment,
                    commands: mid.commands,
                    ..*old(self)
                }),
                i <= self.trees@.len(),
                self.trees@.len() == old(self).trees@.len(),
                forall|j: int|
                    0 <= j < self.trees@.len() ==> (#[trigger] self.trees@[j]).0 == old(self).trees@[j].0
                        && (if j < i {
                        tree_reset(self.trees@[j].1, old(self).trees@[j].1)
                    } else {
                        self.trees@[j].1 == old(self).trees@[j].1
                    }),
            decreases self.trees@.len() - i,
        {
            let tree = self.trees.value_at_mut(i);
            tree.reset_variables();
            i = i + 1;
        }
    }
}


/// The variables after a builtin variable (when defined) takes a resolved value.
pub open spec fn builtin_set(
    m: Seq<(Seq<char>, (Seq<char>, Option<Seq<char>>))>,
    name: Seq<char>,
    value: Seq<char>,
) -> Seq<(Seq<char>, (Seq<char>, Option<Seq<char>>))> {
    match crate::collections::entry_index(m, name) {
        Some(i) => m.update(i, (name, (value, Some(value)))),
        None => m,
    }
}

/// Give a defined builtin variable a resolved value.
fn set_builtin(map: &mut VariableMap, name: &str, value: &String)
    ensures
        vars_view(final(map)@) == builtin_set(vars_view(old(map)@), name@, value@),
{
    proof {
        crate::collections::lemma_entry_index_map(old(map)@, |v: Variable| var_view(v), name@);
        crate::collections::lemma_entry_index(old(map)@, name@);
    }
    if let Some(i) = map.index_of(name) {
        let var = map.value_at_mut(i);
        var.set_expr(value.clone());
        var.set_value(value.clone());
        assert(vars_view(map@) =~= vars_view(old(map)@).update(i as int, (name@, (value@, Some(value@)))));
    }
}

/// `new` is tree `old` with TREE_NAME set to its name and, when its path is
/// evaluated, TREE_PATH set to its path.
pub open spec fn tree_builtins_reset(new: Tree, old: Tree) -> bool {
    let m1 = builtin_set(vars_view(old.variables@), constants::TREE_NAME@, old.name@);
    &&& vars_view(new.variables@) == match old.path_of().value_of() {
        Some(p) => builtin_set(m1, constants::TREE_PATH@, p),
        None => m1,
    }
    &&& new == Tree { variables: new.variables, ..old }
}

/// `new` is configuration `old` with its builtin variables resolved: GARDEN_ROOT
/// to the evaluated root, and each tree's TREE_NAME and TREE_PATH.
pub open spec fn builtins_reset(new: Configuration, old: Configuration) -> bool {
    &&& vars_view(new.variables@) == match old.root.value_of() {
        Some(v) => builtin_set(vars_view(old.variables@), constants::GARDEN_ROOT@, v),
        None => vars_view(old.variables@),
    }
    &&& new.trees@.len() == old.trees@.len()
    &&& forall|i: int|
        0 <= i < old.trees@.len() ==> (#[trigger] new.trees@[i]).0 == old.trees@[i].0 && tree_builtins_reset(
            new.trees@[i].1,
            old.trees@[i].1,
        )
    &&& new == (Configuration { variables: new.variables, trees: new.trees, ..old })
}

/// `new` is configuration `old` with the cached values of its variables forgotten
/// (see `Configuration::reset_variables`).
pub open spec fn config_reset(new: Configuration, old: Configuration) -> bool {
    &&& map_reset(new.variables@, old.variables@)
    &&& multivars_reset(new.environment@, old.environment@)
    &&& multimap_reset(new.commands@, old.commands@)
    &&& trees_reset(new.trees@, old.trees@)
    &&& new == (Configuration {
        variables: new.variables,
        environment: new.environment,
        commands: new.commands,
        trees: new.trees,
        ..old
    })
}

/// The debug levels after counting each debug name once more (levels wrap at 256).
pub open spec fn debug_counted(m: Seq<(Seq<char>, u8)>, keys: Seq<Seq<char>>) -> Seq<(Seq<char>, u8)>
    decreases keys.len(),
{
    if keys.len() == 0 {
        m
    } else {
        let prev = debug_counted(m, keys.drop_last());
        let k = keys.last();
        let current: u8 = match crate::collections::entry_get(prev, k) {
            Some(c) => c,
            None => 0,
        };
        crate::collections::entry_insert(prev, k, (if current == 255 { 0 } else { current + 1 }) as u8)
    }
}

impl Configuration {
    /// Resolve the builtin variables (see `builtins_reset`).
    pub fn reset_builtin_variables(&mut self)
        ensures
            builtins_reset(*final(self), *old(self)),
    {
        if let Some(value) = self.root.get_value() {
            let v = value.clone();
            set_builtin(&mut self.variables, constants::GARDEN_ROOT, &v);
        }
        let ghost mid = *self;
        let mut i: usize = 0;
        while i < self.trees.len()
            invariant
                *self == (Configuration { trees: self.trees, ..mid }),
                mid.trees == old(self).trees,
                i <= self.trees@.len(),
                self.trees@.len() == old(self).trees@.len(),
                forall|j: int|
                    0 <= j < self.trees@.len() ==> (#[trigger] self.trees@[j]).0 == old(self).trees@[j].0
                        && (if j < i {
                        tree_builtins_reset(self.trees@[j].1, old(self).trees@[j].1)
                    } else {
                        self.trees@[j].1 == old(self).trees@[j].1
                    }),
            decreases self.trees@.len() - i,
        {
            let tree = self.trees.value_at_mut(i);
            let tree_name = tree.name.clone();
            set_builtin(&mut tree.variables, constants::TREE_NAME, &tree_name);
            if let Some(path) = tree.path.get_value() {
                let p = path.clone();
                set_builtin(&mut tree.variables, constants::TREE_PATH, &p);
            }
            i = i + 1;
        }
    }

    /// Forget cached values and resolve the builtin variables again.
    pub fn reset(&mut self)
        ensures
            exists|mid: Configuration|
                config_reset(mid, *old(self)) && #[trigger] builtins_reset(*final(self), mid),
    {
        self.reset_variables();
        let ghost mid = *self;
        self.reset_builtin_variables();
        assert(config_reset(mid, *old(self)) && builtins_reset(*self, mid));
    }

    /// Create the implicit "." tree, at the configuration directory (or
    /// `current_dir`), when commands are configured without any trees.
    pub fn synthesize_default_tree(&mut self, current_dir: &str)
        ensures
            old(self).commands@.len() > 0 && old(self).trees@.len() == 0 ==> {
                let dir = match old(self).dirname {
                    Some(d) => d@,
                    None => current_dir@,
                };
                &&& final(self).trees@.len() == 1
                &&& final(self).trees@[0].0 == constants::DOT@
                &&& final(self).trees@[0].1.name@ == constants::DOT@
                &&& final(self).trees@[0].1.path_of().expr_of() == dir
                &&& final(self).trees@[0].1.path_of().value_of() == Some(dir)
                &&& final(self).trees@[0].1.description@ == "The default tree for garden commands."@
                &&& vars_view(final(self).trees@[0].1.variables@) == crate::collections::entry_insert(
                    crate::collections::entry_insert(
                        Seq::empty(),
                        constants::TREE_NAME@,
                        (Seq::<char>::empty(), None::<Seq<char>>),
                    ),
                    constants::TREE_PATH@,
                    (dir, None::<Seq<char>>),
                )
            },
            !(old(self).commands@.len() > 0 && old(self).trees@.len() == 0) ==> final(self).trees@
                == old(self).trees@,
            *final(self) == (Configuration { trees: final(self).trees, ..*old(self) }),
    {
        if !self.commands.is_empty() && self.trees.is_empty() {
            let dirname = self.dirname_string(current_dir);
            let mut tree = Tree::default();
            tree.path = Variable::new(dirname.clone(), Some(dirname));
            tree.description = owned("The default tree for garden commands.");
            proof {
                assert(vars_view(tree.variables@) =~= Seq::empty());
                assert(tree.name@ =~= Seq::<char>::empty());
            }
            tree.add_builtin_variables();
            tree.set_name(owned(constants::DOT));
            let ghost before = self.trees@;
            self.trees.insert(owned(constants::DOT), tree);
            assert(before.len() == 0);
            assert(crate::collections::entry_index(before, constants::DOT@) is None);
        }
    }

    /// Count the "--debug" names given on the command line. Fails when no
    /// configuration file was found.
    pub fn update_options(&mut self, debug: &Vec<String>) -> (r: Result<(), String>)
        ensures
            old(self).path is None ==> r is Err && *final(self) == *old(self),
            old(self).path is Some ==> r is Ok && final(self).debug@ == debug_counted(
                old(self).debug@,
                debug@.map_values(|s: String| s@),
            ),
            *final(self) == (Configuration { debug: final(self).debug, ..*old(self) }),
    {
        if self.path.is_none() {
            return Err(owned("unable to find a configuration file -- use --config <path>"));
        }
        let ghost keys = debug@.map_values(|s: String| s@);
        let mut i: usize = 0;
        while i < debug.len()
            invariant
                keys == debug@.map_values(|s: String| s@),
                i <= debug@.len(),
                *self == (Configuration { debug: self.debug, ..*old(self) }),
                self.debug@ == debug_counted(old(self).debug@, keys.take(i as int)),
            decreases debug@.len() - i,
        {
            assert(keys.take(i + 1).drop_last() =~= keys.take(i as int));
            let key = debug[i].as_str();
            let current: u8 = match self.debug.get(key) {
                Some(c) => *c,
                None => 0,
            };
            let next: u8 = current.wrapping_add(1);
            self.debug.insert(owned(key), next);
            i = i + 1;
        }
        assert(keys.take(debug@.len() as int) =~= keys);
        Ok(())
    }

    /// Resolve the garden root from its evaluated expression `value`. An empty root
    /// expression means the current directory when the root is dynamic, and else
    /// "${GARDEN_CONFIG_DIR}", resolved to the configuration directory when known. A
    /// configured root takes its canonical form `canonical`, when known.
    pub fn initialize_root(&mut self, value: &str, current_dir: &str, canonical: Option<String>)
        ensures
            old(self).root.expr_of().len() == 0 && old(self).root_is_dynamic ==> {
                &&& final(self).root.expr_of() == current_dir@
                &&& final(self).root.value_of() == Some(current_dir@)
                &&& final(self).root_path@ == current_dir@
            },
            old(self).root.expr_of().len() == 0 && !old(self).root_is_dynamic ==> {
                &&& final(self).root.expr_of() == constants::GARDEN_CONFIG_DIR_EXPR@
                &&& final(self).root.value_of() == match old(self).dirname {
                    Some(d) => Some(d@),
                    None => old(self).root.value_of(),
                }
                &&& final(self).root_path@ == match old(self).dirname {
                    Some(d) => d@,
                    None => old(self).root_path@,
                }
            },
            old(self).root.expr_of().len() > 0 ==> {
                let resolved = match canonical {
                    Some(c) => c@,
                    None => value@,
                };
                &&& final(self).root.expr_of() == old(self).root.expr_of()
                &&& final(self).root.value_of() == Some(resolved)
                &&& final(self).root_path@ == resolved
            },
            *final(self) == (Configuration {
                root: final(self).root,
                root_path: final(self).root_path,
                ..*old(self)
            }),
    {
        if self.root.is_empty() {
            if self.root_is_dynamic {
                self.root.set_expr(owned(current_dir));
                self.root.set_value(owned(current_dir));
                self.root_path = owned(current_dir);
            } else {
                self.root.set_expr(owned(constants::GARDEN_CONFIG_DIR_EXPR));
                if let Some(dirname) = &self.dirname {
                    let d = dirname.clone();
                    self.root.set_value(d.clone());
                    self.root_path = d;
                }
            }
        } else {
            let resolved = match canonical {
                Some(c) => c,
                None => owned(value),
            };
            self.root_path = resolved.clone();
            self.root.set_value(resolved);
        }
    }
}
/// Lower-casing a lower-cased string changes nothing more.
proof fn lemma_ascii_lower_idempotent(s: Seq<char>)
    ensures
        ascii_lower_seq(ascii_lower_seq(s)) == ascii_lower_seq(s),
{
    assert forall|k: int| 0 <= k < s.len() implies #[trigger] ascii_lower(ascii_lower(s[k])) == ascii_lower(s[k]) by {
        let c = s[k];
        if 'A' <= c <= 'Z' {
            let u = (c as u32) + 32;
            assert(0x61 <= u <= 0x7a);
            assert((u as char) as u32 == u);
        }
    }
    assert(ascii_lower_seq(ascii_lower_seq(s)) =~= ascii_lower_seq(s));
}

/// Upper-casing a string and then lower-casing it gives its lower-cased form.
proof fn lemma_ascii_lower_of_upper(s: Seq<char>)
    ensures
        ascii_lower_seq(ascii_upper_seq(s)) == ascii_lower_seq(s),
{
    assert forall|k: int| 0 <= k < s.len() implies #[trigger] ascii_lower(ascii_upper(s[k])) == ascii_lower(s[k]) by {
        let c = s[k];
        if 'a' <= c <= 'z' {
            let u = (c as u32) - 32;
            assert(0x41 <= u <= 0x5a);
            assert((u as char) as u32 == u);
            assert(((u + 32) as char) as u32 == c as u32);
        } else if 'A' <= c <= 'Z' {
            let u = (c as u32) + 32;
            assert(0x61 <= u <= 0x7a);
            assert((u as char) as u32 == u);
        }
    }
    assert(ascii_lower_seq(ascii_upper_seq(s)) =~= ascii_lower_seq(s));
}

/// Color modes are parsed ignoring ASCII case: two strings that agree once
/// lower-cased parse to the same result, the same mode or the same error, and so
/// do a string, its lower-cased form and its upper-cased form.
pub proof fn law_color_mode_ignores_case(s: Seq<char>, t: Seq<char>)
    requires
        ascii_lower_seq(s) == ascii_lower_seq(t),
    ensures
        spec_parse_color_mode(s) == spec_parse_color_mode(t),
        spec_parse_color_mode(ascii_lower_seq(s)) == spec_parse_color_mode(s),
        spec_parse_color_mode(ascii_upper_seq(s)) == spec_parse_color_mode(s),
{
    lemma_ascii_lower_idempotent(s);
    lemma_ascii_lower_of_upper(s);
}

/// A color mode's display name parses back to that mode.
pub proof fn law_color_mode_round_trip(mode: ColorMode)
    ensures
        spec_parse_color_mode(spec_color_mode_display(mode)) == Ok::<ColorMode, Seq<char>>(mode),
{
    let d = spec_color_mode_display(mode);
    assert(ascii_lower_seq(d) =~= d);
    match mode {
        ColorMode::Auto => {
            assert(color_mode_names(mode)[0] == d);
        },
        ColorMode::On => {
            assert(color_mode_names(mode)[3] == d);
        },
        ColorMode::Off => {
            assert(color_mode_names(mode)[3] == d);
        },
    }
    let others = if mode == ColorMode::Auto {
        seq![ColorMode::On, ColorMode::Off]
    } else if mode == ColorMode::On {
        seq![ColorMode::Auto, ColorMode::Off]
    } else {
        seq![ColorMode::Auto, ColorMode::On]
    };
    assert forall|i: int| 0 <= i < 2 implies !names_color_mode(d, #[trigger] others[i]) by {
        let other = others[i];
        if color_mode_names(other).contains(d) {
            let k = choose|k: int| 0 <= k < color_mode_names(other).len() && color_mode_names(other)[k] == d;
            assert(color_mode_names(other)[k].len() == d.len());
            assert(color_mode_names(other)[k][0] == d[0]);
        }
    }
    assert(!names_color_mode(d, others[0]));
    assert(!names_color_mode(d, others[1]));
}

/// A worktree is never a bare repository once another tree has been merged into it.
pub proof fn law_merged_worktree_not_bare(t: Tree, old: Tree, other: Tree)
    requires
        tree_merged(t, old, other),
    ensures
        t.is_worktree ==> !t.is_bare_repository,
{
}

} // verus!

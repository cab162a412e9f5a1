//! Placeholder substitution: the tokens `#{name}` of a command's
//! parameters are replaced by the values of the variables they name.
//!
//! The substitution is lexical. A value that holds spaces is put in as it
//! stands, so a host that parts the parameters at spaces afterwards sees it
//! as several words.

use crate::symbols::{find_value, lookup};
use crate::task::{Task, TaskView};
use crate::text::{
    chars_of, join, join_with, lemma_join_split, lemma_split_join, slice, split, split_on,
    string_of, views,
};
use crate::variable::{Variable, VariableView};
use vstd::prelude::*;

verus! {

/// The name that a placeholder token refers to. A token is a placeholder
/// where the whole of it has the shape `#{name}`; the name may be empty.
pub open spec fn placeholder_name(token: Seq<char>) -> Option<Seq<char>> {
    if token.len() >= 3 && token[0] == '#' && token[1] == '{' && token.last() == '}' {
        Some(token.subrange(2, token.len() - 1))
    } else {
        None
    }
}

/// What a token is replaced by: a placeholder by the value of the variable
/// it names, or by nothing where the table has no such variable; any other
/// token by itself.
pub open spec fn resolve_token(token: Seq<char>, table: Seq<VariableView>) -> Seq<char> {
    match placeholder_name(token) {
        Some(name) => match lookup(table, name) {
            Some(value) => value,
            None => Seq::<char>::empty(),
        },
        None => token,
    }
}

/// [`resolve_token`] on every token.
pub open spec fn resolve_tokens(tokens: Seq<Seq<char>>, table: Seq<VariableView>) -> Seq<
    Seq<char>,
> {
    Seq::new(tokens.len(), |i: int| resolve_token(tokens[i], table))
}

/// The parameters with every placeholder replaced: the text is parted at
/// single spaces, each token is resolved, and the tokens are joined with
/// single spaces again.
pub open spec fn substitute(params: Seq<char>, table: Seq<VariableView>) -> Seq<char> {
    join(resolve_tokens(split(params, ' '), table), seq![' '])
}

/// Substitution works token by token: for tokens that hold no space, the
/// substitution of their joining is the joining of what each token is
/// replaced by. So a placeholder gives way, as a whole, to the value of its
/// variable, or to nothing where the variable is unknown, and every other
/// token stays as it is.
pub proof fn lemma_substitute_tokens(tokens: Seq<Seq<char>>, table: Seq<VariableView>)
    requires
        tokens.len() >= 1,
        forall|i: int| 0 <= i < tokens.len() ==> !(#[trigger] tokens[i]).contains(' '),
    ensures
        substitute(join(tokens, seq![' ']), table) == join(
            resolve_tokens(tokens, table),
            seq![' '],
        ),
        forall|i: int|
            0 <= i < tokens.len() ==> (#[trigger] resolve_tokens(tokens, table)[i]) == (
            match placeholder_name(tokens[i]) {
                Some(name) => match lookup(table, name) {
                    Some(value) => value,
                    None => Seq::<char>::empty(),
                },
                None => tokens[i],
            }),
{
    lemma_split_join(tokens, ' ');
}

/// Parameters without a placeholder stay as they are, spaces and all.
pub proof fn lemma_plain_parameters_stay(params: Seq<char>, table: Seq<VariableView>)
    requires
        forall|i: int|
            0 <= i < split(params, ' ').len() ==> placeholder_name(
                #[trigger] split(params, ' ')[i],
            ) is None,
    ensures
        substitute(params, table) == params,
{
    assert(resolve_tokens(split(params, ' '), table) =~= split(params, ' '));
    lemma_join_split(params, ' ');
}

/// The token `#{name}` is a placeholder for `name`.
pub proof fn lemma_placeholder_names(name: Seq<char>)
    ensures
        placeholder_name(crate::shapes::placeholder(name)) == Some(name),
{
    reveal_strlit("#{");
    reveal_strlit("}");
    let token = crate::shapes::placeholder(name);
    assert(token.len() == name.len() + 3);
    assert(token[0] == '#');
    assert(token[1] == '{');
    assert(token.last() == '}');
    assert(token.subrange(2, token.len() - 1) =~= name);
}

/// Executable form of [`substitute`].
pub fn substitute_text(params: &str, table: &Vec<Variable>) -> (r: String)
    ensures
        r@ == substitute(params@, table.deep_view()),
{
    let tokens = split_on(&chars_of(params), ' ');
    let ghost model = resolve_tokens(split(params@, ' '), table.deep_view());
    let mut resolved: Vec<Vec<char>> = Vec::new();
    let mut i: usize = 0;
    assert(views(resolved@) =~= model.take(0));
    while i < tokens.len()
        invariant
            i <= tokens.len(),
            views(tokens@) == split(params@, ' '),
            model == resolve_tokens(split(params@, ' '), table.deep_view()),
            views(resolved@) == model.take(i as int),
        decreases tokens.len() - i,
    {
        let token = &tokens[i];
        assert(token@ == split(params@, ' ')[i as int]);
        let n = token.len();
        let next = if n >= 3 && token[0] == '#' && token[1] == '{' && token[n - 1] == '}' {
            let name = slice(token, 2, n - 1);
            match find_value(table, &name) {
                Some(value) => chars_of(value.as_str()),
                None => Vec::new(),
            }
        } else {
            slice(token, 0, n)
        };
        assert(next@ =~= model[i as int]);
        let ghost before = views(resolved@);
        resolved.push(next);
        assert(views(resolved@) =~= before.push(model[i as int]));
        i += 1;
    }
    assert(model.take(tokens.len() as int) == model);
    let mut space: Vec<char> = Vec::new();
    space.push(' ');
    string_of(&join_with(&resolved, &space))
}

/// The record with the placeholders of its parameters replaced from the
/// table; nothing else of it changes.
pub fn parse_vars_in_task(task: &Task, vars: &Vec<Variable>) -> (r: Task)
    ensures
        r@ == (TaskView { params: substitute(task@.params, vars.deep_view()), ..task@ }),
{
    let params = substitute_text(task.get_params(), vars);
    Task::new(
        task.get_name(),
        task.get_depends(),
        task.get_command(),
        params.as_str(),
        task.get_line(),
    )
}

/// [`parse_vars_in_task`] on every record, in order.
pub fn substitute_all(tasks: &Vec<Task>, vars: &Vec<Variable>) -> (r: Vec<Task>)
    ensures
        r.deep_view() == substituted(tasks.deep_view(), vars.deep_view()),
{
    let ghost model = substituted(tasks.deep_view(), vars.deep_view());
    let mut r: Vec<Task> = Vec::new();
    let mut i: usize = 0;
    while i < tasks.len()
        invariant
            i <= tasks.len(),
            model == substituted(tasks.deep_view(), vars.deep_view()),
            r.deep_view() == model.take(i as int),
        decreases tasks.len() - i,
    {
        let next = parse_vars_in_task(&tasks[i], vars);
        assert(next@ == model[i as int]);
        let ghost before = r.deep_view();
        r.push(next);
        assert(r.deep_view() =~= before.push(model[i as int]));
        i += 1;
    }
    assert(model.take(tasks.len() as int) == model);
    r
}

/// The records with the placeholders of their parameters replaced.
pub open spec fn substituted(tasks: Seq<TaskView>, table: Seq<VariableView>) -> Seq<TaskView> {
    Seq::new(
        tasks.len(),
        |i: int| TaskView { params: substitute(tasks[i].params, table), ..tasks[i] },
    )
}

} // verus!

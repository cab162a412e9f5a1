//! From the text of a task file and the names of the tasks asked for to
//! the records that are to run.

use crate::resolve::{resolution, resolve, NoSuchTask};
use crate::scan::{scan, scan_text};
use crate::substitute::{substitute_all, substituted};
use crate::symbols::{effective, overlay_all, process_struct_vars, process_vars};
use crate::task::{Task, TaskView};
use crate::variable::{Variable, VariableView};
use vstd::prelude::*;

verus! {

/// The symbol table of a text: the variables in effect, with the struct
/// instances rendered.
pub open spec fn table_of(text: Seq<char>, platform_recognized: bool) -> Seq<VariableView> {
    let scanned = scan_text(text, platform_recognized);
    overlay_all(scanned.structs, effective(scanned.variables))
}

/// The records of a text with their placeholders replaced from the text's
/// symbol table, in file order.
pub open spec fn records_of(text: Seq<char>, platform_recognized: bool) -> Seq<TaskView> {
    substituted(
        scan_text(text, platform_recognized).tasks,
        table_of(text, platform_recognized),
    )
}

/// The records to run for the names asked for, or the name to report
/// where none of them has a record.
pub open spec fn planned(
    text: Seq<char>,
    requested: Seq<Seq<char>>,
    platform_recognized: bool,
) -> Result<Seq<TaskView>, Seq<char>> {
    resolution(requested, records_of(text, platform_recognized))
}

/// Copies of the variables of a list.
pub fn copy_variables(list: &Vec<Variable>) -> (r: Vec<Variable>)
    ensures
        r.deep_view() == list.deep_view(),
{
    let mut r: Vec<Variable> = Vec::new();
    let mut i: usize = 0;
    while i < list.len()
        invariant
            i <= list.len(),
            r.deep_view() == list.deep_view().take(i as int),
        decreases list.len() - i,
    {
        let ghost before = r.deep_view();
        r.push(list[i].clone());
        assert(r.deep_view() =~= before.push(list.deep_view()[i as int]));
        i += 1;
    }
    assert(list.deep_view().take(list.len() as int) == list.deep_view());
    r
}

/// Reads the text of a task file and gives its records, with their
/// placeholders replaced, in file order.
pub fn load(text: &str, platform_recognized: bool) -> (r: Vec<Task>)
    ensures
        r.deep_view() == records_of(text@, platform_recognized),
{
    let scanned = scan(text, platform_recognized);
    let table = process_struct_vars(
        scanned.structs(),
        process_vars(copy_variables(scanned.variables())),
    );
    substitute_all(scanned.tasks(), &table)
}

/// Reads the text of a task file and gives the records to run for the
/// names asked for; fails where none of the names has a record.
pub fn plan(text: &str, requested: &Vec<String>, platform_recognized: bool) -> (r: Result<
    Vec<Task>,
    NoSuchTask,
>)
    ensures
        match r {
            Ok(list) => planned(text@, requested.deep_view(), platform_recognized) == Ok::<
                Seq<TaskView>,
                Seq<char>,
            >(list.deep_view()),
            Err(failure) => planned(text@, requested.deep_view(), platform_recognized) == Err::<
                Seq<TaskView>,
                Seq<char>,
            >(failure.task@),
        },
{
    let records = load(text, platform_recognized);
    resolve(requested, &records)
}

} // verus!

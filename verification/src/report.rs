//! The failures that end a run: the lines to write to standard output, and
//! the exit code of the process.

use crate::number::{decimal_text, digits_of, write_decimal, write_digits};
use crate::text::{append, chars_of, join, join_with, string_of, views};
use vstd::prelude::*;

verus! {

/// What a [`Failure`] stands for.
pub struct FailureView {
    /// The lines to write, in order.
    pub lines: Seq<Seq<char>>,
    /// The exit code of the process.
    pub code: int,
}

/// A failure that ends the run.
#[derive(Debug)]
pub struct Failure {
    /// The lines to write to standard output, in order.
    pub lines: Vec<String>,
    /// The exit code of the process.
    pub code: i32,
}

impl View for Failure {
    type V = FailureView;

    open spec fn view(&self) -> FailureView {
        FailureView { lines: self.lines.deep_view(), code: self.code as int }
    }
}

/// The first line of every failure: `<program> aborted!`.
pub open spec fn aborted_line(program: Seq<char>) -> Seq<char> {
    program + " aborted!"@
}

/// No record was found for the task: exit code -1, and a message that
/// names the task.
pub open spec fn no_task(program: Seq<char>, task: Seq<char>) -> FailureView {
    FailureView {
        lines: seq![
            aborted_line(program),
            "Don't know how to build task '"@ + task + "'"@,
            Seq::<char>::empty(),
        ],
        code: -1,
    }
}

/// None of the candidate task files exists: exit code -1, and a message
/// that names the candidates.
pub open spec fn not_found(program: Seq<char>, candidates: Seq<Seq<char>>) -> FailureView {
    FailureView {
        lines: seq![
            aborted_line(program),
            "No Rakefile found (looking for "@ + join(candidates, ", "@) + ")"@,
            Seq::<char>::empty(),
        ],
        code: -1,
    }
}

/// A shell command failed: the command's own exit code, and a message that
/// names the task asked for, the line of the command and the code.
pub open spec fn build_failed(
    program: Seq<char>,
    task: Seq<char>,
    code: int,
    line: nat,
) -> FailureView {
    FailureView {
        lines: seq![
            aborted_line(program),
            "Failed to build task '"@ + task + "' at line "@ + digits_of(line),
            "Exited with code: "@ + decimal_text(code),
        ],
        code,
    }
}

/// The file given is no task file: exit code -1, and a message that names
/// the file.
pub open spec fn bad_format(program: Seq<char>, file: Seq<char>) -> FailureView {
    FailureView {
        lines: seq![
            aborted_line(program),
            "Provided file '"@ + file + "' does not seem to be in Rakefile format."@,
        ],
        code: -1,
    }
}

fn aborted(program: &str) -> (r: String)
    ensures
        r@ == aborted_line(program@),
{
    let mut line = chars_of(program);
    append(&mut line, &chars_of(" aborted!"));
    string_of(&line)
}

fn framed(before: &str, inner: &Vec<char>, after: &str) -> (r: Vec<char>)
    ensures
        r@ == before@ + inner@ + after@,
{
    let mut line = chars_of(before);
    append(&mut line, inner);
    append(&mut line, &chars_of(after));
    line
}

/// The failure for a task that has no record.
pub fn no_task_failure(program: &str, task: &str) -> (r: Failure)
    ensures
        r@ == no_task(program@, task@),
{
    let mut lines: Vec<String> = Vec::new();
    lines.push(aborted(program));
    lines.push(string_of(&framed("Don't know how to build task '", &chars_of(task), "'")));
    lines.push(String::new());
    assert(lines.deep_view() =~= no_task(program@, task@).lines);
    Failure { lines, code: -1 }
}

/// The failure for a task file that was not found among the candidates.
pub fn not_found_failure(program: &str, rakefiles: &Vec<String>) -> (r: Failure)
    ensures
        r@ == not_found(program@, rakefiles.deep_view()),
{
    let mut names: Vec<Vec<char>> = Vec::new();
    let mut i: usize = 0;
    while i < rakefiles.len()
        invariant
            i <= rakefiles.len(),
            views(names@) == rakefiles.deep_view().take(i as int),
        decreases rakefiles.len() - i,
    {
        let ghost before = views(names@);
        names.push(chars_of(rakefiles[i].as_str()));
        assert(views(names@) =~= before.push(rakefiles[i as int]@));
        i += 1;
    }
    assert(rakefiles.deep_view().take(rakefiles.len() as int) == rakefiles.deep_view());
    let joined = join_with(&names, &chars_of(", "));
    let mut lines: Vec<String> = Vec::new();
    lines.push(aborted(program));
    lines.push(string_of(&framed("No Rakefile found (looking for ", &joined, ")")));
    lines.push(String::new());
    assert(lines.deep_view() =~= not_found(program@, rakefiles.deep_view()).lines);
    Failure { lines, code: -1 }
}

/// The failure for a shell command that left with a code other than 0.
pub fn build_failure(program: &str, task: &str, ec: i32, line: usize) -> (r: Failure)
    ensures
        r@ == build_failed(program@, task@, ec as int, line as nat),
{
    let mut place = framed("Failed to build task '", &chars_of(task), "' at line ");
    append(&mut place, &write_digits(line as u64));
    let mut left = chars_of("Exited with code: ");
    append(&mut left, &write_decimal(ec as i64));
    let mut lines: Vec<String> = Vec::new();
    lines.push(aborted(program));
    lines.push(string_of(&place));
    lines.push(string_of(&left));
    assert(lines.deep_view() =~= build_failed(program@, task@, ec as int, line as nat).lines);
    Failure { lines, code: ec }
}

/// The failure for a file that is no task file.
pub fn bad_format_failure(program: &str, file: &str) -> (r: Failure)
    ensures
        r@ == bad_format(program@, file@),
{
    let mut lines: Vec<String> = Vec::new();
    lines.push(aborted(program));
    lines.push(
        string_of(
            &framed("Provided file '", &chars_of(file), "' does not seem to be in Rakefile format."),
        ),
    );
    assert(lines.deep_view() =~= bad_format(program@, file@).lines);
    Failure { lines, code: -1 }
}

} // verus!

//! The line classifier: one pass over the text of a task file, top to
//! bottom, that gathers the variables, the struct types with their
//! instances, and the task records.
//!
//! [`scan_line`] says what one line does to the state of the pass;
//! [`scan_text`] folds it over the lines of a text.

use crate::rstruct::{Struct, StructView};
use crate::shapes::{
    block_end, comment, copy_arguments, count_puts, count_pwd, dependency_header,
    find_copy_arguments, find_dependency_header, find_json_argument, find_path_argument,
    find_ruby_argument, find_shell_argument, find_sleep_argument, find_struct_declaration,
    find_struct_instantiation, find_task_header, find_text_argument, find_variable_assignment,
    ignored_header, is_block_end, is_comment, is_ignored_header, is_platform_guard, items_of,
    json_argument, list_items, path_argument, platform_guard, puts_count, pwd_count,
    ruby_argument, shell_argument, sleep_argument, struct_declaration, struct_instantiation,
    task_header, text_argument, variable_assignment,
};
use crate::task::{Task, TaskView};
use crate::text::{chars_of, same_chars, split, split_on, string_of, views};
use crate::variable::{struct_marker, Variable, VariableView};
use vstd::prelude::*;

verus! {

/// The state of a pass over a task file.
pub struct ScanView {
    /// Name of the task whose header came last.
    pub name: Seq<char>,
    /// Dependency of that task; empty where it has none.
    pub depends: Seq<char>,
    /// Whether the pass is inside a block in which names may be declared
    /// again.
    pub in_block: bool,
    /// Whether the pass is inside a task that is marked to be ignored.
    pub muted: bool,
    /// Whether the record that was added last prints a text.
    pub after_text: bool,
    /// The variables gathered so far, in file order.
    pub variables: Seq<VariableView>,
    /// The struct types gathered so far, in file order.
    pub structs: Seq<StructView>,
    /// The task records gathered so far, in file order.
    pub tasks: Seq<TaskView>,
}

/// The state before the first line.
pub open spec fn initial_state() -> ScanView {
    ScanView {
        name: Seq::<char>::empty(),
        depends: Seq::<char>::empty(),
        in_block: false,
        muted: false,
        after_text: false,
        variables: Seq::<VariableView>::empty(),
        structs: Seq::<StructView>::empty(),
        tasks: Seq::<TaskView>::empty(),
    }
}

/// Whether a variable with this key was gathered.
pub open spec fn has_key(variables: Seq<VariableView>, key: Seq<char>) -> bool {
    exists|i: int| 0 <= i < variables.len() && (#[trigger] variables[i]).key == key
}

/// Whether a struct type with this name was gathered.
pub open spec fn has_type(structs: Seq<StructView>, name: Seq<char>) -> bool {
    exists|i: int| 0 <= i < structs.len() && (#[trigger] structs[i]).name == name
}

/// The struct types after an instance of the type `name` was bound to
/// `variable` with `values`: every type of that name takes both.
pub open spec fn bind(
    structs: Seq<StructView>,
    name: Seq<char>,
    variable: Seq<char>,
    values: Seq<Seq<char>>,
) -> Seq<StructView> {
    Seq::new(
        structs.len(),
        |i: int|
            if structs[i].name == name {
                StructView { variable, values, ..structs[i] }
            } else {
                structs[i]
            },
    )
}

/// A struct type declaration adds the type where its name is new, or the
/// pass is inside a block.
pub open spec fn declare_struct(st: ScanView, line: Seq<char>) -> ScanView {
    match struct_declaration(line) {
        Some((name, list)) => if !has_type(st.structs, name) || st.in_block {
            ScanView {
                structs: st.structs.push(
                    StructView {
                        variable: Seq::<char>::empty(),
                        name,
                        fields: list_items(list),
                        values: Seq::<Seq<char>>::empty(),
                    },
                ),
                ..st
            }
        } else {
            st
        },
        None => st,
    }
}

/// A variable assignment adds the variable where its key is new, or the
/// pass is inside a block.
pub open spec fn assign_variable(st: ScanView, line: Seq<char>) -> ScanView {
    match variable_assignment(line) {
        Some((key, value)) => if !has_key(st.variables, key) || st.in_block {
            ScanView { variables: st.variables.push(VariableView { key, value }), ..st }
        } else {
            st
        },
        None => st,
    }
}

/// A struct instantiation binds the variable and the values to every type
/// of the given name and, where the variable's key is new, adds a variable
/// whose value is the struct marker.
pub open spec fn instantiate_struct(st: ScanView, line: Seq<char>) -> ScanView {
    match struct_instantiation(line) {
        Some((variable, name, list)) => if has_type(st.structs, name) {
            let bound = bind(st.structs, name, variable, list_items(list));
            if has_key(st.variables, variable) {
                ScanView { structs: bound, ..st }
            } else {
                ScanView {
                    structs: bound,
                    variables: st.variables.push(
                        VariableView { key: variable, value: struct_marker() },
                    ),
                    ..st
                }
            }
        } else {
            st
        },
        None => st,
    }
}

/// Adds a record for the current task, unless the pass is muted.
pub open spec fn emit(
    st: ScanView,
    command: Seq<char>,
    params: Seq<char>,
    line: nat,
    with_text: bool,
) -> ScanView {
    if st.muted {
        st
    } else {
        ScanView {
            tasks: st.tasks.push(
                TaskView { name: st.name, depends: st.depends, command, params, line },
            ),
            after_text: with_text,
            ..st
        }
    }
}

/// Adds the same record `n` times.
pub open spec fn emit_times(
    st: ScanView,
    command: Seq<char>,
    params: Seq<char>,
    line: nat,
    n: nat,
) -> ScanView
    decreases n,
{
    if n == 0 {
        st
    } else {
        emit(emit_times(st, command, params, line, (n - 1) as nat), command, params, line, false)
    }
}

/// Adds a record where the shape gave parameters.
pub open spec fn emit_found(
    st: ScanView,
    command: Seq<char>,
    found: Option<Seq<char>>,
    line: nat,
    with_text: bool,
) -> ScanView {
    match found {
        Some(params) => emit(st, command, params, line, with_text),
        None => st,
    }
}

/// The task headers. A plain header sets the current task and clears its
/// dependency. A header with a dependency and a trailing `do` sets both. The
/// same without the trailing `do` sets both and adds a record without a
/// command, so that the task is known though it has no body.
pub open spec fn headers(st: ScanView, line: Seq<char>, index: nat) -> ScanView {
    let plain = match task_header(line) {
        Some(name) => ScanView { name, depends: Seq::<char>::empty(), ..st },
        None => st,
    };
    match dependency_header(line, "] do"@) {
        Some((name, depends)) => ScanView { name, depends, ..plain },
        None => match dependency_header(line, "]"@) {
            Some((name, depends)) => emit(
                ScanView { name, depends, ..plain },
                Seq::<char>::empty(),
                Seq::<char>::empty(),
                index,
                false,
            ),
            None => plain,
        },
    }
}

/// A `puts` without a text adds a record with empty parameters for each
/// `puts` on the line, but only where the record added last does not print
/// a text.
pub open spec fn bare_puts(st: ScanView, line: Seq<char>, index: nat) -> ScanView {
    if st.after_text {
        st
    } else {
        emit_times(st, "puts"@, Seq::<char>::empty(), index, puts_count(line))
    }
}

/// The command statements, each tested in turn and each adding its record
/// where it fits.
pub open spec fn statements(st: ScanView, line: Seq<char>, index: nat) -> ScanView {
    let s1 = emit_found(st, "puts"@, text_argument(line), index, true);
    let s2 = bare_puts(s1, line, index);
    let s3 = emit_found(s2, "puts"@, json_argument(line), index, true);
    let s4 = emit_found(s3, "sleep"@, sleep_argument(line), index, false);
    let s5 = emit_times(s4, "Dir.pwd"@, Seq::<char>::empty(), index, pwd_count(line));
    let s6 = emit_found(s5, "Dir.chdir"@, path_argument(line, "Dir.chdir"@), index, false);
    let s7 = emit_found(s6, "sh"@, shell_argument(line), index, false);
    let s8 = emit_found(s7, "sh"@, ruby_argument(line), index, false);
    let s9 = emit_found(s8, "File.delete"@, path_argument(line, "File.delete"@), index, false);
    emit_found(s9, "FileUtils.copy"@, copy_arguments(line), index, false)
}

/// The guard of the block that depends on the platform: the pass is inside
/// the block only where the platform was not recognised.
pub open spec fn guard(st: ScanView, line: Seq<char>, platform_recognized: bool) -> ScanView {
    if is_platform_guard(line) {
        ScanView { in_block: !platform_recognized, ..st }
    } else {
        st
    }
}

/// What one line does to the state. A comment does nothing. The end of a
/// block leaves the block and ends the muting. Every other line is tested
/// against the declarations, then the headers, then the statements and the
/// guard. A header marked to be ignored mutes the pass, so that no record is
/// added until the end of the block.
pub open spec fn scan_line(
    st: ScanView,
    line: Seq<char>,
    index: nat,
    platform_recognized: bool,
) -> ScanView {
    if is_comment(line) {
        st
    } else if is_block_end(line) {
        ScanView { in_block: false, muted: false, ..st }
    } else {
        let declared = instantiate_struct(assign_variable(declare_struct(st, line), line), line);
        if is_ignored_header(line) {
            headers(ScanView { muted: true, ..declared }, line, index)
        } else {
            guard(statements(headers(declared, line, index), line, index), line, platform_recognized)
        }
    }
}

/// The state after the first `n` of the given lines.
pub open spec fn scan_lines(lines: Seq<Seq<char>>, n: int, platform_recognized: bool) -> ScanView
    decreases n,
{
    if n <= 0 {
        initial_state()
    } else {
        scan_line(
            scan_lines(lines, n - 1, platform_recognized),
            lines[n - 1],
            (n - 1) as nat,
            platform_recognized,
        )
    }
}

/// The state after the whole text, taken line by line. Lines are parted by
/// the line feed character; the index of the first line is 0.
pub open spec fn scan_text(text: Seq<char>, platform_recognized: bool) -> ScanView {
    let lines = split(text, '\n');
    scan_lines(lines, lines.len() as int, platform_recognized)
}

/// Whether `after` holds what `before` gathered, in the same order, and
/// every record that it holds besides comes from the line `index`.
pub open spec fn grows(before: ScanView, after: ScanView, index: nat) -> bool {
    &&& before.tasks.is_prefix_of(after.tasks)
    &&& before.variables.is_prefix_of(after.variables)
    &&& before.structs.len() <= after.structs.len()
    &&& forall|i: int|
        before.tasks.len() <= i < after.tasks.len() ==> (#[trigger] after.tasks[i]).line == index
}

/// [`grows`] in two steps is [`grows`].
proof fn lemma_grows_twice(a: ScanView, b: ScanView, c: ScanView, index: nat)
    requires
        grows(a, b, index),
        grows(b, c, index),
    ensures
        grows(a, c, index),
{
    assert forall|i: int| a.tasks.len() <= i < c.tasks.len() implies (#[trigger] c.tasks[i]).line
        == index by {
        if i < b.tasks.len() {
            assert(c.tasks[i] == b.tasks[i]);
        }
    }
}

/// Adding a record any number of times only adds records of that line.
proof fn lemma_emit_times_grows(
    st: ScanView,
    command: Seq<char>,
    params: Seq<char>,
    index: nat,
    n: nat,
)
    ensures
        grows(st, emit_times(st, command, params, index, n), index),
    decreases n,
{
    if n > 0 {
        lemma_emit_times_grows(st, command, params, index, (n - 1) as nat);
        let before = emit_times(st, command, params, index, (n - 1) as nat);
        lemma_grows_twice(st, before, emit(before, command, params, index, false), index);
    }
}

/// The headers only add records of their line.
proof fn lemma_headers_grow(st: ScanView, line: Seq<char>, index: nat)
    ensures
        grows(st, headers(st, line, index), index),
{
}

/// The statements only add records of their line.
proof fn lemma_statements_grow(st: ScanView, line: Seq<char>, index: nat)
    ensures
        grows(st, statements(st, line, index), index),
{
    let s1 = emit_found(st, "puts"@, text_argument(line), index, true);
    let s2 = bare_puts(s1, line, index);
    let s3 = emit_found(s2, "puts"@, json_argument(line), index, true);
    let s4 = emit_found(s3, "sleep"@, sleep_argument(line), index, false);
    let s5 = emit_times(s4, "Dir.pwd"@, Seq::<char>::empty(), index, pwd_count(line));
    let s6 = emit_found(s5, "Dir.chdir"@, path_argument(line, "Dir.chdir"@), index, false);
    let s7 = emit_found(s6, "sh"@, shell_argument(line), index, false);
    let s8 = emit_found(s7, "sh"@, ruby_argument(line), index, false);
    let s9 = emit_found(s8, "File.delete"@, path_argument(line, "File.delete"@), index, false);
    let s10 = emit_found(s9, "FileUtils.copy"@, copy_arguments(line), index, false);
    lemma_emit_times_grows(s1, "puts"@, Seq::<char>::empty(), index, puts_count(line));
    lemma_emit_times_grows(s4, "Dir.pwd"@, Seq::<char>::empty(), index, pwd_count(line));
    lemma_grows_twice(st, s1, s2, index);
    lemma_grows_twice(st, s2, s3, index);
    lemma_grows_twice(st, s3, s4, index);
    lemma_grows_twice(st, s4, s5, index);
    lemma_grows_twice(st, s5, s6, index);
    lemma_grows_twice(st, s6, s7, index);
    lemma_grows_twice(st, s7, s8, index);
    lemma_grows_twice(st, s8, s9, index);
    lemma_grows_twice(st, s9, s10, index);
}

/// A line never takes back what was gathered: the variables and the
/// records of the state before it stay where they are, no struct type is
/// dropped, and every record that the line adds carries the line's index.
pub proof fn lemma_scan_line_grows(
    st: ScanView,
    line: Seq<char>,
    index: nat,
    platform_recognized: bool,
)
    ensures
        grows(st, scan_line(st, line, index, platform_recognized), index),
{
    if is_comment(line) || is_block_end(line) {
    } else {
        let declared = instantiate_struct(assign_variable(declare_struct(st, line), line), line);
        assert(grows(st, declared, index));
        if is_ignored_header(line) {
            let muted = ScanView { muted: true, ..declared };
            lemma_headers_grow(muted, line, index);
            lemma_grows_twice(st, muted, headers(muted, line, index), index);
        } else {
            let headed = headers(declared, line, index);
            lemma_headers_grow(declared, line, index);
            lemma_statements_grow(headed, line, index);
            lemma_grows_twice(st, declared, headed, index);
            lemma_grows_twice(st, headed, statements(headed, line, index), index);
        }
    }
}

/// The records stand in file order: after the first `n` lines, every
/// record comes from one of these lines, and no record comes from an earlier
/// line than a record before it.
pub proof fn lemma_records_in_file_order(lines: Seq<Seq<char>>, n: int, platform_recognized: bool)
    requires
        0 <= n,
    ensures
        forall|i: int|
            0 <= i < scan_lines(lines, n, platform_recognized).tasks.len() ==> (
            #[trigger] scan_lines(lines, n, platform_recognized).tasks[i]).line < n,
        forall|i: int, j: int|
            0 <= i <= j < scan_lines(lines, n, platform_recognized).tasks.len() ==> (
            #[trigger] scan_lines(lines, n, platform_recognized).tasks[i]).line <= (
            #[trigger] scan_lines(lines, n, platform_recognized).tasks[j]).line,
    decreases n,
{
    if n > 0 {
        lemma_records_in_file_order(lines, n - 1, platform_recognized);
        let before = scan_lines(lines, n - 1, platform_recognized);
        let after = scan_lines(lines, n, platform_recognized);
        lemma_scan_line_grows(before, lines[n - 1], (n - 1) as nat, platform_recognized);
        assert forall|i: int| 0 <= i < after.tasks.len() implies (#[trigger] after.tasks[i]).line
            < n by {
            if i < before.tasks.len() {
                assert(after.tasks[i] == before.tasks[i]);
            }
        }
        assert forall|i: int, j: int| 0 <= i <= j < after.tasks.len() implies (
        #[trigger] after.tasks[i]).line <= (#[trigger] after.tasks[j]).line by {
            if j < before.tasks.len() {
                assert(after.tasks[i] == before.tasks[i]);
                assert(after.tasks[j] == before.tasks[j]);
            } else if i < before.tasks.len() {
                assert(after.tasks[i] == before.tasks[i]);
            }
        }
    }
}

/// Executable form of [`has_key`].
pub fn key_known(variables: &Vec<Variable>, key: &Vec<char>) -> (r: bool)
    ensures
        r == has_key(variables.deep_view(), key@),
{
    let mut i: usize = 0;
    while i < variables.len()
        invariant
            i <= variables.len(),
            forall|k: int| 0 <= k < i ==> (#[trigger] variables.deep_view()[k]).key != key@,
        decreases variables.len() - i,
    {
        let found = chars_of(variables[i].get_key().as_str());
        if same_chars(&found, key) {
            assert(variables.deep_view()[i as int].key == key@);
            return true;
        }
        i += 1;
    }
    false
}

/// Executable form of [`has_type`].
pub fn type_known(structs: &Vec<Struct>, name: &Vec<char>) -> (r: bool)
    ensures
        r == has_type(structs.deep_view(), name@),
{
    let mut i: usize = 0;
    while i < structs.len()
        invariant
            i <= structs.len(),
            forall|k: int| 0 <= k < i ==> (#[trigger] structs.deep_view()[k]).name != name@,
        decreases structs.len() - i,
    {
        let found = chars_of(structs[i].get_name());
        if same_chars(&found, name) {
            assert(structs.deep_view()[i as int].name == name@);
            return true;
        }
        i += 1;
    }
    false
}

/// Executable form of [`bind`].
pub fn bound_structs(
    structs: &Vec<Struct>,
    name: &Vec<char>,
    variable: &Vec<char>,
    values: &Vec<String>,
) -> (r: Vec<Struct>)
    ensures
        r.deep_view() == bind(structs.deep_view(), name@, variable@, values.deep_view()),
{
    let ghost model = bind(structs.deep_view(), name@, variable@, values.deep_view());
    let bound_to = string_of(variable);
    let mut r: Vec<Struct> = Vec::new();
    let mut i: usize = 0;
    while i < structs.len()
        invariant
            i <= structs.len(),
            bound_to@ == variable@,
            model == bind(structs.deep_view(), name@, variable@, values.deep_view()),
            r.deep_view() == model.take(i as int),
        decreases structs.len() - i,
    {
        let mut next = structs[i].clone();
        assert(next@ == structs.deep_view()[i as int]);
        let found = chars_of(next.get_name());
        if same_chars(&found, name) {
            next.set_variable(bound_to.as_str());
            next.set_values(crate::rstruct::copy_strings(values));
        }
        assert(next@ == model[i as int]);
        let ghost before = r.deep_view();
        r.push(next);
        assert(r.deep_view() =~= before.push(model[i as int]));
        i += 1;
    }
    assert(model.take(structs.len() as int) == model);
    r
}

/// The state of a pass over a task file, and after the last line its
/// result.
pub struct Scanner {
    name: String,
    depends: String,
    in_block: bool,
    muted: bool,
    after_text: bool,
    variables: Vec<Variable>,
    structs: Vec<Struct>,
    tasks: Vec<Task>,
}

impl View for Scanner {
    type V = ScanView;

    closed spec fn view(&self) -> ScanView {
        ScanView {
            name: self.name@,
            depends: self.depends@,
            in_block: self.in_block,
            muted: self.muted,
            after_text: self.after_text,
            variables: self.variables.deep_view(),
            structs: self.structs.deep_view(),
            tasks: self.tasks.deep_view(),
        }
    }
}

impl Scanner {
    /// The state before the first line.
    pub fn new() -> (r: Scanner)
        ensures
            r@ == initial_state(),
    {
        let r = Scanner {
            name: String::new(),
            depends: String::new(),
            in_block: false,
            muted: false,
            after_text: false,
            variables: Vec::new(),
            structs: Vec::new(),
            tasks: Vec::new(),
        };
        assert(r.variables.deep_view() =~= Seq::<VariableView>::empty());
        assert(r.structs.deep_view() =~= Seq::<StructView>::empty());
        assert(r.tasks.deep_view() =~= Seq::<TaskView>::empty());
        r
    }

    /// The variables gathered, in file order.
    pub fn variables(&self) -> (r: &Vec<Variable>)
        ensures
            r.deep_view() == self@.variables,
    {
        &self.variables
    }

    /// The struct types gathered, in file order.
    pub fn structs(&self) -> (r: &Vec<Struct>)
        ensures
            r.deep_view() == self@.structs,
    {
        &self.structs
    }

    /// The task records gathered, in file order.
    pub fn tasks(&self) -> (r: &Vec<Task>)
        ensures
            r.deep_view() == self@.tasks,
    {
        &self.tasks
    }

    fn declare(&mut self, line: &Vec<char>)
        ensures
            final(self)@ == declare_struct(old(self)@, line@),
    {
        match find_struct_declaration(line) {
            Some(found) => {
                let (name, list) = found;
                if !type_known(&self.structs, &name) || self.in_block {
                    let fields = items_of(&list);
                    let ghost before = self.structs.deep_view();
                    let declared = Struct::new(string_of(&name).as_str(), fields);
                    self.structs.push(declared);
                    assert(self.structs.deep_view() =~= before.push(declared@));
                }
            },
            None => {},
        }
    }

    fn assign(&mut self, line: &Vec<char>)
        ensures
            final(self)@ == assign_variable(old(self)@, line@),
    {
        match find_variable_assignment(line) {
            Some(found) => {
                let (key, value) = found;
                if !key_known(&self.variables, &key) || self.in_block {
                    let ghost before = self.variables.deep_view();
                    let assigned = Variable::new(
                        string_of(&key).as_str(),
                        string_of(&value).as_str(),
                    );
                    self.variables.push(assigned);
                    assert(self.variables.deep_view() =~= before.push(assigned@));
                }
            },
            None => {},
        }
    }

    fn instantiate(&mut self, line: &Vec<char>)
        ensures
            final(self)@ == instantiate_struct(old(self)@, line@),
    {
        match find_struct_instantiation(line) {
            Some(found) => {
                let (variable, name, list) = found;
                if type_known(&self.structs, &name) {
                    let values = items_of(&list);
                    self.structs = bound_structs(&self.structs, &name, &variable, &values);
                    if !key_known(&self.variables, &variable) {
                        let ghost before = self.variables.deep_view();
                        let marked = Variable::new(string_of(&variable).as_str(), "[Struct]");
                        self.variables.push(marked);
                        assert(self.variables.deep_view() =~= before.push(marked@));
                    }
                }
            },
            None => {},
        }
    }

    fn emit(&mut self, command: &str, params: &Vec<char>, index: usize, with_text: bool)
        ensures
            final(self)@ == emit(old(self)@, command@, params@, index as nat, with_text),
    {
        if !self.muted {
            let ghost before = self.tasks.deep_view();
            let record = Task::new(
                self.name.as_str(),
                self.depends.as_str(),
                command,
                string_of(params).as_str(),
                index,
            );
            self.tasks.push(record);
            assert(self.tasks.deep_view() =~= before.push(record@));
            self.after_text = with_text;
        }
    }

    fn emit_times(&mut self, command: &str, index: usize, n: usize)
        ensures
            final(self)@ == emit_times(
                old(self)@,
                command@,
                Seq::<char>::empty(),
                index as nat,
                n as nat,
            ),
    {
        let ghost start = self@;
        let nothing: Vec<char> = Vec::new();
        let mut k: usize = 0;
        while k < n
            invariant
                k <= n,
                nothing@ == Seq::<char>::empty(),
                self@ == emit_times(start, command@, Seq::<char>::empty(), index as nat, k as nat),
            decreases n - k,
        {
            self.emit(command, &nothing, index, false);
            k += 1;
        }
    }

    fn emit_found(&mut self, command: &str, found: Option<Vec<char>>, index: usize, with_text: bool)
        ensures
            final(self)@ == emit_found(
                old(self)@,
                command@,
                match found {
                    Some(p) => Some(p@),
                    None => None,
                },
                index as nat,
                with_text,
            ),
    {
        match found {
            Some(params) => self.emit(command, &params, index, with_text),
            None => {},
        }
    }

    fn headers(&mut self, line: &Vec<char>, index: usize)
        ensures
            final(self)@ == headers(old(self)@, line@, index as nat),
    {
        match find_task_header(line) {
            Some(name) => {
                self.name = string_of(&name);
                self.depends = String::new();
            },
            None => {},
        }
        let with_do = chars_of("] do");
        let bare = chars_of("]");
        proof {
            reveal_strlit("] do");
            reveal_strlit("]");
        }
        match find_dependency_header(line, &with_do) {
            Some(found) => {
                let (name, depends) = found;
                self.name = string_of(&name);
                self.depends = string_of(&depends);
            },
            None => {
                match find_dependency_header(line, &bare) {
                    Some(found) => {
                        let (name, depends) = found;
                        self.name = string_of(&name);
                        self.depends = string_of(&depends);
                        let nothing: Vec<char> = Vec::new();
                        proof {
                            reveal_strlit("");
                            assert(""@ =~= Seq::<char>::empty());
                        }
                        self.emit("", &nothing, index, false);
                    },
                    None => {},
                }
            },
        }
    }

    fn statements(&mut self, line: &Vec<char>, index: usize)
        ensures
            final(self)@ == statements(old(self)@, line@, index as nat),
    {
        self.emit_found("puts", find_text_argument(line), index, true);
        if !self.after_text {
            self.emit_times("puts", index, count_puts(line));
        }
        self.emit_found("puts", find_json_argument(line), index, true);
        self.emit_found("sleep", find_sleep_argument(line), index, false);
        self.emit_times("Dir.pwd", index, count_pwd(line));
        self.emit_found("Dir.chdir", find_path_argument(line, "Dir.chdir"), index, false);
        self.emit_found("sh", find_shell_argument(line), index, false);
        self.emit_found("sh", find_ruby_argument(line), index, false);
        self.emit_found("File.delete", find_path_argument(line, "File.delete"), index, false);
        self.emit_found("FileUtils.copy", find_copy_arguments(line), index, false);
    }

    /// Takes the next line of the task file. `index` is the line's index in
    /// the file, from 0. `platform_recognized` says whether the platform that
    /// the pass runs on was identified.
    pub fn feed(&mut self, line: &str, index: usize, platform_recognized: bool)
        ensures
            final(self)@ == scan_line(old(self)@, line@, index as nat, platform_recognized),
    {
        let chars = chars_of(line);
        self.feed_chars(&chars, index, platform_recognized);
    }

    fn feed_chars(&mut self, line: &Vec<char>, index: usize, platform_recognized: bool)
        ensures
            final(self)@ == scan_line(old(self)@, line@, index as nat, platform_recognized),
    {
        if comment(line) {
            return ;
        }
        if block_end(line) {
            self.in_block = false;
            self.muted = false;
            return ;
        }
        self.declare(line);
        self.assign(line);
        self.instantiate(line);
        if ignored_header(line) {
            self.muted = true;
            self.headers(line, index);
        } else {
            self.headers(line, index);
            self.statements(line, index);
            if platform_guard(line) {
                self.in_block = !platform_recognized;
            }
        }
    }
}

/// One pass over the text of a task file. `platform_recognized` says whether
/// the platform that the pass runs on was identified; it decides whether the
/// block behind `if OS.windows? then` lets names be declared again.
pub fn scan(text: &str, platform_recognized: bool) -> (r: Scanner)
    ensures
        r@ == scan_text(text@, platform_recognized),
{
    let chars = chars_of(text);
    let lines = split_on(&chars, '\n');
    let ghost model = split(text@, '\n');
    let mut scanner = Scanner::new();
    let mut i: usize = 0;
    while i < lines.len()
        invariant
            i <= lines.len(),
            views(lines@) == model,
            scanner@ == scan_lines(model, i as int, platform_recognized),
        decreases lines.len() - i,
    {
        assert(lines[i as int]@ == model[i as int]);
        scanner.feed_chars(&lines[i], i, platform_recognized);
        i += 1;
    }
    scanner
}

} // verus!

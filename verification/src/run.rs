//! The executor: the resolved records are turned, one at a time, into
//! effects for a host to perform. The host performs each effect and asks for
//! the next one; after a shell command it hands back the command's exit code.
//! The executor decides what is written, what is run, and when the run ends.

use crate::number::{decimal_text, parse_unit, parsed_unit, write_decimal};
use crate::report::{build_failed, build_failure, FailureView};
use crate::task::{verb_named, Task, TaskView, Verb};
use crate::text::{
    append, chars_of, find_last, last_occurrence, slice, split, split_on, string_of, views,
};
use vstd::prelude::*;

verus! {

/// The options of a run.
#[derive(Clone, Copy, Debug)]
pub struct Options {
    /// Write the text of `puts`, and each shell command before it runs.
    pub verbose: bool,
    /// Write the exit code of each shell command.
    pub exit_codes: bool,
    /// Go on after a shell command that left with a code other than 0.
    pub ignore: bool,
}

/// What an [`Effect`] stands for.
pub enum EffectView {
    Print(Seq<char>),
    Sleep(nat),
    Shell { program: Seq<char>, args: Seq<Seq<char>> },
    PrintWorkingDir,
    ChangeDir(Seq<char>),
    DeleteFile(Seq<char>),
    CopyFile { from: Seq<char>, to: Seq<char> },
    Exit(int),
}

/// What the host is to do next.
#[derive(Debug)]
pub enum Effect {
    /// Write the line to standard output.
    Print(String),
    /// Pause for this many milliseconds.
    Sleep(u32),
    /// Run the program with the arguments in the working directory, wait for
    /// it, and hand its exit code to the next call.
    Shell { program: String, args: Vec<String> },
    /// Write the working directory to standard output.
    PrintWorkingDir,
    /// Make the path the working directory. Where that fails, the run fails.
    ChangeDir(String),
    /// Remove the file if it exists; do nothing where it does not.
    DeleteFile(String),
    /// Copy the first file to the second. Where that fails, the run fails.
    CopyFile { from: String, to: String },
    /// End the process with this exit code.
    Exit(i32),
}

impl View for Effect {
    type V = EffectView;

    open spec fn view(&self) -> EffectView {
        match self {
            Effect::Print(line) => EffectView::Print(line@),
            Effect::Sleep(millis) => EffectView::Sleep(*millis as nat),
            Effect::Shell { program, args } => EffectView::Shell {
                program: program@,
                args: args.deep_view(),
            },
            Effect::PrintWorkingDir => EffectView::PrintWorkingDir,
            Effect::ChangeDir(path) => EffectView::ChangeDir(path@),
            Effect::DeleteFile(path) => EffectView::DeleteFile(path@),
            Effect::CopyFile { from, to } => EffectView::CopyFile { from: from@, to: to@ },
            Effect::Exit(code) => EffectView::Exit(*code as int),
        }
    }
}

impl DeepView for Effect {
    type V = EffectView;

    open spec fn deep_view(&self) -> EffectView {
        self@
    }
}

/// The effects of one record. Text is written only in verbose mode. A
/// shell command is parted at single spaces into a program and its
/// arguments; in verbose mode the command is written before it runs. A copy
/// takes its two paths from before and after the last space of the
/// parameters, and has no effect where there is none. A record without a
/// known command, or with `File.write`, has no effect.
pub open spec fn task_effects(task: TaskView, options: Options) -> Seq<EffectView> {
    match verb_named(task.command) {
        Some(Verb::PrintText) => if options.verbose {
            seq![EffectView::Print(task.params)]
        } else {
            Seq::<EffectView>::empty()
        },
        Some(Verb::SleepMillis) => seq![EffectView::Sleep(parsed_unit(task.params) as nat)],
        Some(Verb::RunShell) => {
            let words = split(task.params, ' ');
            let shell = EffectView::Shell { program: words[0], args: words.drop_first() };
            if options.verbose {
                seq![EffectView::Print(task.params), shell]
            } else {
                seq![shell]
            }
        },
        Some(Verb::PrintWorkingDir) => seq![EffectView::PrintWorkingDir],
        Some(Verb::ChangeWorkingDir) => seq![EffectView::ChangeDir(task.params)],
        Some(Verb::DeleteFile) => seq![EffectView::DeleteFile(task.params)],
        Some(Verb::CopyFile) => match last_occurrence(
            task.params,
            " "@,
            task.params.len() as int,
        ) {
            Some(m) => seq![
                EffectView::CopyFile {
                    from: task.params.subrange(0, m),
                    to: task.params.subrange(m + " "@.len(), task.params.len() as int),
                },
            ],
            None => Seq::<EffectView>::empty(),
        },
        Some(Verb::WriteFile) => Seq::<EffectView>::empty(),
        None => Seq::<EffectView>::empty(),
    }
}

/// Whether a shell command's exit code ends the run: it does where it is
/// not 0 and failures are not ignored.
pub open spec fn shell_failed(code: int, options: Options) -> bool {
    code != 0 && !options.ignore
}

/// The effects that follow a failure: its lines are written, then the
/// process ends with its code.
pub open spec fn failure_effects(failure: FailureView) -> Seq<EffectView> {
    Seq::new(failure.lines.len(), |i: int| EffectView::Print(failure.lines[i])).push(
        EffectView::Exit(failure.code),
    )
}

/// The effects that follow a shell command that left with `code`: the code
/// is written where the options ask for it; then, where the command failed,
/// the failure is written and the process ends with the command's own code.
pub open spec fn shell_effects(
    program: Seq<char>,
    requested: Seq<char>,
    line: nat,
    code: int,
    options: Options,
) -> Seq<EffectView> {
    let report = if options.exit_codes {
        seq![EffectView::Print("Exited with code "@ + decimal_text(code))]
    } else {
        Seq::<EffectView>::empty()
    };
    if shell_failed(code, options) {
        report + failure_effects(build_failed(program, requested, code, line))
    } else {
        report
    }
}

/// The state of a run.
pub struct RunView {
    /// The records to run, in order.
    pub tasks: Seq<TaskView>,
    pub options: Options,
    /// The program's name, for messages.
    pub program: Seq<char>,
    /// The name of the task that was asked for last, for messages.
    pub requested: Seq<char>,
    /// How many records were taken up.
    pub position: nat,
    /// The line of the record that was taken up last.
    pub line: nat,
    /// The effects that are still to be handed out before the next record is
    /// taken up.
    pub pending: Seq<EffectView>,
    /// Whether the effect handed out last was a shell command.
    pub waiting: bool,
}

/// The state at the start of a run.
pub open spec fn start_of_run(
    program: Seq<char>,
    requested: Seq<char>,
    tasks: Seq<TaskView>,
    options: Options,
) -> RunView {
    RunView {
        tasks,
        options,
        program,
        requested,
        position: 0,
        line: 0,
        pending: Seq::<EffectView>::empty(),
        waiting: false,
    }
}

/// Takes the reply of the host. After a shell command, the effects that
/// follow its exit code come before everything else that is pending.
pub open spec fn settle(s: RunView, reply: Option<int>) -> RunView {
    if s.waiting {
        match reply {
            Some(code) => RunView {
                pending: shell_effects(s.program, s.requested, s.line, code, s.options)
                    + s.pending,
                waiting: false,
                ..s
            },
            None => RunView { waiting: false, ..s },
        }
    } else {
        s
    }
}

/// Hands out the next effect. What is pending comes first; then the
/// records are taken up in order; after the last record the process ends with
/// code 0. Once the end of the process was handed out, it is handed out
/// again on every call.
pub open spec fn advance(s: RunView) -> (RunView, EffectView)
    decreases s.tasks.len() - s.position,
{
    if s.pending.len() > 0 {
        if s.pending[0] is Exit {
            (s, s.pending[0])
        } else {
            (
                RunView {
                    pending: s.pending.drop_first(),
                    waiting: s.pending[0] is Shell,
                    ..s
                },
                s.pending[0],
            )
        }
    } else if s.position < s.tasks.len() {
        advance(
            RunView {
                pending: task_effects(s.tasks[s.position as int], s.options),
                position: s.position + 1,
                line: s.tasks[s.position as int].line,
                ..s
            },
        )
    } else {
        (RunView { pending: seq![EffectView::Exit(0)], ..s }, EffectView::Exit(0))
    }
}

/// One step of a run: the reply is taken, and the next effect handed out.
pub open spec fn step(s: RunView, reply: Option<int>) -> (RunView, EffectView) {
    advance(settle(s, reply))
}

/// The steps of a run after a shell command: the step that takes the
/// command's exit code, followed by `k` steps without a reply.
pub open spec fn after_steps(s: RunView, code: int, k: nat) -> (RunView, EffectView)
    decreases k,
{
    if k == 0 {
        step(s, Some(code))
    } else {
        step(after_steps(s, code, (k - 1) as nat).0, None)
    }
}

/// Where a shell command failed, what follows it is a number of lines and
/// then the end of the process with the command's own exit code.
pub proof fn lemma_failure_effects(
    program: Seq<char>,
    requested: Seq<char>,
    line: nat,
    code: int,
    options: Options,
)
    requires
        shell_failed(code, options),
    ensures
        shell_effects(program, requested, line, code, options).len() >= 1,
        shell_effects(program, requested, line, code, options).last() == EffectView::Exit(code),
        forall|i: int|
            0 <= i < shell_effects(program, requested, line, code, options).len() - 1 ==> (
            #[trigger] shell_effects(program, requested, line, code, options)[i]) is Print,
{
}

/// Where a shell command did not fail, or failures are ignored, what
/// follows it is at most the line that reports its exit code: the run goes
/// on.
pub proof fn lemma_success_effects(
    program: Seq<char>,
    requested: Seq<char>,
    line: nat,
    code: int,
    options: Options,
)
    requires
        !shell_failed(code, options),
    ensures
        forall|i: int|
            0 <= i < shell_effects(program, requested, line, code, options).len() ==> (
            #[trigger] shell_effects(program, requested, line, code, options)[i]) is Print,
{
}

/// A failed shell command ends the run: the steps after it hand out the
/// effects that follow the failure, one by one, and so at last the end of the
/// process with the command's own exit code, whatever else was pending and
/// whatever records are left.
pub proof fn lemma_failed_shell_ends_run(s: RunView, code: int, k: nat)
    requires
        s.waiting,
        shell_failed(code, s.options),
        k < shell_effects(s.program, s.requested, s.line, code, s.options).len(),
    ensures
        after_steps(s, code, k).1 == shell_effects(
            s.program,
            s.requested,
            s.line,
            code,
            s.options,
        )[k as int],
        after_steps(
            s,
            code,
            (shell_effects(s.program, s.requested, s.line, code, s.options).len() - 1) as nat,
        ).1 == EffectView::Exit(code),
{
    let follow = shell_effects(s.program, s.requested, s.line, code, s.options);
    lemma_failure_effects(s.program, s.requested, s.line, code, s.options);
    lemma_steps_after_failure(s, code, k);
    lemma_steps_after_failure(s, code, (follow.len() - 1) as nat);
}

/// The state and the effect of each step after a failed shell command.
proof fn lemma_steps_after_failure(s: RunView, code: int, k: nat)
    requires
        s.waiting,
        shell_failed(code, s.options),
        k < shell_effects(s.program, s.requested, s.line, code, s.options).len(),
    ensures
        after_steps(s, code, k).1 == shell_effects(
            s.program,
            s.requested,
            s.line,
            code,
            s.options,
        )[k as int],
        after_steps(s, code, k).0 == (RunView {
            pending: (shell_effects(s.program, s.requested, s.line, code, s.options)
                + s.pending).skip(
                if k + 1 < shell_effects(s.program, s.requested, s.line, code, s.options).len() {
                    k as int + 1
                } else {
                    k as int
                },
            ),
            waiting: false,
            ..s
        }),
    decreases k,
{
    let follow = shell_effects(s.program, s.requested, s.line, code, s.options);
    let queue = follow + s.pending;
    lemma_failure_effects(s.program, s.requested, s.line, code, s.options);
    if k == 0 {
        let settled = settle(s, Some(code));
        assert(settled.pending == queue);
        assert(queue[0] == follow[0]);
        if follow.len() == 1 {
            assert(queue.skip(0) =~= queue);
        } else {
            assert(follow[0] is Print);
            assert(queue.drop_first() =~= queue.skip(1));
        }
    } else {
        lemma_steps_after_failure(s, code, (k - 1) as nat);
        let before = after_steps(s, code, (k - 1) as nat).0;
        assert(before.pending == queue.skip(k as int));
        assert(before.pending[0] == follow[k as int]);
        assert(settle(before, None) == before);
        if k + 1 < follow.len() {
            assert(follow[k as int] is Print);
            assert(before.pending.drop_first() =~= queue.skip(k as int + 1));
        }
    }
}

/// After the last record the process ends with code 0: where nothing is
/// pending and no record is left, the next effect is the end of the process
/// with code 0.
pub proof fn lemma_run_ends_with_zero(s: RunView, reply: Option<int>)
    requires
        !s.waiting,
        s.pending.len() == 0,
        s.position >= s.tasks.len(),
    ensures
        step(s, reply).1 == EffectView::Exit(0),
{
}

/// The end of the process is final: once it was handed out, every further
/// step hands it out again and leaves the state as it is.
pub proof fn lemma_exit_is_final(s: RunView, reply: Option<int>, again: Option<int>)
    requires
        step(s, reply).1 is Exit,
    ensures
        step(step(s, reply).0, again) == step(s, reply),
{
    lemma_exit_stays(settle(s, reply));
}

/// The state that hands out the end of the process holds it as the first
/// pending effect and waits for no reply.
proof fn lemma_exit_stays(s: RunView)
    requires
        !s.waiting,
        advance(s).1 is Exit,
    ensures
        !advance(s).0.waiting,
        advance(s).0.pending.len() > 0,
        advance(s).0.pending[0] == advance(s).1,
        advance(advance(s).0) == advance(s),
    decreases s.tasks.len() - s.position,
{
    if s.pending.len() > 0 {
    } else if s.position < s.tasks.len() {
        lemma_exit_stays(
            RunView {
                pending: task_effects(s.tasks[s.position as int], s.options),
                position: s.position + 1,
                line: s.tasks[s.position as int].line,
                ..s
            },
        );
    } else {
    }
}

/// Executable form of [`task_effects`].
pub fn effects_of(task: &Task, options: &Options) -> (r: Vec<Effect>)
    ensures
        r.deep_view() == task_effects(task@, *options),
{
    let mut r: Vec<Effect> = Vec::new();
    assert(r.deep_view() =~= Seq::<EffectView>::empty());
    match task.verb() {
        Some(Verb::PrintText) => {
            if options.verbose {
                r.push(Effect::Print(task.get_params().to_owned()));
                assert(r.deep_view() =~= seq![EffectView::Print(task@.params)]);
            }
        },
        Some(Verb::SleepMillis) => {
            let millis = parse_unit(task.get_params());
            r.push(Effect::Sleep(millis as u32));
            assert(r.deep_view() =~= seq![EffectView::Sleep(parsed_unit(task@.params) as nat)]);
        },
        Some(Verb::RunShell) => {
            let words = split_on(&chars_of(task.get_params()), ' ');
            proof {
                crate::text::lemma_split_nonempty(task@.params, ' ');
            }
            let ghost model = split(task@.params, ' ');
            let program = string_of(&words[0]);
            assert(program@ == model[0]);
            let mut args: Vec<String> = Vec::new();
            let mut i: usize = 1;
            assert(args.deep_view() =~= model.drop_first().take(0));
            while i < words.len()
                invariant
                    1 <= i <= words.len(),
                    views(words@) == model,
                    args.deep_view() == model.drop_first().take(i - 1),
                decreases words.len() - i,
            {
                let ghost before = args.deep_view();
                args.push(string_of(&words[i]));
                assert(args.deep_view() =~= before.push(model[i as int]));
                assert(model.drop_first().take(i as int) =~= before.push(model[i as int]));
                i += 1;
            }
            assert(model.drop_first().take(words.len() - 1) =~= model.drop_first());
            if options.verbose {
                r.push(Effect::Print(task.get_params().to_owned()));
            }
            r.push(Effect::Shell { program, args });
            assert(r.deep_view() =~= task_effects(task@, *options));
        },
        Some(Verb::PrintWorkingDir) => {
            r.push(Effect::PrintWorkingDir);
            assert(r.deep_view() =~= seq![EffectView::PrintWorkingDir]);
        },
        Some(Verb::ChangeWorkingDir) => {
            r.push(Effect::ChangeDir(task.get_params().to_owned()));
            assert(r.deep_view() =~= seq![EffectView::ChangeDir(task@.params)]);
        },
        Some(Verb::DeleteFile) => {
            r.push(Effect::DeleteFile(task.get_params().to_owned()));
            assert(r.deep_view() =~= seq![EffectView::DeleteFile(task@.params)]);
        },
        Some(Verb::CopyFile) => {
            let params = chars_of(task.get_params());
            let space = chars_of(" ");
            match find_last(&params, &space, params.len()) {
                Some(m) => {
                    let from = string_of(&slice(&params, 0, m));
                    let to = string_of(&slice(&params, m + space.len(), params.len()));
                    r.push(Effect::CopyFile { from, to });
                    assert(r.deep_view() =~= task_effects(task@, *options));
                },
                None => {},
            }
        },
        Some(Verb::WriteFile) => {},
        None => {},
    }
    r
}

/// Executable form of [`shell_effects`].
pub fn after_shell(program: &str, requested: &str, line: usize, code: i32, options: &Options) -> (r:
    Vec<Effect>)
    ensures
        r.deep_view() == shell_effects(
            program@,
            requested@,
            line as nat,
            code as int,
            *options,
        ),
{
    let mut r: Vec<Effect> = Vec::new();
    assert(r.deep_view() =~= Seq::<EffectView>::empty());
    if options.exit_codes {
        let mut report = chars_of("Exited with code ");
        append(&mut report, &write_decimal(code as i64));
        r.push(Effect::Print(string_of(&report)));
        assert(r.deep_view() =~= seq![
            EffectView::Print("Exited with code "@ + decimal_text(code as int)),
        ]);
    }
    if code != 0 && !options.ignore {
        let failure = build_failure(program, requested, code, line);
        let ghost report = r.deep_view();
        let ghost model = failure_effects(failure@);
        let mut i: usize = 0;
        assert(r.deep_view() =~= report + model.take(0));
        while i < failure.lines.len()
            invariant
                i <= failure.lines.len(),
                model == failure_effects(failure@),
                r.deep_view() == report + model.take(i as int),
            decreases failure.lines.len() - i,
        {
            let ghost before = r.deep_view();
            r.push(Effect::Print(failure.lines[i].clone()));
            assert(model[i as int] == EffectView::Print(failure@.lines[i as int]));
            assert(r.deep_view() =~= before.push(model[i as int]));
            assert(report + model.take(i + 1) =~= before.push(model[i as int]));
            i += 1;
        }
        let ghost before = r.deep_view();
        r.push(Effect::Exit(failure.code));
        assert(r.deep_view() =~= before.push(EffectView::Exit(failure@.code)));
        assert(report + model =~= before.push(EffectView::Exit(failure@.code)));
    }
    r
}

/// A run: the records that are to run, and how far the run has come.
pub struct Run {
    tasks: Vec<Task>,
    options: Options,
    program: String,
    requested: String,
    position: usize,
    line: usize,
    pending: Vec<Effect>,
    waiting: bool,
}

impl View for Run {
    type V = RunView;

    closed spec fn view(&self) -> RunView {
        RunView {
            tasks: self.tasks.deep_view(),
            options: self.options,
            program: self.program@,
            requested: self.requested@,
            position: self.position as nat,
            line: self.line as nat,
            pending: self.pending.deep_view(),
            waiting: self.waiting,
        }
    }
}

impl Run {
    /// A run of the given records. `program` is the program's name and
    /// `requested` the name of the task that was asked for last; both are
    /// used in messages only.
    pub fn new(program: &str, requested: &str, tasks: Vec<Task>, options: Options) -> (r: Run)
        ensures
            r@ == start_of_run(program@, requested@, tasks.deep_view(), options),
    {
        let pending: Vec<Effect> = Vec::new();
        assert(pending.deep_view() =~= Seq::<EffectView>::empty());
        Run {
            tasks,
            options,
            program: program.to_owned(),
            requested: requested.to_owned(),
            position: 0,
            line: 0,
            pending,
            waiting: false,
        }
    }

    /// The next effect for the host to perform. `reply` is the exit code of
    /// the shell command, where the effect handed out last was one; it is not
    /// looked at otherwise.
    pub fn next(&mut self, reply: Option<i32>) -> (r: Effect)
        ensures
            (final(self)@, r@) == step(
                old(self)@,
                match reply {
                    Some(code) => Some(code as int),
                    None => None,
                },
            ),
    {
        if self.waiting {
            self.waiting = false;
            match reply {
                Some(code) => {
                    let mut first = after_shell(
                        self.program.as_str(),
                        self.requested.as_str(),
                        self.line,
                        code,
                        &self.options,
                    );
                    let ghost head = first.deep_view();
                    let ghost tail = self.pending.deep_view();
                    first.append(&mut self.pending);
                    assert(first.deep_view() =~= head + tail);
                    self.pending = first;
                },
                None => {},
            }
        }
        let ghost answer: Option<int> = match reply {
            Some(code) => Some(code as int),
            None => None,
        };
        assert(self@ == settle(old(self)@, answer));
        loop
            invariant
                advance(self@) == step(old(self)@, answer),
                answer == match reply {
                    Some(code) => Some(code as int),
                    None => None,
                },
            decreases self.tasks.len() - self.position,
        {
            if self.pending.len() > 0 {
                assert(self.pending.deep_view()[0] == self.pending[0]@);
                match &self.pending[0] {
                    Effect::Exit(code) => {
                        return Effect::Exit(*code);
                    },
                    _ => {},
                }
                let ghost before = self.pending.deep_view();
                let effect = self.pending.remove(0);
                assert(self.pending.deep_view() =~= before.drop_first());
                self.waiting = match &effect {
                    Effect::Shell { .. } => true,
                    _ => false,
                };
                return effect;
            } else if self.position < self.tasks.len() {
                assert(self.tasks.deep_view()[self.position as int] == self.tasks[self.position as int]@);
                self.pending = effects_of(&self.tasks[self.position], &self.options);
                self.line = self.tasks[self.position].get_line();
                self.position += 1;
            } else {
                let ghost before = self.pending.deep_view();
                self.pending.push(Effect::Exit(0));
                assert(self.pending.deep_view() =~= seq![EffectView::Exit(0)]);
                return Effect::Exit(0);
            }
        }
    }
}

} // verus!

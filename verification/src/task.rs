//! Task records: one command statement of a task body, together with the
//! name and the dependency of the task it belongs to.

use crate::text::same_text;
use vstd::prelude::*;

verus! {

/// What a [`Task`] stands for.
pub struct TaskView {
    /// Name of the task that the record belongs to.
    pub name: Seq<char>,
    /// Name of the task it depends on; empty where it depends on none.
    pub depends: Seq<char>,
    /// The command word; empty for a record that only declares a dependency.
    pub command: Seq<char>,
    /// The command's parameters, as one string.
    pub params: Seq<char>,
    /// Index of the line of the task file that gave the record, from 0.
    pub line: nat,
}

/// The commands that a record can hold.
#[derive(Clone, Copy, Debug, PartialEq, Eq, Structural)]
pub enum Verb {
    /// `puts`: write the parameters to standard output.
    PrintText,
    /// `sh`: run the parameters as a command line.
    RunShell,
    /// `sleep`: pause for the number of milliseconds in the parameters.
    SleepMillis,
    /// `Dir.pwd`: write the working directory to standard output.
    PrintWorkingDir,
    /// `Dir.chdir`: make the parameters the working directory.
    ChangeWorkingDir,
    /// `File.delete`: remove the file that the parameters name.
    DeleteFile,
    /// `FileUtils.copy`: copy the first file of the parameters to the second.
    CopyFile,
    /// `File.write`: kept for later use; it has no effect.
    WriteFile,
}

/// The verb that a command word names, if it names one.
pub open spec fn verb_named(command: Seq<char>) -> Option<Verb> {
    if command == "puts"@ {
        Some(Verb::PrintText)
    } else if command == "sh"@ {
        Some(Verb::RunShell)
    } else if command == "sleep"@ {
        Some(Verb::SleepMillis)
    } else if command == "Dir.pwd"@ {
        Some(Verb::PrintWorkingDir)
    } else if command == "Dir.chdir"@ {
        Some(Verb::ChangeWorkingDir)
    } else if command == "File.delete"@ {
        Some(Verb::DeleteFile)
    } else if command == "FileUtils.copy"@ {
        Some(Verb::CopyFile)
    } else if command == "File.write"@ {
        Some(Verb::WriteFile)
    } else {
        None
    }
}

/// One command record.
#[derive(Debug)]
pub struct Task {
    name: String,
    depends: String,
    command: String,
    params: String,
    line: usize,
}

impl View for Task {
    type V = TaskView;

    closed spec fn view(&self) -> TaskView {
        TaskView {
            name: self.name@,
            depends: self.depends@,
            command: self.command@,
            params: self.params@,
            line: self.line as nat,
        }
    }
}

impl DeepView for Task {
    type V = TaskView;

    open spec fn deep_view(&self) -> TaskView {
        self@
    }
}

impl Clone for Task {
    fn clone(&self) -> (r: Self)
        ensures
            r == *self,
    {
        Task {
            name: self.name.clone(),
            depends: self.depends.clone(),
            command: self.command.clone(),
            params: self.params.clone(),
            line: self.line,
        }
    }
}

impl Task {
    /// A record with the given parts.
    pub fn new(name: &str, depends: &str, command: &str, params: &str, line: usize) -> (r: Task)
        ensures
            r@ == (TaskView {
                name: name@,
                depends: depends@,
                command: command@,
                params: params@,
                line: line as nat,
            }),
    {
        Task {
            name: name.to_owned(),
            depends: depends.to_owned(),
            command: command.to_owned(),
            params: params.to_owned(),
            line,
        }
    }

    /// Name of the task that the record belongs to.
    pub fn get_name(&self) -> (r: &str)
        ensures
            r@ == self@.name,
    {
        self.name.as_str()
    }

    /// Name of the task it depends on; empty where it depends on none.
    pub fn get_depends(&self) -> (r: &str)
        ensures
            r@ == self@.depends,
    {
        self.depends.as_str()
    }

    /// The command word.
    pub fn get_command(&self) -> (r: &str)
        ensures
            r@ == self@.command,
    {
        self.command.as_str()
    }

    /// The command's parameters.
    pub fn get_params(&self) -> (r: &str)
        ensures
            r@ == self@.params,
    {
        self.params.as_str()
    }

    /// The verb that the command word names; `None` for a record without a
    /// command and for an unknown word.
    pub fn verb(&self) -> (r: Option<Verb>)
        ensures
            r == verb_named(self@.command),
    {
        let command = self.command.as_str();
        if same_text(command, "puts") {
            Some(Verb::PrintText)
        } else if same_text(command, "sh") {
            Some(Verb::RunShell)
        } else if same_text(command, "sleep") {
            Some(Verb::SleepMillis)
        } else if same_text(command, "Dir.pwd") {
            Some(Verb::PrintWorkingDir)
        } else if same_text(command, "Dir.chdir") {
            Some(Verb::ChangeWorkingDir)
        } else if same_text(command, "File.delete") {
            Some(Verb::DeleteFile)
        } else if same_text(command, "FileUtils.copy") {
            Some(Verb::CopyFile)
        } else if same_text(command, "File.write") {
            Some(Verb::WriteFile)
        } else {
            None
        }
    }

    /// Index of the line that gave the record, from 0.
    pub fn get_line(&self) -> (r: usize)
        ensures
            r == self@.line,
    {
        self.line
    }
}

} // verus!

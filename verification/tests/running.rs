use rrake::names::{is_found, keep_task_words, parse_tasks, validate_extension, validate_rakefile};
use rrake::plan::plan;
use rrake::run::{after_shell, effects_of, Effect, Options, Run};
use rrake::task::Task;

fn quiet() -> Options {
    Options { verbose: false, exit_codes: false, ignore: false }
}

fn verbose() -> Options {
    Options { verbose: true, exit_codes: false, ignore: false }
}

fn show(e: &Effect) -> String {
    match e {
        Effect::Print(line) => format!("print {}", line),
        Effect::Sleep(ms) => format!("sleep {}", ms),
        Effect::Shell { program, args } => format!("shell {} {:?}", program, args),
        Effect::PrintWorkingDir => "pwd".to_string(),
        Effect::ChangeDir(path) => format!("chdir {}", path),
        Effect::DeleteFile(path) => format!("delete {}", path),
        Effect::CopyFile { from, to } => format!("copy {} -> {}", from, to),
        Effect::Exit(code) => format!("exit {}", code),
    }
}

fn effects(command: &str, params: &str, options: &Options) -> Vec<String> {
    effects_of(&Task::new("t", "", command, params, 0), options).iter().map(show).collect()
}

fn names(items: &[&str]) -> Vec<String> {
    items.iter().map(|s| s.to_string()).collect()
}

/// Runs to the end, answering every shell command with the next code.
fn trace(run: &mut Run, codes: &[i32]) -> Vec<String> {
    let mut out = Vec::new();
    let mut next_code = 0;
    let mut reply = None;
    for _ in 0..100 {
        let effect = run.next(reply);
        reply = None;
        out.push(show(&effect));
        match effect {
            Effect::Exit(_) => return out,
            Effect::Shell { .. } => {
                reply = Some(codes[next_code]);
                next_code += 1;
            }
            _ => {}
        }
    }
    panic!("the run did not end");
}

#[test]
fn text_is_printed_in_verbose_mode_only() {
    assert_eq!(effects("puts", "hello", &verbose()), vec!["print hello"]);
    assert_eq!(effects("puts", "hello", &quiet()), Vec::<String>::new());
    assert_eq!(effects("puts", "", &verbose()), vec!["print "]);
}

#[test]
fn sleep_takes_its_milliseconds_from_the_parameters() {
    assert_eq!(effects("sleep", "250", &quiet()), vec!["sleep 250"]);
    assert_eq!(effects("sleep", "abc", &quiet()), vec!["sleep 0"]);
    assert_eq!(effects("sleep", "-5", &quiet()), vec!["sleep 0"]);
    assert_eq!(effects("sleep", "", &quiet()), vec!["sleep 0"]);
}

#[test]
fn shell_command_is_parted_at_spaces() {
    assert_eq!(effects("sh", "ls -l /tmp", &quiet()), vec!["shell ls [\"-l\", \"/tmp\"]"]);
    assert_eq!(effects("sh", "make", &quiet()), vec!["shell make []"]);
    assert_eq!(effects("sh", "a  b", &quiet()), vec!["shell a [\"\", \"b\"]"]);
    assert_eq!(effects("sh", "", &quiet()), vec!["shell  []"]);
}

#[test]
fn shell_command_is_echoed_in_verbose_mode() {
    assert_eq!(effects("sh", "ls -l", &verbose()), vec!["print ls -l", "shell ls [\"-l\"]"]);
}

#[test]
fn substituted_value_with_spaces_becomes_several_arguments() {
    let text = "dir = \"My Documents\"\ntask :t do\n  sh \"ls #{dir}\"\nend";
    let tasks = plan(text, &names(&["t"]), true).unwrap();
    let got: Vec<String> = effects_of(&tasks[0], &quiet()).iter().map(show).collect();
    assert_eq!(got, vec!["shell ls [\"My\", \"Documents\"]"]);
}

#[test]
fn directory_and_file_commands() {
    assert_eq!(effects("Dir.pwd", "", &quiet()), vec!["pwd"]);
    assert_eq!(effects("Dir.chdir", "/tmp/x y", &quiet()), vec!["chdir /tmp/x y"]);
    assert_eq!(effects("File.delete", "a.txt", &quiet()), vec!["delete a.txt"]);
    assert_eq!(effects("FileUtils.copy", "a.txt b.txt", &quiet()), vec!["copy a.txt -> b.txt"]);
    assert_eq!(effects("FileUtils.copy", "a b c", &quiet()), vec!["copy a b -> c"]);
    assert_eq!(effects("FileUtils.copy", "alone", &quiet()), Vec::<String>::new());
    assert_eq!(effects("FileUtils.copy", "", &quiet()), Vec::<String>::new());
}

#[test]
fn reserved_and_unknown_commands_have_no_effect() {
    assert_eq!(effects("File.write", "file", &verbose()), Vec::<String>::new());
    assert_eq!(effects("", "", &verbose()), Vec::<String>::new());
    assert_eq!(effects("rm", "x", &verbose()), Vec::<String>::new());
}

#[test]
fn failed_shell_command_ends_the_run_with_its_code() {
    let got: Vec<String> = after_shell("rrake", "build", 14, 2, &quiet()).iter().map(show).collect();
    assert_eq!(
        got,
        vec![
            "print rrake aborted!",
            "print Failed to build task 'build' at line 14",
            "print Exited with code: 2",
            "exit 2",
        ]
    );
}

#[test]
fn ignored_failure_has_no_effect() {
    let ignore = Options { verbose: false, exit_codes: false, ignore: true };
    assert_eq!(after_shell("rrake", "build", 14, 2, &ignore).len(), 0);
    assert_eq!(after_shell("rrake", "build", 14, 0, &quiet()).len(), 0);
}

#[test]
fn exit_code_is_reported_where_asked_for() {
    let report = Options { verbose: false, exit_codes: true, ignore: false };
    let got: Vec<String> = after_shell("rrake", "build", 3, 0, &report).iter().map(show).collect();
    assert_eq!(got, vec!["print Exited with code 0"]);
    let got: Vec<String> = after_shell("rrake", "build", 3, 7, &report).iter().map(show).collect();
    assert_eq!(got[0], "print Exited with code 7");
    assert_eq!(got.len(), 5);
    assert_eq!(got[4], "exit 7");
    let both = Options { verbose: false, exit_codes: true, ignore: true };
    let got: Vec<String> = after_shell("rrake", "build", 3, 7, &both).iter().map(show).collect();
    assert_eq!(got, vec!["print Exited with code 7"]);
}

#[test]
fn run_of_nothing_ends_with_zero() {
    let mut run = Run::new("rrake", "t", vec![], quiet());
    assert_eq!(trace(&mut run, &[]), vec!["exit 0"]);
    assert_eq!(show(&run.next(None)), "exit 0");
    assert_eq!(show(&run.next(Some(9))), "exit 0");
}

#[test]
fn run_hands_out_the_effects_in_order() {
    let tasks = vec![
        Task::new("t", "", "puts", "start", 1),
        Task::new("t", "", "sleep", "5", 2),
        Task::new("t", "", "", "", 3),
        Task::new("t", "", "sh", "make all", 4),
        Task::new("t", "", "Dir.pwd", "", 5),
    ];
    let mut run = Run::new("rrake", "t", tasks, verbose());
    assert_eq!(
        trace(&mut run, &[0]),
        vec!["print start", "sleep 5", "print make all", "shell make [\"all\"]", "pwd", "exit 0"]
    );
}

#[test]
fn shell_exit_two_aborts_with_two() {
    let tasks = vec![Task::new("b", "", "sh", "false", 3), Task::new("b", "", "puts", "after", 4)];
    let mut run = Run::new("rrake", "b", tasks, verbose());
    assert_eq!(
        trace(&mut run, &[2]),
        vec![
            "print false",
            "shell false []",
            "print rrake aborted!",
            "print Failed to build task 'b' at line 3",
            "print Exited with code: 2",
            "exit 2",
        ]
    );
    assert_eq!(show(&run.next(None)), "exit 2");
}

#[test]
fn shell_exit_two_is_passed_over_when_failures_are_ignored() {
    let tasks = vec![Task::new("b", "", "sh", "false", 3), Task::new("b", "", "puts", "after", 4)];
    let options = Options { verbose: true, exit_codes: false, ignore: true };
    let mut run = Run::new("rrake", "b", tasks, options);
    assert_eq!(trace(&mut run, &[2]), vec!["print false", "shell false []", "print after", "exit 0"]);
}

#[test]
fn later_failure_still_aborts() {
    let tasks = vec![Task::new("b", "", "sh", "true", 1), Task::new("b", "", "sh", "false", 2)];
    let options = Options { verbose: false, exit_codes: true, ignore: false };
    let mut run = Run::new("rrake", "b", tasks, options);
    assert_eq!(
        trace(&mut run, &[0, 3]),
        vec![
            "shell true []",
            "print Exited with code 0",
            "shell false []",
            "print Exited with code 3",
            "print rrake aborted!",
            "print Failed to build task 'b' at line 2",
            "print Exited with code: 3",
            "exit 3",
        ]
    );
}

#[test]
fn missing_reply_after_a_shell_command_goes_on() {
    let tasks = vec![Task::new("b", "", "sh", "x", 1), Task::new("b", "", "Dir.pwd", "", 2)];
    let mut run = Run::new("rrake", "b", tasks, quiet());
    assert_eq!(show(&run.next(None)), "shell x []");
    assert_eq!(show(&run.next(None)), "pwd");
    assert_eq!(show(&run.next(Some(5))), "exit 0");
}

#[test]
fn delete_is_handed_to_the_host_once_and_the_run_goes_on() {
    let tasks = vec![Task::new("c", "", "File.delete", "no-such-file", 1), Task::new("c", "", "puts", "done", 2)];
    let mut run = Run::new("rrake", "c", tasks, verbose());
    assert_eq!(trace(&mut run, &[]), vec!["delete no-such-file", "print done", "exit 0"]);
}

#[test]
fn hello_task_prints_greeting_and_exits_zero() {
    let text = "greeting = \"hi\"\ntask :hello do\n  puts \"#{greeting} there\"\nend\n";
    let requested = names(&["hello"]);
    let tasks = plan(text, &requested, true).unwrap();
    let mut run = Run::new("rrake", "hello", tasks, verbose());
    assert_eq!(trace(&mut run, &[]), vec!["print hi there", "exit 0"]);
}

#[test]
fn file_names_of_task_files_are_recognised() {
    assert!(validate_extension("Rakefile"));
    assert!(validate_extension("rakefile"));
    assert!(validate_extension("rakefile.rb"));
    assert!(validate_extension("build/Rakefile.rb"));
    assert!(validate_extension("x.rb") == false);
    assert!(validate_extension("zrb"));
    assert!(!validate_extension("Makefile"));
    assert!(!validate_extension("tasks.txt"));
    assert!(!validate_extension(""));
}

#[test]
fn text_with_a_task_header_passes_for_a_task_file() {
    assert!(validate_rakefile("x = 1\ntask :a do\n  puts \"x\"\nend\n"));
    assert!(validate_rakefile("task  do"));
    assert!(!validate_rakefile("task :a\ndo"));
    assert!(!validate_rakefile("puts \"hello\""));
    assert!(!validate_rakefile(""));
}

#[test]
fn words_that_name_the_program_or_a_task_file_are_dropped() {
    let words = names(&["./rrake", "build", "Rakefile", "my.rakefile.rb", "test"]);
    assert_eq!(parse_tasks("./rrake", words), Some(names(&["build", "test"])));
    assert_eq!(parse_tasks("rrake", names(&[])), Some(names(&[])));
    assert_eq!(parse_tasks("rrake", names(&["rrake2", "xrrake", "rake"])), Some(names(&["rake"])));
}

#[test]
fn program_name_is_read_as_a_pattern() {
    assert_eq!(parse_tasks("r.ake", names(&["rxake", "build"])), Some(names(&["build"])));
    assert_eq!(parse_tasks("bin(", names(&["build"])), None);
    assert_eq!(parse_tasks("bin(", names(&[])), Some(names(&[])));
}

#[test]
fn words_are_kept_by_the_answers_given() {
    let words = names(&["a", "b", "c"]);
    assert_eq!(keep_task_words(words.clone(), &vec![Some(false), Some(true), Some(false)]), Some(names(&["a", "c"])));
    assert_eq!(keep_task_words(words.clone(), &vec![Some(true), Some(true), Some(true)]), Some(names(&[])));
    assert_eq!(keep_task_words(words.clone(), &vec![Some(false), None, Some(false)]), None);
    assert_eq!(keep_task_words(words.clone(), &vec![Some(false)]), None);
    assert_eq!(keep_task_words(names(&[]), &vec![]), Some(names(&[])));
    assert!(is_found(Some(true)));
    assert!(!is_found(Some(false)));
    assert!(!is_found(None));
}

use rrake::plan::{load, plan};
use rrake::report::{bad_format_failure, build_failure, no_task_failure, not_found_failure};
use rrake::resolve::resolve;
use rrake::task::Task;

fn names(items: &[&str]) -> Vec<String> {
    items.iter().map(|s| s.to_string()).collect()
}

fn lines(tasks: &Vec<Task>) -> Vec<(String, usize)> {
    tasks.iter().map(|t| (t.get_name().to_string(), t.get_line())).collect()
}

fn at(name: &str, line: usize) -> (String, usize) {
    (name.to_string(), line)
}

fn sample() -> Vec<Task> {
    vec![
        Task::new("clean", "", "sh", "rm a", 1),
        Task::new("clean", "", "sh", "rm b", 2),
        Task::new("build", "clean", "sh", "cc a", 5),
        Task::new("build", "clean", "sh", "cc b", 6),
        Task::new("test", "build", "sh", "run", 9),
    ]
}

#[test]
fn dependency_records_come_before_the_task() {
    let got = resolve(&names(&["build"]), &sample()).unwrap();
    assert_eq!(lines(&got), vec![at("clean", 1), at("clean", 2), at("build", 5), at("build", 6)]);
}

#[test]
fn task_without_dependency_gives_its_own_records() {
    let got = resolve(&names(&["clean"]), &sample()).unwrap();
    assert_eq!(lines(&got), vec![at("clean", 1), at("clean", 2)]);
}

#[test]
fn dependencies_are_followed_one_level_only() {
    let got = resolve(&names(&["test"]), &sample()).unwrap();
    assert_eq!(lines(&got), vec![at("build", 5), at("build", 6), at("test", 9)]);
}

#[test]
fn dependency_line_is_added_once_over_all_requests() {
    let tasks = vec![
        Task::new("init", "", "sh", "i", 0),
        Task::new("a", "init", "sh", "a", 2),
        Task::new("b", "init", "sh", "b", 4),
    ];
    let got = resolve(&names(&["a", "b"]), &tasks).unwrap();
    assert_eq!(lines(&got), vec![at("init", 0), at("a", 2), at("b", 4)]);
}

#[test]
fn requested_records_are_added_every_time() {
    let got = resolve(&names(&["clean", "clean"]), &sample()).unwrap();
    assert_eq!(lines(&got), vec![at("clean", 1), at("clean", 2), at("clean", 1), at("clean", 2)]);
    let got = resolve(&names(&["clean", "build"]), &sample()).unwrap();
    assert_eq!(
        lines(&got),
        vec![at("clean", 1), at("clean", 2), at("clean", 1), at("clean", 2), at("build", 5), at("build", 6)]
    );
}

#[test]
fn records_of_one_line_are_added_once_as_dependencies() {
    let tasks = vec![
        Task::new("dep", "", "puts", "", 3),
        Task::new("dep", "", "puts", "#{x}", 3),
        Task::new("dep", "", "sleep", "1", 4),
        Task::new("top", "dep", "sh", "go", 7),
    ];
    let got = resolve(&names(&["top"]), &tasks).unwrap();
    assert_eq!(lines(&got), vec![at("dep", 3), at("dep", 4), at("top", 7)]);
    assert_eq!(got[0].get_params(), "");
}

#[test]
fn task_that_depends_on_itself_runs_twice() {
    let tasks = vec![Task::new("loop", "loop", "sh", "x", 1)];
    let got = resolve(&names(&["loop"]), &tasks).unwrap();
    assert_eq!(lines(&got), vec![at("loop", 1), at("loop", 1)]);
}

#[test]
fn unknown_dependency_adds_nothing() {
    let tasks = vec![Task::new("a", "ghost", "sh", "x", 1)];
    let got = resolve(&names(&["a"]), &tasks).unwrap();
    assert_eq!(lines(&got), vec![at("a", 1)]);
}

#[test]
fn unknown_task_fails_and_is_named() {
    let failure = resolve(&names(&["deploy"]), &sample()).unwrap_err();
    assert_eq!(failure.task, "deploy");
    let failure = resolve(&names(&["default"]), &vec![]).unwrap_err();
    assert_eq!(failure.task, "default");
}

#[test]
fn last_name_is_reported_when_none_is_known() {
    let failure = resolve(&names(&["x", "y", "z"]), &sample()).unwrap_err();
    assert_eq!(failure.task, "z");
    let failure = resolve(&names(&[]), &sample()).unwrap_err();
    assert_eq!(failure.task, "");
}

#[test]
fn one_known_name_hides_an_unknown_one() {
    let got = resolve(&names(&["nosuch", "clean"]), &sample()).unwrap();
    assert_eq!(lines(&got), vec![at("clean", 1), at("clean", 2)]);
    let got = resolve(&names(&["clean", "nosuch"]), &sample()).unwrap();
    assert_eq!(lines(&got), vec![at("clean", 1), at("clean", 2)]);
}

#[test]
fn record_without_command_makes_a_task_known() {
    let tasks = load("task :all => [:build]\ntask :build do\n  sh \"make\"\nend", true);
    let got = resolve(&names(&["all"]), &tasks).unwrap();
    assert_eq!(lines(&got), vec![at("build", 2), at("all", 0)]);
    assert_eq!(got[1].get_command(), "");
}

#[test]
fn unknown_task_failure_has_code_and_message() {
    let failure = no_task_failure("rrake", "deploy");
    assert_eq!(failure.code, -1);
    assert_eq!(failure.lines, vec!["rrake aborted!", "Don't know how to build task 'deploy'", ""]);
}

#[test]
fn missing_file_failure_lists_the_candidates() {
    let failure = not_found_failure("rrake", &names(&["rakefile", "Rakefile", "rakefile.rb", "Rakefile.rb"]));
    assert_eq!(failure.code, -1);
    assert_eq!(
        failure.lines,
        vec!["rrake aborted!", "No Rakefile found (looking for rakefile, Rakefile, rakefile.rb, Rakefile.rb)", ""]
    );
    assert_eq!(not_found_failure("p", &names(&[])).lines[1], "No Rakefile found (looking for )");
}

#[test]
fn build_failure_carries_the_commands_code() {
    let failure = build_failure("rrake", "build", 2, 14);
    assert_eq!(failure.code, 2);
    assert_eq!(
        failure.lines,
        vec!["rrake aborted!", "Failed to build task 'build' at line 14", "Exited with code: 2"]
    );
    let failure = build_failure("r", "t", -1, 0);
    assert_eq!(failure.code, -1);
    assert_eq!(failure.lines[1], "Failed to build task 't' at line 0");
    assert_eq!(failure.lines[2], "Exited with code: -1");
}

#[test]
fn bad_format_failure_names_the_file() {
    let failure = bad_format_failure("rrake", "notes.txt");
    assert_eq!(failure.code, -1);
    assert_eq!(
        failure.lines,
        vec!["rrake aborted!", "Provided file 'notes.txt' does not seem to be in Rakefile format."]
    );
}

#[test]
fn plan_reads_substitutes_and_resolves() {
    let text = "# sample\ngreeting = \"hi\"\nPoint = Struct.new(:x, :y)\np = Point.new(1, 2)\ntask :clean do\n  sh \"rm -f out\"\nend\ntask :build => [:clean] do\n  puts \"#{greeting} there\"\n  puts p.to_h.to_json\n  sleep 10\nend\n";
    let got = plan(text, &names(&["build"]), true).unwrap();
    let shown: Vec<(String, String, String)> = got
        .iter()
        .map(|t| (t.get_name().to_string(), t.get_command().to_string(), t.get_params().to_string()))
        .collect();
    let row = |a: &str, b: &str, c: &str| (a.to_string(), b.to_string(), c.to_string());
    assert_eq!(
        shown,
        vec![
            row("clean", "sh", "rm -f out"),
            row("build", "puts", "hi there"),
            row("build", "puts", "{\"x\":1,\"y\":2}"),
            row("build", "sleep", "10"),
        ]
    );
    assert_eq!(plan(text, &names(&["deploy"]), true).unwrap_err().task, "deploy");
}

#[test]
fn variable_declared_after_its_use_is_still_substituted() {
    let got = load("task :t do\n  puts \"#{late}\"\nend\nlate = \"ok\"", true);
    assert_eq!(got.len(), 1);
    assert_eq!(got[0].get_params(), "ok");
}

#[test]
fn struct_with_quoted_values_stays_the_quoted_text() {
    let text = "P = Struct.new(:a, :b)\np = P.new(\"1\", \"2\")\ntask :t do\n  puts p.to_h.to_json\nend";
    let got = load(text, true);
    assert_eq!(got.last().unwrap().get_params(), "2");
}

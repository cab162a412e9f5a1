use rrake::scan::{scan, Scanner};
use rrake::shapes::{get_struct_fields, get_struct_values};
use rrake::task::Task;

fn parts(t: &Task) -> (String, String, String, String, usize) {
    (
        t.get_name().to_string(),
        t.get_depends().to_string(),
        t.get_command().to_string(),
        t.get_params().to_string(),
        t.get_line(),
    )
}

fn record(name: &str, depends: &str, command: &str, params: &str, line: usize) -> (String, String, String, String, usize) {
    (name.to_string(), depends.to_string(), command.to_string(), params.to_string(), line)
}

fn records(text: &str) -> Vec<(String, String, String, String, usize)> {
    scan(text, true).tasks().iter().map(parts).collect()
}

fn variables(text: &str, platform_recognized: bool) -> Vec<(String, String)> {
    scan(text, platform_recognized).variables().iter().map(|v| (v.get_key(), v.get_value())).collect()
}

fn pair(key: &str, value: &str) -> (String, String) {
    (key.to_string(), value.to_string())
}

#[test]
fn field_list_is_cut_at_commas_and_stripped() {
    assert_eq!(get_struct_fields("(:a, :b)"), vec![":a", ":b"]);
    assert_eq!(get_struct_fields("(:a,:b,:c)"), vec![":a", ":b", ":c"]);
    assert_eq!(get_struct_fields("( :a ,, :b )"), vec![":a", ":b"]);
}

#[test]
fn list_of_one_item_loses_both_surroundings() {
    assert_eq!(get_struct_fields("(:a)"), vec![":a"]);
    assert_eq!(get_struct_values("(1)"), vec!["1"]);
}

#[test]
fn blank_lists_have_no_items() {
    assert_eq!(get_struct_fields(""), Vec::<String>::new());
    assert_eq!(get_struct_fields("()"), Vec::<String>::new());
    assert_eq!(get_struct_fields("(,)"), Vec::<String>::new());
    assert_eq!(get_struct_values("x"), Vec::<String>::new());
}

#[test]
fn value_list_keeps_quotes_inside() {
    assert_eq!(get_struct_values("(\"a\", \"b\")"), vec!["\"a\"", "\"b\""]);
    assert_eq!(get_struct_values("(1, 2)"), vec!["1", "2"]);
}

#[test]
fn comment_lines_are_inert() {
    assert_eq!(records("# puts \"x\"\n#sh \"ls\""), vec![]);
    assert_eq!(variables("# a = \"1\"", true), vec![]);
}

#[test]
fn indented_hash_is_no_comment() {
    assert_eq!(records("task :t do\n  # puts \"x\""), vec![record("t", "", "puts", "x", 1)]);
}

#[test]
fn variable_takes_last_quoted_text() {
    assert_eq!(variables("greeting = \"hi\"", true), vec![pair("greeting", "hi")]);
    assert_eq!(variables("  a = File.join(\"x\", \" y \")  ", true), vec![pair("a", "y")]);
    assert_eq!(variables("a = \"b=c\"", true), vec![pair("a", "b=c")]);
    assert_eq!(variables("a = b = \"c\"", true), vec![pair("a = b", "c")]);
}

#[test]
fn line_without_two_quotes_after_equals_assigns_nothing() {
    assert_eq!(variables("a = 1", true), vec![]);
    assert_eq!(variables("a = \"1", true), vec![]);
    assert_eq!(variables("\"a\" = 1", true), vec![]);
}

#[test]
fn second_declaration_outside_a_block_is_passed_over() {
    assert_eq!(variables("a = \"1\"\na = \"2\"", true), vec![pair("a", "1")]);
}

#[test]
fn block_on_unrecognized_platform_lets_names_be_declared_again() {
    let text = "a = \"1\"\nif OS.windows? then\na = \"2\"\nend\na = \"3\"";
    assert_eq!(variables(text, false), vec![pair("a", "1"), pair("a", "2")]);
    assert_eq!(variables(text, true), vec![pair("a", "1")]);
}

#[test]
fn guard_on_recognized_platform_leaves_the_block() {
    let text = "if OS.windows? then\na = \"1\"\nif OS.windows? then\na = \"2\"";
    let mut scanner = Scanner::new();
    scanner.feed("if OS.windows? then", 0, false);
    scanner.feed("a = \"1\"", 1, false);
    scanner.feed("a = \"2\"", 2, false);
    scanner.feed("if OS.windows? then", 3, true);
    scanner.feed("a = \"3\"", 4, true);
    let got: Vec<(String, String)> = scanner.variables().iter().map(|v| (v.get_key(), v.get_value())).collect();
    assert_eq!(got, vec![pair("a", "1"), pair("a", "2")]);
    assert_eq!(variables(text, false), vec![pair("a", "1"), pair("a", "2")]);
}

#[test]
fn struct_type_is_declared_with_its_fields() {
    let scanned = scan("Point = Struct.new(:x, :y)", true);
    assert_eq!(scanned.structs().len(), 1);
    let s = &scanned.structs()[0];
    assert_eq!(s.get_name(), "Point");
    assert_eq!(s.get_variable(), "");
    assert_eq!(s.to_json(), "{}");
    assert_eq!(scanned.variables().len(), 0);
}

#[test]
fn struct_instance_binds_variable_and_values() {
    let scanned = scan("Point = Struct.new(:x, :y)\np = Point.new(1, 2)", true);
    assert_eq!(scanned.structs().len(), 1);
    let s = &scanned.structs()[0];
    assert_eq!(s.get_variable(), "p");
    assert_eq!(s.to_json(), "{\"x\":1,\"y\":2}");
    assert_eq!(variables("Point = Struct.new(:x, :y)\np = Point.new(1, 2)", true), vec![pair("p", "[Struct]")]);
}

#[test]
fn instance_of_unknown_type_binds_nothing() {
    let scanned = scan("p = Point.new(1, 2)", true);
    assert_eq!(scanned.structs().len(), 0);
    assert_eq!(scanned.variables().len(), 0);
}

#[test]
fn struct_type_declared_twice_is_kept_once() {
    let text = "P = Struct.new(:a)\nP = Struct.new(:b)";
    assert_eq!(scan(text, true).structs().len(), 1);
    let text = "if OS.windows? then\nP = Struct.new(:a)\nP = Struct.new(:b)";
    assert_eq!(scan(text, false).structs().len(), 2);
}

#[test]
fn task_header_names_the_task() {
    assert_eq!(records("task :hello do\nputs \"x\""), vec![record("hello", "", "puts", "x", 1)]);
}

#[test]
fn header_with_dependency_sets_both() {
    assert_eq!(
        records("task :build => [:clean] do\n  sh \"make\""),
        vec![record("build", "clean", "sh", "make", 1)]
    );
}

#[test]
fn plain_header_clears_the_dependency() {
    assert_eq!(
        records("task :a => [:b] do\nsleep 1\nend\ntask :c do\nsleep 2"),
        vec![record("a", "b", "sleep", "1", 1), record("c", "", "sleep", "2", 4)]
    );
}

#[test]
fn bare_dependency_header_gives_a_record_without_command() {
    assert_eq!(records("task :all => [:build]"), vec![record("all", "build", "", "", 0)]);
    assert_eq!(records("task :default => :build]"), vec![record("default", "build", "", "", 0)]);
}

#[test]
fn statements_before_any_header_belong_to_the_empty_name() {
    assert_eq!(records("sleep 5"), vec![record("", "", "sleep", "5", 0)]);
}

#[test]
fn ignored_task_gives_no_records_until_its_end() {
    let text = "task :skip do #[ignore]\n  puts \"a\"\n  sh \"b\"\nend\ntask :go do\n  puts \"c\"\nend";
    assert_eq!(records(text), vec![record("go", "", "puts", "c", 5)]);
}

#[test]
fn indented_end_does_not_close_an_ignored_task() {
    let text = "task :skip do #[ignore]\n  end\n  puts \"a\"\nend\nputs \"b\"";
    assert_eq!(records(text), vec![record("skip", "", "puts", "b", 4)]);
}

#[test]
fn puts_with_text_gives_one_record() {
    assert_eq!(records("puts \"hello world\""), vec![record("", "", "puts", "hello world", 0)]);
    assert_eq!(records("puts \"\""), vec![record("", "", "puts", "", 0)]);
    assert_eq!(records("puts \"a\" + \"b\""), vec![record("", "", "puts", "a\" + \"b", 0)]);
}

#[test]
fn bare_puts_gives_a_blank_print() {
    assert_eq!(records("puts"), vec![record("", "", "puts", "", 0)]);
    assert_eq!(records("puts puts"), vec![record("", "", "puts", "", 0), record("", "", "puts", "", 0)]);
}

#[test]
fn bare_puts_after_a_text_is_passed_over() {
    assert_eq!(records("puts \"a\"\nputs"), vec![record("", "", "puts", "a", 0)]);
}

#[test]
fn bare_puts_after_another_statement_is_kept() {
    assert_eq!(
        records("puts \"a\"\nsleep 1\nputs"),
        vec![record("", "", "puts", "a", 0), record("", "", "sleep", "1", 1), record("", "", "puts", "", 2)]
    );
}

#[test]
fn puts_of_a_struct_gives_a_placeholder() {
    assert_eq!(
        records("sleep 0\nputs p.to_h.to_json"),
        vec![record("", "", "sleep", "0", 0), record("", "", "puts", "", 1), record("", "", "puts", "#{p}", 1)]
    );
    assert_eq!(
        records("puts \"x\"\nputs p.to_h.to_json"),
        vec![record("", "", "puts", "x", 0), record("", "", "puts", "#{p}", 1)]
    );
}

#[test]
fn sleep_takes_the_rest_of_the_line_trimmed() {
    assert_eq!(records("  sleep  250  "), vec![record("", "", "sleep", "250", 0)]);
    assert_eq!(records("sleep"), vec![]);
}

#[test]
fn working_directory_statements() {
    assert_eq!(records("Dir.pwd"), vec![record("", "", "Dir.pwd", "", 0)]);
    assert_eq!(records("Dir.pwd; Dir.pwd"), vec![record("", "", "Dir.pwd", "", 0), record("", "", "Dir.pwd", "", 0)]);
    assert_eq!(records("Dir.chdir \"/tmp\""), vec![record("", "", "Dir.chdir", "/tmp", 0)]);
    assert_eq!(records("Dir.chdir(\"/tmp\")"), vec![record("", "", "Dir.chdir", "/tmp", 0)]);
    assert_eq!(records("Dir.chdir(dir)"), vec![record("", "", "Dir.chdir", "#{dir}", 0)]);
    assert_eq!(records("Dir.chdir(dir)\r"), vec![record("", "", "Dir.chdir", "#{dir}", 0)]);
    assert_eq!(records("Dir.chdir dir"), vec![]);
    assert_eq!(records("Dirxpwd"), vec![]);
}

#[test]
fn shell_statements() {
    assert_eq!(records("sh \"ls -l\""), vec![record("", "", "sh", "ls -l", 0)]);
    assert_eq!(records("ruby \"script.rb\""), vec![record("", "", "sh", "ruby script.rb", 0)]);
    assert_eq!(records("sh 'ls'"), vec![]);
}

#[test]
fn file_statements() {
    assert_eq!(records("File.delete \"a.txt\""), vec![record("", "", "File.delete", "a.txt", 0)]);
    assert_eq!(records("File.delete(\"a.txt\")"), vec![record("", "", "File.delete", "a.txt", 0)]);
    assert_eq!(records("File.delete(target)"), vec![record("", "", "File.delete", "#{target}", 0)]);
    assert_eq!(records("FileUtils.copy(src, dst)"), vec![record("", "", "FileUtils.copy", "#{src} #{dst}", 0)]);
    assert_eq!(records("FileUtils.copy(a, b, c)"), vec![record("", "", "FileUtils.copy", "#{a, b} #{c}", 0)]);
    assert_eq!(records("FileUtils.copy(src,dst)"), vec![]);
    assert_eq!(records("FileUtils.copy src, dst"), vec![]);
}

#[test]
fn one_line_can_fit_several_shapes() {
    assert_eq!(
        records("x = \"1\"; puts \"1\""),
        vec![record("", "", "puts", "1", 0)]
    );
    assert_eq!(variables("x = \"1\"; puts \"1\"", true), vec![pair("x", "1")]);
    assert_eq!(
        records("sleep 1; sh \"a\""),
        vec![record("", "", "sleep", "1; sh \"a\"", 0), record("", "", "sh", "a", 0)]
    );
}

#[test]
fn lines_are_counted_from_zero_and_unknown_lines_skipped() {
    let text = "require 'x'\n\ntask :t do\n  foo bar\n  sleep 3\nend\n";
    assert_eq!(records(text), vec![record("t", "", "sleep", "3", 4)]);
}

#[test]
fn end_with_trailing_text_is_no_block_end() {
    let text = "if OS.windows? then\nend # done\na = \"1\"\na = \"2\"";
    assert_eq!(variables(text, false), vec![pair("a", "1"), pair("a", "2")]);
    let text = "if OS.windows? then\nend\na = \"1\"\na = \"2\"";
    assert_eq!(variables(text, false), vec![pair("a", "1")]);
}

#[test]
fn whole_file_is_scanned_in_order() {
    let text = "# sample\ngreeting = \"hi\"\nPoint = Struct.new(:x, :y)\np = Point.new(1, 2)\ntask :clean do\n  sh \"rm -f out\"\nend\ntask :build => [:clean] do\n  puts \"#{greeting} there\"\n  puts p.to_h.to_json\n  sleep 10\nend\n";
    assert_eq!(
        records(text),
        vec![
            record("clean", "", "sh", "rm -f out", 5),
            record("build", "clean", "puts", "#{greeting} there", 8),
            record("build", "clean", "puts", "#{p}", 9),
            record("build", "clean", "sleep", "10", 10),
        ]
    );
    assert_eq!(variables(text, true), vec![pair("greeting", "hi"), pair("p", "[Struct]")]);
}

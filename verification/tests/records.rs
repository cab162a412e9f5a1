use rrake::rstruct::Struct;
use rrake::task::{Task, Verb};
use rrake::variable::Variable;

fn strings(items: &[&str]) -> Vec<String> {
    items.iter().map(|s| s.to_string()).collect()
}

#[test]
fn task_keeps_its_parts() {
    let t = Task::new("build", "clean", "sh", "make all", 7);
    assert_eq!(t.get_name(), "build");
    assert_eq!(t.get_depends(), "clean");
    assert_eq!(t.get_command(), "sh");
    assert_eq!(t.get_params(), "make all");
    assert_eq!(t.get_line(), 7);
}

#[test]
fn task_clone_is_equal() {
    let t = Task::new("a", "", "puts", "x", 3);
    let c = t.clone();
    assert_eq!(c.get_name(), "a");
    assert_eq!(c.get_depends(), "");
    assert_eq!(c.get_command(), "puts");
    assert_eq!(c.get_params(), "x");
    assert_eq!(c.get_line(), 3);
}

#[test]
fn every_command_word_names_its_verb() {
    let verb = |word: &str| Task::new("t", "", word, "", 0).verb();
    assert_eq!(verb("puts"), Some(Verb::PrintText));
    assert_eq!(verb("sh"), Some(Verb::RunShell));
    assert_eq!(verb("sleep"), Some(Verb::SleepMillis));
    assert_eq!(verb("Dir.pwd"), Some(Verb::PrintWorkingDir));
    assert_eq!(verb("Dir.chdir"), Some(Verb::ChangeWorkingDir));
    assert_eq!(verb("File.delete"), Some(Verb::DeleteFile));
    assert_eq!(verb("FileUtils.copy"), Some(Verb::CopyFile));
    assert_eq!(verb("File.write"), Some(Verb::WriteFile));
    assert_eq!(verb(""), None);
    assert_eq!(verb("Puts"), None);
}

#[test]
fn variable_value_can_be_replaced() {
    let mut v = Variable::new("greeting", "hi");
    assert_eq!(v.get_key(), "greeting");
    assert_eq!(v.get_value(), "hi");
    v.set_value("hello");
    assert_eq!(v.get_key(), "greeting");
    assert_eq!(v.get_value(), "hello");
}

#[test]
fn struct_renders_as_object_literal() {
    let mut s = Struct::new("Point", strings(&[":a", ":b"]));
    s.set_values(strings(&["1", "2"]));
    assert_eq!(s.to_json(), "{\"a\":1,\"b\":2}");
}

#[test]
fn struct_keeps_name_and_variable() {
    let mut s = Struct::new("Point", strings(&[":x"]));
    assert_eq!(s.get_name(), "Point");
    assert_eq!(s.get_variable(), "");
    s.set_variable("p");
    assert_eq!(s.get_variable(), "p");
    assert_eq!(s.get_name(), "Point");
}

#[test]
fn struct_without_values_renders_empty() {
    let s = Struct::new("Point", strings(&[":a", ":b"]));
    assert_eq!(s.to_json(), "{}");
}

#[test]
fn struct_with_one_pair_has_no_comma() {
    let mut s = Struct::new("One", strings(&[":only"]));
    s.set_values(strings(&["\"v\""]));
    assert_eq!(s.to_json(), "{\"only\":\"v\"}");
}

#[test]
fn struct_pairs_up_to_the_shorter_list() {
    let mut more_fields = Struct::new("P", strings(&[":a", ":b", ":c"]));
    more_fields.set_values(strings(&["1", "2"]));
    assert_eq!(more_fields.to_json(), "{\"a\":1,\"b\":2}");
    let mut more_values = Struct::new("P", strings(&[":a"]));
    more_values.set_values(strings(&["1", "2", "3"]));
    assert_eq!(more_values.to_json(), "{\"a\":1}");
}

#[test]
fn struct_field_loses_its_first_character_only() {
    let mut s = Struct::new("P", strings(&["ab", "", ":é"]));
    s.set_values(strings(&["1", "2", "3"]));
    assert_eq!(s.to_json(), "{\"b\":1,\"\":2,\"é\":3}");
}

#[test]
fn struct_clone_renders_the_same() {
    let mut s = Struct::new("Point", strings(&[":a", ":b"]));
    s.set_variable("p");
    s.set_values(strings(&["1", "2"]));
    let c = s.clone();
    assert_eq!(c.get_name(), "Point");
    assert_eq!(c.get_variable(), "p");
    assert_eq!(c.to_json(), s.to_json());
}

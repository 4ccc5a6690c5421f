use aido::template::TemplateParameters;
use aido::values::ParameterValues;

fn values(pairs: &[(&str, &str)]) -> ParameterValues {
    let mut v = ParameterValues::new();
    for (k, val) in pairs {
        v.insert(k.to_string(), val.to_string());
    }
    v
}

fn apply(command: &str, pairs: &[(&str, &str)]) -> String {
    TemplateParameters::parse(command).unwrap().apply_parameter_values(values(pairs))
}

#[test]
fn git_switch_branch_name() {
    assert_eq!(apply("git switch <branch-name>", &[("branch-name", "main")]), "git switch main");
}

#[test]
fn repeated_name_gets_one_value() {
    assert_eq!(apply("echo <x>-<x>", &[("x", "1")]), "echo 1-1");
}

#[test]
fn no_placeholder_gives_none() {
    assert!(TemplateParameters::parse("ls -la | grep foo").is_none());
    assert!(TemplateParameters::parse("").is_none());
    assert!(TemplateParameters::parse("echo a < b > c").is_none());
    assert!(TemplateParameters::parse("echo <>").is_none());
}

#[test]
fn names_outside_the_class_are_not_placeholders() {
    assert!(TemplateParameters::parse("echo <a.b> <c d> <é>").is_none());
    let t = TemplateParameters::parse("echo <a.b> <ok_1-2>").unwrap();
    assert_eq!(t.parameters(), vec!["ok_1-2".to_string()]);
}

#[test]
fn parameters_in_order_with_duplicates() {
    let t = TemplateParameters::parse("<a> <b> <a>").unwrap();
    assert_eq!(t.parameters(), vec!["a", "b", "a"]);
    assert_eq!(t.distinct_parameters(), vec!["a", "b"]);
}

#[test]
fn adjacent_placeholders() {
    let t = TemplateParameters::parse("<a><b>").unwrap();
    assert_eq!(t.parameters(), vec!["a", "b"]);
    assert_eq!(apply("<a><b>", &[("a", "1"), ("b", "22")]), "122");
}

#[test]
fn nested_angle_brackets() {
    let t = TemplateParameters::parse("<<x>>").unwrap();
    assert_eq!(t.parameters(), vec!["x"]);
    assert_eq!(apply("<<x>>", &[("x", "y")]), "<y>");
}

#[test]
fn empty_values_leave_command_unchanged() {
    let command = "cp <src> <dst> && echo <src>";
    assert_eq!(apply(command, &[]), command);
}

#[test]
fn missing_values_stay_verbatim() {
    assert_eq!(apply("cp <src> <dst>", &[("dst", "/tmp")]), "cp <src> /tmp");
}

#[test]
fn values_with_angle_brackets_are_not_parsed_again() {
    let out = apply("echo <a> <b>", &[("a", "<b>"), ("b", "x")]);
    assert_eq!(out, "echo <b> x");
    assert!(TemplateParameters::parse(&out).is_some());
}

#[test]
fn uniform_value_replaces_every_occurrence() {
    let out = apply("mv <from> 'to <to>' <from>", &[("from", "X"), ("to", "X")]);
    assert_eq!(out, "mv X 'to X' X");
}

#[test]
fn full_mapping_without_brackets_leaves_no_placeholder() {
    let out = apply("ssh <user>@<host>", &[("user", "root"), ("host", "example.org")]);
    assert_eq!(out, "ssh root@example.org");
    assert!(TemplateParameters::parse(&out).is_none());
}

#[test]
fn values_of_other_lengths_keep_positions() {
    assert_eq!(
        apply("a<x>b<yy>c<x>", &[("x", ""), ("yy", "longer text")]),
        "ablonger textc"
    );
}

#[test]
fn non_ascii_text_around_placeholders() {
    assert_eq!(apply("echo «<w>» ü", &[("w", "ä")]), "echo «ä» ü");
}

#[test]
fn later_insert_replaces_earlier_value() {
    let mut v = ParameterValues::new();
    v.insert("k".to_string(), "1".to_string());
    v.insert("k".to_string(), "2".to_string());
    assert_eq!(v.get("k"), Some(&"2".to_string()));
    assert_eq!(v.get("other"), None);
}

#[test]
fn substitution_can_join_surrounding_text_into_a_placeholder() {
    let out = apply("<<x>b>", &[("x", "")]);
    assert_eq!(out, "<b>");
    assert_eq!(TemplateParameters::parse(&out).unwrap().parameters(), vec!["b"]);
}

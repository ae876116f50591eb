use csv_ruler::csv::read_from_str;
use csv_ruler::eval::EvalContext;
use csv_ruler::pipeline::{after_file, after_poll, task_queue, unclaimed, Aggregator, PollAction, Report};
use csv_ruler::process::{process_file, process_records, Match};
use csv_ruler::rule::{compile, compile_rules, CompiledRule, Rule};
use csv_ruler::value::{coerce, string_contains, TypedValue};

const DOC: &str = "A;B;C\n1;2;3\n1;4;5\nalpha;beta;alpha\n";

fn rules(texts: &[&str]) -> Vec<CompiledRule> {
    let rules = texts.iter().map(|t| Rule { rule: t.to_string() }).collect();
    match compile_rules(rules) {
        Ok(v) => v,
        Err(e) => panic!("rule does not compile: {}", e.rule),
    }
}

fn context(pairs: &[(&str, &str)]) -> EvalContext {
    let mut c = EvalContext::new();
    for (name, cell) in pairs {
        assert!(c.set_value(&name.to_string(), &coerce(cell)));
    }
    c
}

fn summary(matches: &[Match]) -> Vec<(String, String)> {
    matches.iter().map(|m| (m.rule.clone(), m.csv.join(";"))).collect()
}

#[test]
fn round_trip_equality_rule() {
    let r = rules(&["A == C"]);
    assert!(context(&[("A", "1"), ("B", "2"), ("C", "1")]).matches(&r[0]));
    assert!(!context(&[("A", "1"), ("C", "5")]).matches(&r[0]));
}

#[test]
fn coercion_of_cells() {
    assert!(matches!(coerce("1"), TypedValue::Float(s) if s == "1"));
    assert!(matches!(coerce("alpha"), TypedValue::Text(s) if s == "alpha"));
    assert!(matches!(coerce("01x"), TypedValue::Text(s) if s == "01x"));
    assert!(matches!(coerce("2.5e3"), TypedValue::Float(_)));
    assert!(matches!(coerce(""), TypedValue::Text(_)));
}

#[test]
fn float_cell_is_compared_as_a_number() {
    let r = rules(&["A == 1.0", "A < 2.5"]);
    let c = context(&[("A", "1")]);
    assert!(c.matches(&r[0]));
    assert!(c.matches(&r[1]));
}

#[test]
fn type_mismatch_is_no_match() {
    let r = rules(&["(A + B) == C"]);
    assert!(!context(&[("A", "alpha"), ("B", "2"), ("C", "3")]).matches(&r[0]));
    assert!(context(&[("A", "1"), ("B", "2"), ("C", "3")]).matches(&r[0]));
}

#[test]
fn missing_column_is_no_match() {
    let r = rules(&["A == D"]);
    assert!(!context(&[("A", "1")]).matches(&r[0]));
}

#[test]
fn scenario_single_rule() {
    let csv = read_from_str(DOC).unwrap();
    assert_eq!(csv.headers, vec!["A", "B", "C"]);
    let found = process_file(csv, &rules(&["A == C"])).unwrap();
    // 1 == 3 and 1 == 5 are false; only the last record has equal A and C
    assert_eq!(
        summary(&found),
        vec![("A == C".to_string(), "alpha;beta;alpha".to_string())]
    );
}

#[test]
fn scenario_two_rules() {
    let csv = read_from_str(DOC).unwrap();
    let found = process_file(csv, &rules(&["A == C", "(A + B) == C"])).unwrap();
    assert_eq!(
        summary(&found),
        vec![
            ("(A + B) == C".to_string(), "1;2;3".to_string()),
            ("(A + B) == C".to_string(), "1;4;5".to_string()),
            ("A == C".to_string(), "alpha;beta;alpha".to_string()),
        ]
    );
}

#[test]
fn compiling_twice_gives_the_same_matches() {
    let first = process_file(read_from_str(DOC).unwrap(), &rules(&["A == C", "(A + B) == C"])).unwrap();
    let second = process_file(read_from_str(DOC).unwrap(), &rules(&["A == C", "(A + B) == C"])).unwrap();
    assert_eq!(summary(&first), summary(&second));
}

#[test]
fn records_given_directly() {
    let headers = vec!["A".to_string(), "B".to_string()];
    let records = vec![
        vec!["3".to_string(), "3".to_string()],
        vec!["3".to_string(), "4".to_string()],
    ];
    let found = process_records(&headers, &records, &rules(&["A == B", "A < B"])).unwrap();
    assert_eq!(
        summary(&found),
        vec![("A == B".to_string(), "3;3".to_string()), ("A < B".to_string(), "3;4".to_string())]
    );
}

#[test]
fn header_only_document_has_no_matches() {
    let found = process_file(read_from_str("A;B\n").unwrap(), &rules(&["A == B"])).unwrap();
    assert!(found.is_empty());
}

#[test]
fn record_of_wrong_length_is_an_error() {
    let csv = read_from_str("A;B;C\n1;2\n").unwrap();
    assert!(process_file(csv, &rules(&["A == C"])).is_err());
}

#[test]
fn repeated_header_of_other_kind_is_an_error() {
    let csv = read_from_str("A;A\n1;x\n").unwrap();
    assert!(process_file(csv, &rules(&["A == 1.0"])).is_err());
}

#[test]
fn rule_that_does_not_parse() {
    let e = compile(Rule { rule: "A == (".to_string() }).err().unwrap();
    assert_eq!(e.rule, "A == (");
    assert!(!e.message.is_empty());
    let r = compile_rules(vec![
        Rule { rule: "A == B".to_string() },
        Rule { rule: "A == (".to_string() },
        Rule { rule: "B ==".to_string() },
    ]);
    assert_eq!(r.err().unwrap().rule, "A == (");
}

#[test]
fn compiled_rule_keeps_its_text() {
    let r = rules(&["A != B"]);
    assert_eq!(r[0].rule(), "A != B");
}

#[test]
fn string_contains_builtin() {
    let r = rules(&["string_contains(A, \"lph\")", "string_contains(B, \"2\")"]);
    let c = context(&[("A", "alpha"), ("B", "2")]);
    assert!(c.matches(&r[0]));
    assert!(!c.matches(&r[1]));
}

#[test]
fn string_contains_on_values() {
    assert!(string_contains(Some("alpha".to_string()), Some("lph".to_string())));
    assert!(!string_contains(Some("alpha".to_string()), Some("x".to_string())));
    assert!(!string_contains(None, Some("a".to_string())));
}

#[test]
fn rebinding_a_name_to_the_other_kind_fails() {
    let mut c = EvalContext::new();
    assert!(c.set_value(&"A".to_string(), &coerce("1")));
    assert!(c.set_value(&"A".to_string(), &coerce("2")));
    assert!(!c.set_value(&"A".to_string(), &coerce("x")));
}

#[test]
fn aggregator_waits_for_every_worker() {
    let mut a = Aggregator::new(2);
    let m = Match { csv: vec!["1".to_string()], rule: "A == A".to_string() };
    let (out, done) = a.receive(Report::Matches(vec![m]));
    assert_eq!(out.len(), 1);
    assert!(!done);
    assert!(!a.receive(Report::Matches(vec![])).1);
    assert!(!a.receive(Report::End).1);
    assert!(!a.receive(Report::Matches(vec![])).1);
    assert!(a.receive(Report::End).1);
    assert_eq!(a.ended, 2);
}

#[test]
fn watcher_sleeps_only_after_an_empty_poll() {
    assert!(matches!(after_poll(false, 250), PollAction::Sleep(250)));
    assert!(matches!(after_poll(true, 250), PollAction::PollAgain));
}

#[test]
fn finite_run_queues_one_end_marker_per_worker() {
    let q = task_queue(&vec!["in.csv".to_string()], 2);
    assert_eq!(q, vec![Some("in.csv".to_string()), None, None]);
    let q = task_queue(&vec!["a".to_string(), "b".to_string()], 1);
    assert_eq!(q, vec![Some("a".to_string()), Some("b".to_string()), None]);
}

#[test]
fn worker_reports_and_deletes_only_processed_files() {
    let m = Match { csv: vec!["1".to_string()], rule: "A == A".to_string() };
    let done = after_file(Ok(vec![m]), true);
    assert_eq!(done.report.map(|v| v.len()), Some(1));
    assert!(done.delete);
    let kept = after_file(Ok(vec![]), false);
    assert_eq!(kept.report.map(|v| v.len()), Some(0));
    assert!(!kept.delete);
    let failed = after_file(Err("bad".to_string()), true);
    assert!(failed.report.is_none());
    assert!(!failed.delete);
}

fn run(doc: &str, texts: &[&str]) -> Vec<(String, String)> {
    summary(&process_file(read_from_str(doc).unwrap(), &rules(texts)).unwrap())
}

fn pair(rule: &str, record: &str) -> (String, String) {
    (rule.to_string(), record.to_string())
}

#[test]
fn equal_cells_in_a_file_match() {
    assert_eq!(run("A;B;C\n1;2;1", &["A == C"]), vec![pair("A == C", "1;2;1")]);
    assert!(run("A;C\n1;5", &["A == C"]).is_empty());
}

#[test]
fn numeric_cell_in_a_file() {
    assert_eq!(
        run("A\n1", &["A == 1.0", "A + 1.0 == 2.0"]),
        vec![pair("A == 1.0", "1"), pair("A + 1.0 == 2.0", "1")]
    );
}

#[test]
fn text_cells_in_a_file() {
    assert_eq!(
        run("A\nalpha", &["A == \"alpha\"", "A + 1.0 == 1.0"]),
        vec![pair("A == \"alpha\"", "alpha")]
    );
    assert_eq!(run("A\n01x", &["A == \"01x\"", "A == 1.0"]), vec![pair("A == \"01x\"", "01x")]);
}

#[test]
fn short_record_after_a_good_one_is_an_error() {
    assert!(process_file(read_from_str("A;B\n1;2\n3").unwrap(), &rules(&["A == 1.0"])).is_err());
}

#[test]
fn values_of_different_kinds_are_unequal() {
    let found = run(
        "A;B;C\nalpha;1;true",
        &["A != B", "A == B", "Z == 1.0", "C == true", "C == \"true\""],
    );
    assert_eq!(found, vec![pair("A != B", "alpha;1;true"), pair("C == \"true\"", "alpha;1;true")]);
}

#[test]
fn only_the_string_contains_built_in_is_known() {
    let found = run(
        "A\n1",
        &["str::substring(\"é\", 1) == \"\"", "shl(1, 64) == 0", "string_contains(\"ab\", \"b\")"],
    );
    assert_eq!(found, vec![pair("string_contains(\"ab\", \"b\")", "1")]);
}

#[test]
fn watcher_sends_each_listed_file_once() {
    let s = |v: &[&str]| v.iter().map(|x| x.to_string()).collect::<Vec<String>>();
    assert_eq!(unclaimed(&s(&["a", "b", "c"]), &s(&["b"])), s(&["a", "c"]));
    assert!(unclaimed(&s(&["a"]), &s(&["a"])).is_empty());
    assert_eq!(unclaimed(&s(&["a"]), &s(&[])), s(&["a"]));
}

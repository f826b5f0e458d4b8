//! The whole-document query matcher over real documents.

use zipscan::Args;
use zipscan::Output;
use zipscan::jq_processor::JqProcessor;

fn query_args(query: &str) -> Args {
    let mut args = Args::new(".".to_string(), ".*".to_string(), query.to_string());
    args.jq = true;
    args
}

#[test]
fn query_value_is_reported() {
    let args = query_args(".x");
    let jp = JqProcessor::new(".x").unwrap();
    let data = b"{\"x\": 1}".to_vec();
    let out = jp.process_file(&args, "doc.json", &data);
    assert_eq!(out.records, vec!["doc.json: 1"]);
    assert!(!out.aborted);
    assert!(!out.early_exit);
}

#[test]
fn multivalued_query_reports_each_value() {
    let args = query_args(".[]");
    let jp = JqProcessor::new(".[]").unwrap();
    let data = b"[1,2,3]".to_vec();
    let out = jp.process_file(&args, "doc.json", &data);
    assert_eq!(out.records, vec!["doc.json: 1", "doc.json: 2", "doc.json: 3"]);
}

#[test]
fn value_mode_prints_the_value_alone() {
    let mut args = query_args(".name");
    args.output = Output::Pattern;
    let jp = JqProcessor::new(".name").unwrap();
    let data = b"{\"name\": \"alice\"}".to_vec();
    let out = jp.process_file(&args, "doc.json", &data);
    assert_eq!(out.records, vec!["\"alice\""]);
}

#[test]
fn early_exit_mode_stops_at_the_first_value() {
    let mut args = query_args(".[]");
    args.output = Output::Entry;
    let jp = JqProcessor::new(".[]").unwrap();
    let data = b"[1,2,3]".to_vec();
    let out = jp.process_file(&args, "doc.json", &data);
    assert_eq!(out.records, vec!["doc.json"]);
    assert!(out.early_exit);
}

#[test]
fn unparsable_document_warns_and_yields_nothing() {
    let args = query_args(".x");
    let jp = JqProcessor::new(".x").unwrap();
    let data = b"not json at all".to_vec();
    let out = jp.process_file(&args, "doc.json", &data);
    assert!(out.records.is_empty());
    assert!(!out.notes.is_empty());

    let mut quiet = query_args(".x");
    quiet.quiet = true;
    let quiet_out = jp.process_file(&quiet, "doc.json", &data);
    assert!(quiet_out.records.is_empty());
    assert!(quiet_out.notes.is_empty());
}

#[test]
fn evaluation_error_is_noted_not_reported() {
    let args = query_args(".x + 1");
    let jp = JqProcessor::new(".x + 1").unwrap();
    let data = b"{\"x\": \"word\"}".to_vec();
    let out = jp.process_file(&args, "doc.json", &data);
    assert!(out.records.is_empty());
    assert!(!out.notes.is_empty());
}

#[test]
fn rejected_program_fails_compilation() {
    assert!(JqProcessor::new("if then else").is_err());
    assert!(JqProcessor::new(".x").is_ok());
}

#[test]
fn querying_twice_yields_identical_records() {
    let args = query_args(".[]");
    let jp = JqProcessor::new(".[]").unwrap();
    let data = b"[\"a\",\"b\"]".to_vec();
    let first = jp.process_file(&args, "doc.json", &data);
    let second = jp.process_file(&args, "doc.json", &data);
    assert_eq!(first.records, second.records);
}

#[test]
fn result_stream_reporting_is_exact() {
    let args = query_args(".x");
    let results = vec![
        Ok("1".to_string()),
        Err("oops".to_string()),
        Ok("2".to_string()),
    ];
    let out = zipscan::jq_processor::report_query_results(&args, "doc.json", &results);
    assert_eq!(out.records, vec!["doc.json: 1", "doc.json: 2"]);
    assert!(!out.early_exit);
    assert_eq!(out.notes.len(), 1);
}

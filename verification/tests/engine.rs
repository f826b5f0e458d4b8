//! The line-match engine: counts, context, the error budget, and the
//! output modes, on concrete streams.

use zipscan::Args;
use zipscan::Output;
use zipscan::regex_processor::RegexProcessor;

fn args_for(pattern: &str) -> Args {
    Args::new(".".to_string(), ".*".to_string(), pattern.to_string())
}

#[test]
fn one_record_per_matching_line() {
    let args = args_for("x=\\d+");
    let rp = RegexProcessor::new("x=\\d+").unwrap();
    let data = b"x=1\nfoo\nx=2\nx=3\n".to_vec();
    let out = rp.process_file(&args, "p", &data);
    assert_eq!(out.records, vec!["p: x=1", "p: x=2", "p: x=3"]);
    assert!(!out.aborted);
    assert!(!out.early_exit);
    assert_eq!(out.primary_reads, 4);
    assert_eq!(out.context_reads, 0);
}

#[test]
fn no_matches_no_records() {
    let args = args_for("zzz");
    let rp = RegexProcessor::new("zzz").unwrap();
    let data = b"a\nb\n".to_vec();
    let out = rp.process_file(&args, "p", &data);
    assert!(out.records.is_empty());
    assert_eq!(out.primary_reads, 2);
}

#[test]
fn empty_file_yields_nothing() {
    let args = args_for(".*");
    let rp = RegexProcessor::new(".*").unwrap();
    let data = Vec::new();
    let out = rp.process_file(&args, "p", &data);
    assert!(out.records.is_empty());
    assert_eq!(out.primary_reads, 0);
    assert_eq!(out.context_reads, 0);
}

#[test]
fn primary_and_context_reads_cover_every_line_once() {
    let mut args = args_for("m");
    args.after = 1;
    let rp = RegexProcessor::new("m").unwrap();
    let data = b"m1\nc1\nm2\nc2\n".to_vec();
    let out = rp.process_file(&args, "p", &data);
    assert_eq!(out.records, vec!["p: m1\np: c1", "p: m2\np: c2"]);
    assert_eq!(out.primary_reads, 2);
    assert_eq!(out.context_reads, 2);
    assert_eq!(out.primary_reads + out.context_reads, 4);
}

#[test]
fn context_lines_are_not_rescanned_as_candidates() {
    let mut args = args_for("m");
    args.after = 1;
    let rp = RegexProcessor::new("m").unwrap();
    let data = b"m\nm\nx\n".to_vec();
    let out = rp.process_file(&args, "p", &data);
    assert_eq!(out.records, vec!["p: m\np: m"]);
    assert_eq!(out.primary_reads, 2);
    assert_eq!(out.context_reads, 1);
}

#[test]
fn context_truncated_at_end_of_stream() {
    let mut args = args_for("m");
    args.after = 5;
    let rp = RegexProcessor::new("m").unwrap();
    let data = b"a\nm\n".to_vec();
    let out = rp.process_file(&args, "p", &data);
    assert_eq!(out.records, vec!["p: m"]);
    assert_eq!(out.context_reads, 0);
}

#[test]
fn context_pull_stops_at_undecodable_line() {
    let mut args = args_for("m");
    args.after = 2;
    let rp = RegexProcessor::new("m").unwrap();
    let data = b"m\n\xff\nz\n".to_vec();
    let out = rp.process_file(&args, "p", &data);
    assert_eq!(out.records, vec!["p: m"]);
    assert_eq!(out.primary_reads, 2);
    assert_eq!(out.context_reads, 1);
}

#[test]
fn budget_boundary_aborts_one_past_the_maximum() {
    let mut args = args_for("match");
    args.max_errors = 2;
    let rp = RegexProcessor::new("match").unwrap();
    let data = b"\xff\n\xff\n\xff\nmatch\n".to_vec();
    let out = rp.process_file(&args, "p", &data);
    assert!(out.aborted);
    assert!(out.records.is_empty());
}

#[test]
fn budget_boundary_reports_at_the_maximum() {
    let mut args = args_for("match");
    args.max_errors = 2;
    let rp = RegexProcessor::new("match").unwrap();
    let data = b"\xff\n\xff\nmatch\n".to_vec();
    let out = rp.process_file(&args, "p", &data);
    assert!(!out.aborted);
    assert_eq!(out.records, vec!["p: match"]);
}

#[test]
fn decoded_line_resets_the_budget() {
    let mut args = args_for("match");
    args.max_errors = 1;
    let rp = RegexProcessor::new("match").unwrap();
    let data = b"\xff\nok\n\xff\nmatch\n".to_vec();
    let out = rp.process_file(&args, "p", &data);
    assert!(!out.aborted);
    assert_eq!(out.records, vec!["p: match"]);
}

#[test]
fn abort_is_noted_unless_quiet() {
    let mut args = args_for("match");
    args.max_errors = 0;
    let rp = RegexProcessor::new("match").unwrap();
    let data = b"\xff\nmatch\n".to_vec();
    let out = rp.process_file(&args, "p", &data);
    assert!(out.aborted);
    assert!(!out.notes.is_empty());

    args.quiet = true;
    let quiet_out = rp.process_file(&args, "p", &data);
    assert!(quiet_out.aborted);
    assert!(quiet_out.notes.is_empty());
}

#[test]
fn file_mode_truncates_and_exits_early() {
    let mut args = args_for("m");
    args.output = Output::File;
    let rp = RegexProcessor::new("m").unwrap();
    let data = b"m1\nm2\n".to_vec();
    let out = rp.process_file(&args, "a.zip!b.txt", &data);
    assert_eq!(out.records, vec!["a.zip"]);
    assert!(out.early_exit);
    assert_eq!(out.primary_reads, 1);
}

#[test]
fn entry_mode_reports_full_logical_path() {
    let mut args = args_for("m");
    args.output = Output::Entry;
    let rp = RegexProcessor::new("m").unwrap();
    let data = b"m\n".to_vec();
    let out = rp.process_file(&args, "a.zip!b.txt", &data);
    assert_eq!(out.records, vec!["a.zip!b.txt"]);
    assert!(out.early_exit);
}

#[test]
fn value_mode_selected_capture_groups() {
    let mut args = args_for("user=(\\w+)");
    args.output = Output::Pattern;
    args.capture_groups = vec![1];
    let rp = RegexProcessor::new("user=(\\w+)").unwrap();
    let data = b"user=alice logged in\n".to_vec();
    let out = rp.process_file(&args, "p", &data);
    assert_eq!(out.records, vec!["alice"]);
}

#[test]
fn value_mode_joins_several_groups() {
    let mut args = args_for("(\\w+)=(\\w+)");
    args.output = Output::Pattern;
    args.capture_groups = vec![1, 2];
    args.capture_delimiter = "|".to_string();
    let rp = RegexProcessor::new("(\\w+)=(\\w+)").unwrap();
    let data = b"k=v\n".to_vec();
    let out = rp.process_file(&args, "p", &data);
    assert_eq!(out.records, vec!["k|v"]);
}

#[test]
fn value_mode_missing_group_is_empty() {
    let mut args = args_for("a(b)?c");
    args.output = Output::Pattern;
    args.capture_groups = vec![1, 7];
    let rp = RegexProcessor::new("a(b)?c").unwrap();
    let data = b"ac\n".to_vec();
    let out = rp.process_file(&args, "p", &data);
    assert_eq!(out.records, vec![","]);
}

#[test]
fn value_mode_without_groups_reports_the_line() {
    let mut args = args_for("x=\\d+");
    args.output = Output::Pattern;
    let rp = RegexProcessor::new("x=\\d+").unwrap();
    let data = b"x=7 rest\n".to_vec();
    let out = rp.process_file(&args, "p", &data);
    assert_eq!(out.records, vec!["x=7 rest"]);
}

#[test]
fn name_suppression_omits_the_path_prefix() {
    let mut args = args_for("m");
    args.suppress_name = true;
    args.after = 1;
    let rp = RegexProcessor::new("m").unwrap();
    let data = b"m\nctx\n".to_vec();
    let out = rp.process_file(&args, "p", &data);
    assert_eq!(out.records, vec!["m\nctx"]);
}

#[test]
fn carriage_returns_are_stripped_at_line_ends() {
    let args = args_for("^m$");
    let rp = RegexProcessor::new("^m$").unwrap();
    let data = b"m\r\nnext\r\n".to_vec();
    let out = rp.process_file(&args, "p", &data);
    assert_eq!(out.records, vec!["p: m"]);
}

#[test]
fn custom_delimiters_shape_the_record() {
    let mut args = args_for("m");
    args.delimiter = " -> ".to_string();
    args.line_delimiter = " | ".to_string();
    args.after = 1;
    let rp = RegexProcessor::new("m").unwrap();
    let data = b"m\nctx\n".to_vec();
    let out = rp.process_file(&args, "p", &data);
    assert_eq!(out.records, vec!["p -> m | p -> ctx"]);
}

#[test]
fn scanning_twice_yields_identical_records() {
    let mut args = args_for("x=\\d+");
    args.after = 1;
    let rp = RegexProcessor::new("x=\\d+").unwrap();
    let data = b"x=1\nfoo\nx=2\n".to_vec();
    let first = rp.process_file(&args, "p", &data);
    let second = rp.process_file(&args, "p", &data);
    assert_eq!(first.records, second.records);
}

#[test]
fn rejected_pattern_fails_compilation() {
    assert!(RegexProcessor::new("(unclosed").is_err());
    assert!(RegexProcessor::new("x=\\d+").is_ok());
}

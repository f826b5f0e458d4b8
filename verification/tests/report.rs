//! Record rendering and the text utilities it rests on.

use zipscan::Args;
use zipscan::Output;
use zipscan::lines::decode_lines;
use zipscan::report::MatchResult;
use zipscan::report::render_record;
use zipscan::text::find_sub;
use zipscan::text::has_suffix;
use zipscan::text::join_strings;
use zipscan::text::truncate_before;

fn sample_match() -> MatchResult {
    MatchResult {
        path: "a.zip!log.txt".to_string(),
        value: "bar: x=1".to_string(),
        context: vec!["baz".to_string()],
        captures: None,
    }
}

fn base_args() -> Args {
    Args::new(".".to_string(), ".*".to_string(), "x=\\d+".to_string())
}

#[test]
fn whole_record_prefixes_every_line() {
    let args = base_args();
    let (text, stop) = render_record(&args, &sample_match());
    assert_eq!(text, "a.zip!log.txt: bar: x=1\na.zip!log.txt: baz");
    assert!(!stop);
}

#[test]
fn path_mode_cuts_at_the_container_delimiter() {
    let mut args = base_args();
    args.output = Output::File;
    let (text, stop) = render_record(&args, &sample_match());
    assert_eq!(text, "a.zip");
    assert!(stop);
}

#[test]
fn entry_mode_keeps_the_container_segments() {
    let mut args = base_args();
    args.output = Output::Entry;
    let (text, stop) = render_record(&args, &sample_match());
    assert_eq!(text, "a.zip!log.txt");
    assert!(stop);
}

#[test]
fn value_mode_joins_captures_then_context() {
    let mut args = base_args();
    args.output = Output::Pattern;
    args.capture_delimiter = "+".to_string();
    let mut m = sample_match();
    m.captures = Some(vec!["one".to_string(), "two".to_string()]);
    let (text, stop) = render_record(&args, &m);
    assert_eq!(text, "one+two\nbaz");
    assert!(!stop);
}

#[test]
fn suffix_test_is_exact() {
    assert!(has_suffix("outer.zip", ".zip"));
    assert!(!has_suffix("outer.zip.txt", ".zip"));
    assert!(!has_suffix("zip", ".zip"));
    assert!(has_suffix("anything", ""));
}

#[test]
fn substring_search_finds_the_first_occurrence() {
    assert_eq!(find_sub("a!b!c", "!"), Some(1));
    assert_eq!(find_sub("abc", "!"), None);
    assert_eq!(find_sub("abc", ""), Some(0));
    assert_eq!(find_sub("ababc", "abc"), Some(2));
}

#[test]
fn truncation_keeps_everything_without_a_delimiter() {
    assert_eq!(truncate_before("plain.txt", "!"), "plain.txt");
    assert_eq!(truncate_before("a!b!c", "!"), "a");
}

#[test]
fn joining_respects_the_separator() {
    let parts = vec!["a".to_string(), "b".to_string(), "c".to_string()];
    assert_eq!(join_strings(&parts, ", "), "a, b, c");
    assert_eq!(join_strings(&vec!["solo".to_string()], ", "), "solo");
    assert_eq!(join_strings(&Vec::new(), ", "), "");
}

#[test]
fn line_decoding_splits_and_flags_faults() {
    let data = b"ok\r\nsecond\n\xff\xfe\nlast".to_vec();
    let lines = decode_lines(&data);
    assert_eq!(lines.len(), 4);
    assert_eq!(lines[0].as_deref(), Some("ok"));
    assert_eq!(lines[1].as_deref(), Some("second"));
    assert_eq!(lines[2], None);
    assert_eq!(lines[3].as_deref(), Some("last"));
}

#[test]
fn empty_stream_decodes_to_no_lines() {
    assert!(decode_lines(&Vec::new()).is_empty());
    assert_eq!(decode_lines(&b"\n".to_vec()).len(), 1);
}

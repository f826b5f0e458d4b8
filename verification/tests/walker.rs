//! The tree walker over real archive bytes: classification, logical-path
//! composition, nested containers, the depth bound, and determinism.

use std::io::Write;

use zipscan::Args;
use zipscan::Analyzer;
use zipscan::Output;
use zipscan::walker::PathClass;
use zipscan::walker::classify_path;
use zipscan::walker::compose_logical_path;

fn zip_of(entries: &[(&str, &[u8])]) -> Vec<u8> {
    let mut w = zip::ZipWriter::new(std::io::Cursor::new(Vec::new()));
    for (name, data) in entries {
        w.start_file(*name, zip::write::SimpleFileOptions::default()).unwrap();
        w.write_all(data).unwrap();
    }
    w.finish().unwrap().into_inner()
}

fn analyzer(file_pat: &str, pattern: &str) -> Analyzer {
    let args = Args::new(".".to_string(), file_pat.to_string(), pattern.to_string());
    Analyzer::new(args).unwrap()
}

#[test]
fn classification_order() {
    assert!(matches!(classify_path("d", true, false), PathClass::Directory));
    assert!(matches!(classify_path("a.zip", true, false), PathClass::Directory));
    assert!(matches!(classify_path("a.zip", false, true), PathClass::Archive));
    assert!(matches!(classify_path("a.zip", false, false), PathClass::Archive));
    assert!(matches!(classify_path("a.txt", false, true), PathClass::Plain));
    assert!(matches!(classify_path("a.txt", false, false), PathClass::Other));
}

#[test]
fn logical_path_composition() {
    let one = compose_logical_path("dir/outer.zip", "!", "inner.zip");
    assert_eq!(one, "dir/outer.zip!inner.zip");
    let two = compose_logical_path(one.as_str(), "!", "entry.txt");
    assert_eq!(two, "dir/outer.zip!inner.zip!entry.txt");
}

#[test]
fn archive_entry_matching_whole_record() {
    let bytes = zip_of(&[("log.txt", b"foo\nbar: x=1\nbaz\n")]);
    let mut args = Args::new(".".to_string(), ".*\\.txt$".to_string(), "x=\\d+".to_string());
    args.after = 1;
    let analyzer = Analyzer::new(args).unwrap();
    let out = analyzer.walk_zip("a.zip", &bytes, 16);
    assert_eq!(out.records, vec!["a.zip!log.txt: bar: x=1\na.zip!log.txt: baz"]);
}

#[test]
fn qualifying_files_each_report_their_matches() {
    let content: &[u8] = b"x=1\nskip\nx=2\n";
    let bytes = zip_of(&[("a.txt", content), ("b.txt", content), ("c.md", content)]);
    let analyzer = analyzer(".*\\.txt$", "x=\\d+");
    let out = analyzer.walk_zip("t.zip", &bytes, 16);
    assert_eq!(out.records.len(), 4);
    assert_eq!(
        out.records,
        vec![
            "t.zip!a.txt: x=1",
            "t.zip!a.txt: x=2",
            "t.zip!b.txt: x=1",
            "t.zip!b.txt: x=2",
        ],
    );
}

#[test]
fn nested_container_composes_both_segments() {
    let inner = zip_of(&[("entry.txt", b"hit\n")]);
    let outer = zip_of(&[("inner.zip", inner.as_slice())]);
    let analyzer = analyzer(".*\\.txt$", "hit");
    let out = analyzer.walk_file("dir/outer.zip", &outer, 16, false);
    assert_eq!(out.records, vec!["dir/outer.zip!inner.zip!entry.txt: hit"]);
}

#[test]
fn depth_bound_stops_nested_containers() {
    let inner = zip_of(&[("entry.txt", b"hit\n")]);
    let outer = zip_of(&[("inner.zip", inner.as_slice())]);
    let analyzer = analyzer(".*\\.txt$", "hit");
    let out = analyzer.walk_zip("outer.zip", &outer, 0);
    assert!(out.records.is_empty());
}

#[test]
fn directory_placeholders_are_skipped() {
    let mut w = zip::ZipWriter::new(std::io::Cursor::new(Vec::new()));
    w.add_directory("sub", zip::write::SimpleFileOptions::default()).unwrap();
    w.start_file("sub/a.txt", zip::write::SimpleFileOptions::default()).unwrap();
    w.write_all(b"hit\n").unwrap();
    let bytes = w.finish().unwrap().into_inner();
    let analyzer = analyzer(".*\\.txt$", "hit");
    let out = analyzer.walk_zip("z.zip", &bytes, 16);
    assert_eq!(out.records, vec!["z.zip!sub/a.txt: hit"]);
}

#[test]
fn filename_filter_skips_non_matching_entries() {
    let bytes = zip_of(&[("a.bin", b"hit\n")]);
    let analyzer = analyzer(".*\\.txt$", "hit");
    let out = analyzer.walk_zip("z.zip", &bytes, 16);
    assert!(out.records.is_empty());
}

#[test]
fn explicit_root_skips_the_filename_filter() {
    let analyzer = analyzer(".*\\.txt$", "hit");
    let data = b"hit\n".to_vec();
    let as_root = analyzer.walk_file("notes.bin", &data, 16, true);
    assert_eq!(as_root.records, vec!["notes.bin: hit"]);
    let discovered = analyzer.walk_file("notes.bin", &data, 16, false);
    assert!(discovered.records.is_empty());
}

#[test]
fn corrupt_archive_warns_and_yields_nothing() {
    let analyzer = analyzer(".*", "hit");
    let garbage = b"this is not an archive".to_vec();
    let out = analyzer.walk_zip("bad.zip", &garbage, 16);
    assert!(out.records.is_empty());
    assert!(!out.notes.is_empty());

    let mut args = Args::new(".".to_string(), ".*".to_string(), "hit".to_string());
    args.quiet = true;
    let quiet_analyzer = Analyzer::new(args).unwrap();
    let quiet_out = quiet_analyzer.walk_zip("bad.zip", &garbage, 16);
    assert!(quiet_out.notes.is_empty());
}

#[test]
fn skip_notices_only_when_verbose() {
    let bytes = zip_of(&[("a.bin", b"hit\n")]);
    let analyzer = analyzer(".*\\.txt$", "hit");
    let silent = analyzer.walk_zip("z.zip", &bytes, 16);
    assert!(silent.notes.is_empty());

    let mut args = Args::new(".".to_string(), ".*\\.txt$".to_string(), "hit".to_string());
    args.verbose = true;
    let verbose_analyzer = Analyzer::new(args).unwrap();
    let noisy = verbose_analyzer.walk_zip("z.zip", &bytes, 16);
    assert_eq!(noisy.notes.len(), 1);
}

#[test]
fn early_exit_mode_reports_one_record_per_file() {
    let bytes = zip_of(&[("a.txt", b"m\nm\n"), ("b.txt", b"m\n")]);
    let mut args = Args::new(".".to_string(), ".*\\.txt$".to_string(), "m".to_string());
    args.output = Output::Entry;
    let analyzer = Analyzer::new(args).unwrap();
    let out = analyzer.walk_zip("z.zip", &bytes, 16);
    assert_eq!(out.records, vec!["z.zip!a.txt", "z.zip!b.txt"]);
}

#[test]
fn walking_twice_yields_identical_match_content() {
    let inner = zip_of(&[("entry.txt", b"x=1\nx=2\n")]);
    let outer = zip_of(&[("inner.zip", inner.as_slice()), ("top.txt", b"x=3\n")]);
    let analyzer = analyzer(".*\\.txt$", "x=\\d+");
    let first = analyzer.walk_file("t.zip", &outer, 16, false);
    let second = analyzer.walk_file("t.zip", &outer, 16, false);
    assert_eq!(first.records, second.records);
    assert_eq!(first.records.len(), 3);
}

#[test]
fn rejected_expressions_are_fatal_at_startup() {
    let bad_filter = Args::new(".".to_string(), "(".to_string(), "x".to_string());
    assert!(Analyzer::new(bad_filter).is_err());
    let bad_pattern = Args::new(".".to_string(), ".*".to_string(), "(".to_string());
    assert!(Analyzer::new(bad_pattern).is_err());
    let mut bad_query = Args::new(".".to_string(), ".*".to_string(), "if then else".to_string());
    bad_query.jq = true;
    assert!(Analyzer::new(bad_query).is_err());
}

#[test]
fn name_filter_is_consulted_before_opening() {
    let analyzer = analyzer(".*\\.txt$", "hit");
    assert!(analyzer.name_matches("notes.txt"));
    assert!(!analyzer.name_matches("notes.bin"));
    assert!(analyzer.name_matches("inner.zip!a.txt"));
}

//! Run-wide configuration: the output mode and the scan settings that every
//! task shares read-only for the lifetime of a run.

use vstd::prelude::*;

verus! {

/// What each reported match prints.
#[derive(Clone, Copy, PartialEq, Eq, Structural)]
pub enum Output {
    /// Logical path followed by the matched line and its context lines.
    All,
    /// The file's top-level path, cut at the first container delimiter.
    File,
    /// The complete logical path, nested container segments kept.
    Entry,
    /// The matched value (or the joined selected capture values) and context.
    Pattern,
}

/// Whether a mode needs only the first match of a file, so the scan of that
/// file may stop after reporting once.
pub open spec fn early_exit_mode(o: Output) -> bool {
    o is File || o is Entry
}

/// Ghost mirror of [`Args`]: every string as its character sequence.
pub struct ArgsView {
    pub output: Output,
    pub directory: Seq<char>,
    pub file_pat: Seq<char>,
    pub pattern: Seq<char>,
    pub verbose: bool,
    pub quiet: bool,
    pub delimiter: Seq<char>,
    pub zip_delimiter: Seq<char>,
    pub line_delimiter: Seq<char>,
    pub parallel: int,
    pub max_errors: int,
    pub jq: bool,
    pub after: int,
    pub suppress_name: bool,
    pub capture_groups: Seq<usize>,
    pub capture_delimiter: Seq<char>,
    pub max_depth: int,
}

/// The run-wide scan settings. Built once at startup and then only read.
#[derive(Clone)]
pub struct Args {
    /// What output is desired.
    pub output: Output,
    /// Root to search; `-` means the roots arrive on standard input.
    pub directory: String,
    /// Only scan files whose logical path matches this pattern.
    pub file_pat: String,
    /// Report lines (or document values) matching this pattern or query.
    pub pattern: String,
    /// Report skipped files.
    pub verbose: bool,
    /// Suppress warnings about unreadable content.
    pub quiet: bool,
    /// Between a path prefix and the line it introduces.
    pub delimiter: String,
    /// Between a container's path and an entry's name.
    pub zip_delimiter: String,
    /// Between the lines of one multi-line record.
    pub line_delimiter: String,
    /// How many workers run in parallel.
    pub parallel: usize,
    /// Consecutive line-decode failures tolerated before a file is abandoned.
    pub max_errors: usize,
    /// Evaluate `pattern` as a whole-document query instead of a line regex.
    pub jq: bool,
    /// How many lines after a matching line are reported with it.
    pub after: usize,
    /// Omit the path prefix that [`Output::All`] puts before each line.
    pub suppress_name: bool,
    /// In [`Output::Pattern`] mode, the capture groups to report; empty
    /// means the whole matched line.
    pub capture_groups: Vec<usize>,
    /// Between selected capture values.
    pub capture_delimiter: String,
    /// How many levels of containers nested in containers are opened.
    pub max_depth: u32,
}

impl View for Args {
    type V = ArgsView;

    open spec fn view(&self) -> ArgsView {
        ArgsView {
            output: self.output,
            directory: self.directory@,
            file_pat: self.file_pat@,
            pattern: self.pattern@,
            verbose: self.verbose,
            quiet: self.quiet,
            delimiter: self.delimiter@,
            zip_delimiter: self.zip_delimiter@,
            line_delimiter: self.line_delimiter@,
            parallel: self.parallel as int,
            max_errors: self.max_errors as int,
            jq: self.jq,
            after: self.after as int,
            suppress_name: self.suppress_name,
            capture_groups: self.capture_groups@,
            capture_delimiter: self.capture_delimiter@,
            max_depth: self.max_depth as int,
        }
    }
}

impl Args {
    /// The settings a run starts from before the command line adjusts them.
    pub fn new(directory: String, file_pat: String, pattern: String) -> (r: Args)
        ensures
            r@.output == Output::All,
            r@.directory == directory@,
            r@.file_pat == file_pat@,
            r@.pattern == pattern@,
            r@.verbose == false,
            r@.quiet == false,
            r@.delimiter == ": "@,
            r@.zip_delimiter == "!"@,
            r@.line_delimiter == "\n"@,
            r@.parallel == 1int,
            r@.max_errors == 5int,
            r@.jq == false,
            r@.after == 0int,
            r@.suppress_name == false,
            r@.capture_groups == Seq::<usize>::empty(),
            r@.capture_delimiter == ","@,
            r@.max_depth == 16int,
    {
        Args {
            output: Output::All,
            directory,
            file_pat,
            pattern,
            verbose: false,
            quiet: false,
            delimiter: ": ".to_owned(),
            zip_delimiter: "!".to_owned(),
            line_delimiter: "\n".to_owned(),
            parallel: 1,
            max_errors: 5,
            jq: false,
            after: 0,
            suppress_name: false,
            capture_groups: Vec::new(),
            capture_delimiter: ",".to_owned(),
            max_depth: 16,
        }
    }
}

} // verus!

//! Classifying paths and walking archive containers. A directory fans out
//! one unit per child (the shell enumerates it and feeds each child back
//! in); a name ending in the container suffix opens as an archive whose
//! entries are classified inline, nested containers recursing through the
//! same path under a configured depth bound; anything else is a candidate
//! file for the match engine, filtered by name unless it is the root the
//! run was asked to scan.

use vstd::prelude::*;

use crate::config::Args;
use crate::config::ArgsView;
use crate::engine::ScanOutcome;
use crate::engine::scan_model;
use crate::jq_processor::JqProcessor;
use crate::jq_processor::jq_found_from;
use crate::jq_processor::jq_program_ok;
use crate::jq_processor::jq_records_from;
use crate::jq_processor::json_doc_ok;
use crate::regex_processor::RegexProcessor;
use crate::regex_processor::regex_match;
use crate::regex_processor::regex_ok;
use crate::text::has_suffix;
use crate::text::is_suffix_of;

verus! {

/// The container-name convention: a path names an archive when it ends in
/// the archive suffix.
pub open spec fn is_archive_name(path: Seq<char>) -> bool {
    is_suffix_of(".zip"@, path)
}

/// Whether `path` follows the archive-container naming convention.
pub fn archive_name(path: &str) -> (r: bool)
    ensures
        r == is_archive_name(path@),
{
    has_suffix(path, ".zip")
}

/// What one path classifies as, in classification order: a directory fans
/// out, an archive name opens as a container, a regular file is scanned,
/// and anything else (links, devices, sockets) is skipped.
pub enum PathClass {
    Directory,
    Archive,
    Plain,
    Other,
}

/// The classification of a path whose node kind the file system reported.
pub open spec fn classify_spec(path: Seq<char>, is_dir: bool, is_file: bool) -> PathClass {
    if is_dir {
        PathClass::Directory
    } else if is_archive_name(path) {
        PathClass::Archive
    } else if is_file {
        PathClass::Plain
    } else {
        PathClass::Other
    }
}

/// Classifies one path: directories first, then the archive-name
/// convention, then regular files, everything else skipped.
pub fn classify_path(path: &str, is_dir: bool, is_file: bool) -> (r: PathClass)
    ensures
        r == classify_spec(path@, is_dir, is_file),
{
    if is_dir {
        PathClass::Directory
    } else if archive_name(path) {
        PathClass::Archive
    } else if is_file {
        PathClass::Plain
    } else {
        PathClass::Other
    }
}

/// Appends an archive entry's name to its container's logical path,
/// separated by the container delimiter.
pub fn compose_logical_path(parent: &str, delim: &str, entry: &str) -> (r: String)
    ensures
        r@ == parent@ + delim@ + entry@,
{
    let mut r = parent.to_owned();
    r.append(delim);
    r.append(entry);
    r
}

/// One archive entry, decoded in memory: its name within the container,
/// whether it is a directory placeholder, and its content bytes.
pub struct ArchiveEntry {
    /// Name within the container.
    pub name: String,
    /// A directory placeholder holds no content to scan.
    pub is_dir: bool,
    /// The entry's decompressed bytes.
    pub data: Vec<u8>,
}

impl View for ArchiveEntry {
    type V = (Seq<char>, bool, Seq<u8>);

    open spec fn view(&self) -> (Seq<char>, bool, Seq<u8>) {
        (self.name@, self.is_dir, self.data@)
    }
}

/// The entry table a byte stream decodes to under the archive format, or
/// nothing when the format rejects the stream.
pub uninterp spec fn archive_parse(data: Seq<u8>) -> Option<Seq<(Seq<char>, bool, Seq<u8>)>>;

/// Relies on `zip::ZipArchive` over an in-memory reader: which entries an
/// archive holds, their names, kinds and contents, depend on the archive
/// bytes alone; a stream the format rejects is refused whole.
#[verifier::external_body]
fn read_archive(data: &Vec<u8>) -> (r: Result<Vec<ArchiveEntry>, String>)
    ensures
        r is Ok <==> archive_parse(data@) is Some,
        r matches Ok(es) ==> archive_parse(data@)
            == Some(es@.map_values(|e: ArchiveEntry| e@)),
{
    let cursor = std::io::Cursor::new(data.as_slice());
    let mut archive = zip::ZipArchive::new(cursor).map_err(|e| e.to_string())?;
    let mut out = Vec::new();
    for i in 0..archive.len() {
        let mut f = archive.by_index(i).map_err(|e| e.to_string())?;
        let name = f.name().to_string();
        let is_dir = f.is_dir();
        let mut bytes = Vec::new();
        std::io::Read::read_to_end(&mut f, &mut bytes).map_err(|e| e.to_string())?;
        out.push(ArchiveEntry { name, is_dir, data: bytes });
    }
    Ok(out)
}

/// The configured content matcher: a line regex or a whole-document query.
pub enum Processor {
    /// Match each decoded line against a regular expression.
    Regex(RegexProcessor),
    /// Evaluate a query against each file as one document.
    Jq(JqProcessor),
}

impl Processor {
    /// The expression the matcher was compiled from.
    pub open spec fn expression(self) -> Seq<char> {
        match self {
            Processor::Regex(rp) => rp.pattern(),
            Processor::Jq(jp) => jp.query(),
        }
    }
}

/// The records of scanning one candidate file's bytes with the line
/// matcher. (The document matcher's per-file records are pinned by
/// `jq_records_from` over the stream its query produced; that stream is
/// not a function of the bytes alone, since the query language has
/// builtins that consult more, so the walk models below speak of the
/// line matcher.)
pub open spec fn file_scan_records(cfg: ArgsView, pat: Seq<char>, path: Seq<char>, data: Seq<u8>) -> Seq<Seq<char>> {
    scan_model(cfg, path, pat, data).records
}

/// The records of one discovered (non-root) candidate file: scanned when
/// its logical path passes the filename filter, skipped otherwise.
pub open spec fn search_records(cfg: ArgsView, pat: Seq<char>, path: Seq<char>, data: Seq<u8>) -> Seq<Seq<char>> {
    if regex_match(cfg.file_pat, path) {
        file_scan_records(cfg, pat, path, data)
    } else {
        seq![]
    }
}

/// The records of walking one archive: its entry table decoded, each entry
/// classified inline, in entry order.
pub open spec fn walk_zip_records(cfg: ArgsView, pat: Seq<char>, path: Seq<char>, data: Seq<u8>, depth: int) -> Seq<Seq<char>>
    decreases depth, 1int, 0int,
    when depth >= 0
{
    match archive_parse(data) {
        Option::None => seq![],
        Option::Some(entries) => walk_entries_records(cfg, pat, path, entries, depth, 0),
    }
}

/// The records of the entries of one archive from entry `i` on: directory
/// placeholders are skipped; an entry named like a container recurses one
/// level deeper while the depth bound allows; any other entry is a
/// filtered candidate file.
pub open spec fn walk_entries_records(
    cfg: ArgsView,
    pat: Seq<char>,
    path: Seq<char>,
    entries: Seq<(Seq<char>, bool, Seq<u8>)>,
    depth: int,
    i: int,
) -> Seq<Seq<char>>
    decreases depth, 0int, entries.len() - i,
    when depth >= 0 && 0 <= i
{
    if i >= entries.len() {
        seq![]
    } else {
        let e = entries[i];
        let rest = walk_entries_records(cfg, pat, path, entries, depth, i + 1);
        if e.1 {
            rest
        } else {
            let child = path + cfg.zip_delimiter + e.0;
            if is_archive_name(child) {
                if depth > 0 {
                    walk_zip_records(cfg, pat, child, e.2, depth - 1) + rest
                } else {
                    rest
                }
            } else {
                search_records(cfg, pat, child, e.2) + rest
            }
        }
    }
}

/// The records of one scanned node whose bytes are in hand: an archive
/// name opens as a container; otherwise the file is scanned, unfiltered
/// when it is the root the run was asked for, filtered when discovered.
pub open spec fn walk_file_records(
    cfg: ArgsView,
    pat: Seq<char>,
    path: Seq<char>,
    data: Seq<u8>,
    depth: int,
    is_root: bool,
) -> Seq<Seq<char>>
    decreases depth, 2int, 0int,
    when depth >= 0
{
    if is_archive_name(path) {
        walk_zip_records(cfg, pat, path, data, depth)
    } else if is_root {
        file_scan_records(cfg, pat, path, data)
    } else {
        search_records(cfg, pat, path, data)
    }
}

/// In query mode, what one scanned document may report: nothing when the
/// document does not parse, and otherwise the records of some result
/// stream — some stream, not a fixed one, because the query language has
/// builtins that consult more than the document.
pub open spec fn jq_file_ok(cfg: ArgsView, path: Seq<char>, data: Seq<u8>, records: Seq<Seq<char>>) -> bool {
    if json_doc_ok(data) {
        exists|rs: Seq<Result<Seq<char>, Seq<char>>>|
            records == #[trigger] jq_records_from(cfg, path, rs, 0)
    } else {
        records == Seq::<Seq<char>>::empty()
    }
}

/// In query mode, what one discovered candidate file may report: nothing
/// when its name fails the filter, else what its document may report.
pub open spec fn jq_search_ok(cfg: ArgsView, path: Seq<char>, data: Seq<u8>, records: Seq<Seq<char>>) -> bool {
    if regex_match(cfg.file_pat, path) {
        jq_file_ok(cfg, path, data, records)
    } else {
        records == Seq::<Seq<char>>::empty()
    }
}

/// In query mode, what walking one archive may report: nothing when the
/// format rejects the bytes, else the entries' reports in entry order.
pub open spec fn jq_walk_zip_ok(cfg: ArgsView, path: Seq<char>, data: Seq<u8>, depth: int, records: Seq<Seq<char>>) -> bool
    decreases depth, 1int, 0int,
    when depth >= 0
{
    match archive_parse(data) {
        Option::None => records == Seq::<Seq<char>>::empty(),
        Option::Some(entries) => jq_walk_entries_ok(cfg, path, entries, depth, 0, records),
    }
}

/// In query mode, what the entries from position `i` on may report: the
/// concatenation, in entry order, of each non-placeholder entry's report —
/// a nested container's walk while the depth bound allows, a candidate
/// file's filtered document report otherwise. The split position `k` cuts
/// the current entry's records off the front.
pub open spec fn jq_walk_entries_ok(
    cfg: ArgsView,
    path: Seq<char>,
    entries: Seq<(Seq<char>, bool, Seq<u8>)>,
    depth: int,
    i: int,
    records: Seq<Seq<char>>,
) -> bool
    decreases depth, 0int, entries.len() - i,
    when depth >= 0 && 0 <= i
{
    if i >= entries.len() {
        records == Seq::<Seq<char>>::empty()
    } else {
        let e = entries[i];
        if e.1 {
            jq_walk_entries_ok(cfg, path, entries, depth, i + 1, records)
        } else {
            let child = path + cfg.zip_delimiter + e.0;
            if is_archive_name(child) {
                if depth > 0 {
                    exists|k: int|
                        #![trigger records.take(k)]
                        {
                            &&& 0 <= k <= records.len()
                            &&& jq_walk_zip_ok(cfg, child, e.2, depth - 1, records.take(k))
                            &&& jq_walk_entries_ok(cfg, path, entries, depth, i + 1, records.skip(k))
                        }
                } else {
                    jq_walk_entries_ok(cfg, path, entries, depth, i + 1, records)
                }
            } else {
                exists|k: int|
                    #![trigger records.take(k)]
                    {
                        &&& 0 <= k <= records.len()
                        &&& jq_search_ok(cfg, child, e.2, records.take(k))
                        &&& jq_walk_entries_ok(cfg, path, entries, depth, i + 1, records.skip(k))
                    }
            }
        }
    }
}

/// The query-mode walk invariant: whatever the remaining entries from
/// position `i` may report, the records gathered so far (`acc`) followed
/// by that remainder is a report the whole entry table allows.
pub open spec fn jq_inv(
    cfg: ArgsView,
    path: Seq<char>,
    entries: Seq<(Seq<char>, bool, Seq<u8>)>,
    depth: int,
    i: int,
    acc: Seq<Seq<char>>,
) -> bool {
    forall|rest: Seq<Seq<char>>|
        #[trigger] jq_walk_entries_ok(cfg, path, entries, depth, i, rest)
            ==> jq_walk_entries_ok(cfg, path, entries, depth, 0, acc + rest)
}

/// The query-mode walk invariant holds before the first entry, with
/// nothing gathered.
proof fn lemma_jq_inv_init(
    cfg: ArgsView,
    path: Seq<char>,
    entries: Seq<(Seq<char>, bool, Seq<u8>)>,
    depth: int,
)
    ensures
        jq_inv(cfg, path, entries, depth, 0, Seq::<Seq<char>>::empty()),
{
    assert forall|rest: Seq<Seq<char>>|
        #[trigger] jq_walk_entries_ok(cfg, path, entries, depth, 0, rest)
            implies jq_walk_entries_ok(cfg, path, entries, depth, 0,
                Seq::<Seq<char>>::empty() + rest) by {
        assert(Seq::<Seq<char>>::empty() + rest =~= rest);
    }
}

/// One step of the query-mode walk invariant: a skipped entry (a directory
/// placeholder, or a nested container past the depth bound) adds nothing.
proof fn lemma_jq_step_skip(
    cfg: ArgsView,
    path: Seq<char>,
    entries: Seq<(Seq<char>, bool, Seq<u8>)>,
    depth: int,
    i: int,
    acc: Seq<Seq<char>>,
)
    requires
        depth >= 0,
        0 <= i < entries.len(),
        entries[i].1 || (is_archive_name(path + cfg.zip_delimiter + entries[i].0) && depth == 0),
        jq_inv(cfg, path, entries, depth, i, acc),
    ensures
        jq_inv(cfg, path, entries, depth, i + 1, acc),
{
    assert forall|rest: Seq<Seq<char>>|
        #[trigger] jq_walk_entries_ok(cfg, path, entries, depth, i + 1, rest)
            implies jq_walk_entries_ok(cfg, path, entries, depth, 0, acc + rest) by {
        assert(jq_walk_entries_ok(cfg, path, entries, depth, i, rest));
    }
}

/// One step of the query-mode walk invariant: a candidate file entry adds
/// its own (filtered) document report in front of the rest.
proof fn lemma_jq_step_file(
    cfg: ArgsView,
    path: Seq<char>,
    entries: Seq<(Seq<char>, bool, Seq<u8>)>,
    depth: int,
    i: int,
    acc: Seq<Seq<char>>,
    head: Seq<Seq<char>>,
)
    requires
        depth >= 0,
        0 <= i < entries.len(),
        !entries[i].1,
        !is_archive_name(path + cfg.zip_delimiter + entries[i].0),
        jq_search_ok(cfg, path + cfg.zip_delimiter + entries[i].0, entries[i].2, head),
        jq_inv(cfg, path, entries, depth, i, acc),
    ensures
        jq_inv(cfg, path, entries, depth, i + 1, acc + head),
{
    assert forall|rest: Seq<Seq<char>>|
        #[trigger] jq_walk_entries_ok(cfg, path, entries, depth, i + 1, rest)
            implies jq_walk_entries_ok(cfg, path, entries, depth, 0, (acc + head) + rest) by {
        let combined = head + rest;
        assert(combined.take(head.len() as int) =~= head);
        assert(combined.skip(head.len() as int) =~= rest);
        assert(jq_search_ok(
            cfg, path + cfg.zip_delimiter + entries[i].0, entries[i].2,
            combined.take(head.len() as int)));
        assert(jq_walk_entries_ok(cfg, path, entries, depth, i + 1,
            combined.skip(head.len() as int)));
        assert(jq_walk_entries_ok(cfg, path, entries, depth, i, combined));
        assert(jq_walk_entries_ok(cfg, path, entries, depth, 0, acc + combined));
        assert((acc + head) + rest =~= acc + combined);
    }
}

/// One step of the query-mode walk invariant: a nested container entry
/// adds its own walk's report in front of the rest.
proof fn lemma_jq_step_zip(
    cfg: ArgsView,
    path: Seq<char>,
    entries: Seq<(Seq<char>, bool, Seq<u8>)>,
    depth: int,
    i: int,
    acc: Seq<Seq<char>>,
    head: Seq<Seq<char>>,
)
    requires
        depth >= 1,
        0 <= i < entries.len(),
        !entries[i].1,
        is_archive_name(path + cfg.zip_delimiter + entries[i].0),
        jq_walk_zip_ok(cfg, path + cfg.zip_delimiter + entries[i].0, entries[i].2, depth - 1, head),
        jq_inv(cfg, path, entries, depth, i, acc),
    ensures
        jq_inv(cfg, path, entries, depth, i + 1, acc + head),
{
    assert forall|rest: Seq<Seq<char>>|
        #[trigger] jq_walk_entries_ok(cfg, path, entries, depth, i + 1, rest)
            implies jq_walk_entries_ok(cfg, path, entries, depth, 0, (acc + head) + rest) by {
        let combined = head + rest;
        assert(combined.take(head.len() as int) =~= head);
        assert(combined.skip(head.len() as int) =~= rest);
        assert(jq_walk_zip_ok(
            cfg, path + cfg.zip_delimiter + entries[i].0, entries[i].2, depth - 1,
            combined.take(head.len() as int)));
        assert(jq_walk_entries_ok(cfg, path, entries, depth, i + 1,
            combined.skip(head.len() as int)));
        assert(jq_walk_entries_ok(cfg, path, entries, depth, i, combined));
        assert(jq_walk_entries_ok(cfg, path, entries, depth, 0, acc + combined));
        assert((acc + head) + rest =~= acc + combined);
    }
}

/// Past the last entry the query-mode walk invariant pays out: what was
/// gathered is a report the whole entry table allows.
proof fn lemma_jq_inv_finish(
    cfg: ArgsView,
    path: Seq<char>,
    entries: Seq<(Seq<char>, bool, Seq<u8>)>,
    depth: int,
    acc: Seq<Seq<char>>,
)
    requires
        depth >= 0,
        jq_inv(cfg, path, entries, depth, entries.len() as int, acc),
    ensures
        jq_walk_entries_ok(cfg, path, entries, depth, 0, acc),
{
    assert(jq_walk_entries_ok(cfg, path, entries, depth, entries.len() as int,
        Seq::<Seq<char>>::empty()));
    assert(jq_walk_entries_ok(cfg, path, entries, depth, 0,
        acc + Seq::<Seq<char>>::empty()));
    assert(acc + Seq::<Seq<char>>::empty() =~= acc);
}

/// In query mode, what walking one node may report, per its classification.
pub open spec fn jq_walk_file_ok(
    cfg: ArgsView,
    path: Seq<char>,
    data: Seq<u8>,
    depth: int,
    is_root: bool,
    records: Seq<Seq<char>>,
) -> bool
    decreases depth, 2int, 0int,
    when depth >= 0
{
    if is_archive_name(path) {
        jq_walk_zip_ok(cfg, path, data, depth, records)
    } else if is_root {
        jq_file_ok(cfg, path, data, records)
    } else {
        jq_search_ok(cfg, path, data, records)
    }
}

/// What walking one node produced: records in discovery order, and
/// diagnostics for the side channel.
pub struct WalkOutcome {
    /// Rendered records, in the order the walk found their matches.
    pub records: Vec<String>,
    /// Diagnostics: warnings unless quiet, skip-notices when verbose.
    pub notes: Vec<String>,
}

/// The run-wide analyzer: the configuration, the compiled filename filter,
/// and the compiled content matcher. `new` is the only constructor; the
/// well-formedness it establishes ties both compiled matchers to the
/// configured expressions.
pub struct Analyzer {
    /// The run-wide scan settings.
    pub args: Args,
    file_filter: RegexProcessor,
    processor: Processor,
}

impl Analyzer {
    /// The configured content matcher.
    pub closed spec fn processor_spec(&self) -> Processor {
        self.processor
    }

    /// The run-wide settings the analyzer was built from.
    pub closed spec fn config(&self) -> ArgsView {
        self.args@
    }

    /// The compiled matchers agree with the configuration.
    pub closed spec fn wf(&self) -> bool {
        &&& self.file_filter.pattern() == self.args.file_pat@
        &&& self.processor.expression() == self.args.pattern@
        &&& (self.processor is Jq <==> self.args.jq)
    }

    /// Builds the analyzer for one run: compiles the filename filter and
    /// the content matcher the configuration selects. Fails exactly when
    /// one of the two expressions is rejected — fatal at startup, before
    /// any unit is scheduled.
    pub fn new(args: Args) -> (r: Result<Analyzer, String>)
        ensures
            r is Ok <==> regex_ok(args@.file_pat) && (if args@.jq {
                jq_program_ok(args@.pattern)
            } else {
                regex_ok(args@.pattern)
            }),
            r matches Ok(a) ==> a.wf() && a.config() == args@
                && (a.processor_spec() is Jq <==> args@.jq),
    {
        let file_filter = match RegexProcessor::new(args.file_pat.as_str()) {
            Ok(f) => f,
            Err(e) => {
                return Err(e);
            }
        };
        let processor = if args.jq {
            match JqProcessor::new(args.pattern.as_str()) {
                Ok(p) => Processor::Jq(p),
                Err(e) => {
                    return Err(e);
                }
            }
        } else {
            match RegexProcessor::new(args.pattern.as_str()) {
                Ok(p) => Processor::Regex(p),
                Err(e) => {
                    return Err(e);
                }
            }
        };
        Ok(Analyzer { args, file_filter, processor })
    }

    /// Scans one candidate file's bytes with the configured matcher.
    fn scan_content(&self, path: &str, data: &Vec<u8>) -> (r: ScanOutcome)
        requires
            self.wf(),
        ensures
            self.processor_spec() matches Processor::Regex(rp)
                ==> r.records@.map_values(|s: String| s@)
                    == file_scan_records(self.config(), rp.pattern(), path@, data@),
            self.processor_spec() is Jq
                ==> jq_file_ok(self.config(), path@, data@, r.records@.map_values(|s: String| s@)),
            self.config().quiet ==> r.notes@.len() == 0,
    {
        let out = match &self.processor {
            Processor::Regex(rp) => rp.process_file(&self.args, path, data),
            Processor::Jq(jp) => jp.process_file(&self.args, path, data),
        };
        proof {
            if self.processor_spec() is Jq {
                if json_doc_ok(data@) {
                    let rs = choose|rs: Seq<Result<Seq<char>, Seq<char>>>|
                        {
                            &&& out.records@.map_values(|s: String| s@)
                                == #[trigger] jq_records_from(self.args@, path@, rs, 0)
                            &&& out.early_exit == (crate::config::early_exit_mode(self.args@.output)
                                && jq_found_from(rs, 0))
                        };
                    assert(out.records@.map_values(|s: String| s@)
                        == jq_records_from(self.config(), path@, rs, 0));
                } else {
                    assert(out.records@.map_values(|s: String| s@)
                        =~= Seq::<Seq<char>>::empty());
                }
            }
        }
        out
    }

    /// Whether a discovered logical path passes the filename filter. The
    /// shell consults this before opening a file, so a filtered-out file
    /// is never read.
    pub fn name_matches(&self, path: &str) -> (r: bool)
        requires
            self.wf(),
        ensures
            r == regex_match(self.config().file_pat, path@),
    {
        self.file_filter.is_match(path)
    }

    /// Applies the filename filter to one discovered file and scans it on
    /// a pass; a non-match is skipped, noted only when verbose.
    pub fn search_file(&self, path: &str, data: &Vec<u8>) -> (r: WalkOutcome)
        requires
            self.wf(),
        ensures
            self.processor_spec() matches Processor::Regex(rp)
                ==> r.records@.map_values(|s: String| s@)
                    == search_records(self.config(), rp.pattern(), path@, data@),
            self.processor_spec() is Jq
                ==> jq_search_ok(self.config(), path@, data@, r.records@.map_values(|s: String| s@)),
            !regex_match(self.config().file_pat, path@) ==> r.records@.len() == 0,
            !regex_match(self.config().file_pat, path@) ==> r.notes@.len() == (
                if self.config().verbose {
                    1int
                } else {
                    0int
                }),
            regex_match(self.config().file_pat, path@) && self.config().quiet
                ==> r.notes@.len() == 0,
    {
        if self.file_filter.is_match(path) {
            let outcome = self.scan_content(path, data);
            WalkOutcome { records: outcome.records, notes: outcome.notes }
        } else {
            let mut notes: Vec<String> = Vec::new();
            if self.args.verbose {
                let mut note = path.to_owned();
                note.append(": skipped, name does not match the filter");
                notes.push(note);
            }
            let empty_records: Vec<String> = Vec::new();
            proof {
                assert(empty_records@.map_values(|s: String| s@) =~= Seq::<Seq<char>>::empty());
            }
            WalkOutcome { records: empty_records, notes }
        }
    }

    /// Walks one archive: decodes its entry table from the bytes in hand,
    /// skips directory placeholders, recurses into nested containers while
    /// `depth` allows, and hands every other entry to the filename filter
    /// and the match engine. A stream the archive format rejects yields a
    /// warning and no records.
    pub fn walk_zip(&self, path: &str, data: &Vec<u8>, depth: u32) -> (r: WalkOutcome)
        requires
            self.wf(),
        ensures
            self.processor_spec() matches Processor::Regex(rp)
                ==> r.records@.map_values(|s: String| s@)
                    == walk_zip_records(self.config(), rp.pattern(), path@, data@, depth as int),
            self.processor_spec() is Jq ==> jq_walk_zip_ok(
                self.config(), path@, data@, depth as int, r.records@.map_values(|s: String| s@)),
            archive_parse(data@) is None ==> r.records@.len() == 0,
            !self.config().quiet && archive_parse(data@) is None ==> r.notes@.len() > 0,
            self.config().quiet && !self.config().verbose ==> r.notes@.len() == 0,
        decreases depth,
    {
        broadcast use vstd::prelude::Seq::add_empty_right, vstd::prelude::Seq::add_empty_left;

        let ghost cfg = self.config();
        let mut records: Vec<String> = Vec::new();
        let mut notes: Vec<String> = Vec::new();
        let entries = match read_archive(data) {
            Ok(es) => es,
            Err(msg) => {
                if !self.args.quiet {
                    let mut note = path.to_owned();
                    note.append(": unreadable archive: ");
                    note.append(msg.as_str());
                    notes.push(note);
                }
                proof {
                    assert(records@.map_values(|s: String| s@) =~= Seq::<Seq<char>>::empty());
                }
                return WalkOutcome { records, notes };
            }
        };
        let ghost ev = entries@.map_values(|e: ArchiveEntry| e@);
        let n = entries.len();
        proof {
            assert(records@.map_values(|s: String| s@) =~= Seq::<Seq<char>>::empty());
            if self.processor_spec() is Jq {
                lemma_jq_inv_init(cfg, path@, ev, depth as int);
            }
        }
        for i in 0..n
            invariant
                self.wf(),
                cfg == self.config(),
                n == entries@.len(),
                ev == entries@.map_values(|e: ArchiveEntry| e@),
                ev.len() == n,
                archive_parse(data@) == Some(ev),
                self.processor_spec() matches Processor::Regex(rp) ==> walk_zip_records(
                    cfg, rp.pattern(), path@, data@, depth as int)
                    == records@.map_values(|s: String| s@)
                    + walk_entries_records(cfg, rp.pattern(), path@, ev, depth as int, i as int),
                self.processor_spec() is Jq ==> jq_inv(
                    cfg, path@, ev, depth as int, i as int,
                    records@.map_values(|s: String| s@)),
                cfg.quiet && !cfg.verbose ==> notes@.len() == 0,
        {
            let ghost oldrecs = records@.map_values(|s: String| s@);
            proof {
                assert(ev[i as int] == entries@[i as int]@);
            }
            let entry = &entries[i];
            if !entry.is_dir {
                let child = compose_logical_path(path, self.args.zip_delimiter.as_str(), entry.name.as_str());
                let ghost childv = child@;
                proof {
                    assert(childv == path@ + cfg.zip_delimiter + ev[i as int].0);
                }
                if archive_name(child.as_str()) {
                    if depth > 0 {
                        let mut sub = self.walk_zip(child.as_str(), &entry.data, depth - 1);
                        let ghost subrecs = sub.records@.map_values(|s: String| s@);
                        records.append(&mut sub.records);
                        notes.append(&mut sub.notes);
                        proof {
                            assert(records@.map_values(|s: String| s@) =~= oldrecs + subrecs);
                            match self.processor_spec() {
                                Processor::Regex(rp) => {
                                    assert(oldrecs + (subrecs + walk_entries_records(
                                        cfg, rp.pattern(), path@, ev, depth as int, i + 1))
                                        =~= (oldrecs + subrecs) + walk_entries_records(
                                            cfg, rp.pattern(), path@, ev, depth as int, i + 1));
                                }
                                Processor::Jq(_) => {
                                    assert(jq_walk_zip_ok(
                                        cfg, path@ + cfg.zip_delimiter + ev[i as int].0,
                                        ev[i as int].2, depth as int - 1, subrecs));
                                    lemma_jq_step_zip(
                                        cfg, path@, ev, depth as int, i as int, oldrecs, subrecs);
                                }
                            }
                        }
                    } else {
                        if self.args.verbose {
                            let mut note = child;
                            note.append(": skipped, container nesting depth bound reached");
                            notes.push(note);
                        }
                        proof {
                            if self.processor_spec() is Jq {
                                lemma_jq_step_skip(cfg, path@, ev, depth as int, i as int, oldrecs);
                            }
                        }
                    }
                } else {
                    let mut sub = self.search_file(child.as_str(), &entry.data);
                    let ghost subrecs = sub.records@.map_values(|s: String| s@);
                    records.append(&mut sub.records);
                    notes.append(&mut sub.notes);
                    proof {
                        assert(records@.map_values(|s: String| s@) =~= oldrecs + subrecs);
                        match self.processor_spec() {
                            Processor::Regex(rp) => {
                                assert(oldrecs + (subrecs + walk_entries_records(
                                    cfg, rp.pattern(), path@, ev, depth as int, i + 1))
                                    =~= (oldrecs + subrecs) + walk_entries_records(
                                        cfg, rp.pattern(), path@, ev, depth as int, i + 1));
                            }
                            Processor::Jq(_) => {
                                assert(jq_search_ok(
                                    cfg, path@ + cfg.zip_delimiter + ev[i as int].0,
                                    ev[i as int].2, subrecs));
                                lemma_jq_step_file(
                                    cfg, path@, ev, depth as int, i as int, oldrecs, subrecs);
                            }
                        }
                    }
                }
            } else {
                proof {
                    if self.processor_spec() is Jq {
                        lemma_jq_step_skip(cfg, path@, ev, depth as int, i as int, oldrecs);
                    }
                }
            }
        }
        proof {
            match self.processor_spec() {
                Processor::Regex(rp) => {
                    assert(walk_entries_records(cfg, rp.pattern(), path@, ev, depth as int, ev.len() as int)
                        =~= Seq::<Seq<char>>::empty());
                }
                Processor::Jq(_) => {
                    lemma_jq_inv_finish(cfg, path@, ev, depth as int,
                        records@.map_values(|s: String| s@));
                }
            }
        }
        WalkOutcome { records, notes }
    }

    /// Walks one node whose bytes the shell read for us: opens it as an
    /// archive when its name says so, otherwise scans it — unfiltered when
    /// it is the explicit scan root, filtered when it was discovered.
    pub fn walk_file(&self, path: &str, data: &Vec<u8>, depth: u32, is_root: bool) -> (r: WalkOutcome)
        requires
            self.wf(),
        ensures
            self.processor_spec() matches Processor::Regex(rp)
                ==> r.records@.map_values(|s: String| s@) == walk_file_records(
                    self.config(), rp.pattern(), path@, data@, depth as int, is_root),
            self.processor_spec() is Jq ==> jq_walk_file_ok(
                self.config(), path@, data@, depth as int, is_root,
                r.records@.map_values(|s: String| s@)),
            self.config().quiet && !self.config().verbose ==> r.notes@.len() == 0,
    {
        if archive_name(path) {
            self.walk_zip(path, data, depth)
        } else if is_root {
            let outcome = self.scan_content(path, data);
            WalkOutcome { records: outcome.records, notes: outcome.notes }
        } else {
            self.search_file(path, data)
        }
    }
}



} // verus!

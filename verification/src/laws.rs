//! Laws the scan engine and walker obey, stated over the same models their
//! contracts use and proved once and for all inputs.

use vstd::prelude::*;

use crate::config::ArgsView;
use crate::config::early_exit_mode;
use crate::engine::context_used;
use crate::engine::lemma_context_used_bounds;
use crate::engine::match_model;
use crate::engine::scan_from;
use crate::engine::scan_model;
use crate::lines::decoded_lines_spec;
use crate::regex_processor::regex_match;
use crate::report::record_spec;
use crate::walker::archive_parse;
use crate::walker::is_archive_name;
use crate::walker::search_records;
use crate::walker::walk_entries_records;
use crate::walker::walk_file_records;
use crate::walker::walk_zip_records;

verus! {

/// How many decoded lines from position `i` on match the pattern.
pub open spec fn count_matches(pat: Seq<char>, lines: Seq<Option<Seq<char>>>, i: int) -> int
    decreases lines.len() - i,
    when 0 <= i
{
    if i >= lines.len() {
        0
    } else {
        (match lines[i] {
            Option::Some(l) => if regex_match(pat, l) {
                1int
            } else {
                0int
            },
            Option::None => 0int,
        }) + count_matches(pat, lines, i + 1)
    }
}

/// No loss and no duplication within one file: in the modes that do not
/// exit early, with no context configured and every line decodable, the
/// scan reports exactly one record per matching line.
pub proof fn lemma_file_match_count(
    cfg: ArgsView,
    path: Seq<char>,
    pat: Seq<char>,
    lines: Seq<Option<Seq<char>>>,
    i: int,
    errs: int,
)
    requires
        0 <= i,
        !early_exit_mode(cfg.output),
        cfg.after == 0,
        forall|j: int| 0 <= j < lines.len() ==> lines[j] is Some,
    ensures
        scan_from(cfg, path, pat, lines, i, errs).records.len() == count_matches(pat, lines, i),
    decreases lines.len() - i,
{
    if i < lines.len() {
        assert(lines[i] is Some);
        let l = lines[i]->0;
        if regex_match(pat, l) {
            assert(context_used(lines, i + 1, 0) == 0);
            lemma_file_match_count(cfg, path, pat, lines, i + 1, 0);
        } else {
            lemma_file_match_count(cfg, path, pat, lines, i + 1, 0);
        }
    }
}

/// The records of a sequence of scanned files, concatenated in file order.
pub open spec fn files_records(
    cfg: ArgsView,
    pat: Seq<char>,
    files: Seq<(Seq<char>, Seq<Option<Seq<char>>>)>,
    i: int,
) -> Seq<Seq<char>>
    decreases files.len() - i,
    when 0 <= i
{
    if i >= files.len() {
        seq![]
    } else {
        scan_from(cfg, files[i].0, pat, files[i].1, 0, 0).records
            + files_records(cfg, pat, files, i + 1)
    }
}

/// For a tree of qualifying files, each with the same number of matching
/// lines, the run reports exactly one record per match over the whole
/// tree: files times matches per file, none lost, none duplicated.
pub proof fn lemma_tree_match_count(
    cfg: ArgsView,
    pat: Seq<char>,
    files: Seq<(Seq<char>, Seq<Option<Seq<char>>>)>,
    per_file: int,
    i: int,
)
    requires
        0 <= i <= files.len(),
        !early_exit_mode(cfg.output),
        cfg.after == 0,
        forall|k: int| 0 <= k < files.len()
            ==> forall|j: int| 0 <= j < (#[trigger] files[k]).1.len() ==> files[k].1[j] is Some,
        forall|k: int| 0 <= k < files.len()
            ==> count_matches(pat, (#[trigger] files[k]).1, 0) == per_file,
    ensures
        files_records(cfg, pat, files, i).len() == (files.len() - i) * per_file,
    decreases files.len() - i,
{
    if i < files.len() {
        lemma_file_match_count(cfg, files[i].0, pat, files[i].1, 0, 0);
        lemma_tree_match_count(cfg, pat, files, per_file, i + 1);
        assert(files_records(cfg, pat, files, i).len()
            == per_file + files_records(cfg, pat, files, i + 1).len());
        assert((files.len() - i) * per_file
            == per_file + (files.len() - (i + 1)) * per_file) by (nonlinear_arith);
    } else {
        assert(files.len() - i == 0);
        assert((files.len() - i) * per_file == 0 * per_file);
        assert(0 * per_file == 0) by (nonlinear_arith);
    }
}

/// The primary scan and the context pulls together visit every line at
/// most once, and — when the scan runs to the end of the stream, neither
/// exiting early nor abandoning the file — exactly once: their reads sum
/// to the number of lines. A line borrowed as context is consumed from
/// the shared position for good, so it can never also be a candidate.
pub proof fn lemma_reads_partition(
    cfg: ArgsView,
    path: Seq<char>,
    pat: Seq<char>,
    lines: Seq<Option<Seq<char>>>,
    i: int,
    errs: int,
)
    requires
        0 <= i <= lines.len(),
    ensures
        ({
            let m = scan_from(cfg, path, pat, lines, i, errs);
            &&& 0 <= m.primary + m.context <= lines.len() - i
            &&& (!m.aborted && !m.early ==> m.primary + m.context == lines.len() - i)
        }),
    decreases lines.len() - i,
{
    if i < lines.len() {
        match lines[i] {
            Option::None => {
                if errs + 1 > cfg.max_errors {
                } else {
                    lemma_reads_partition(cfg, path, pat, lines, i + 1, errs + 1);
                }
            }
            Option::Some(l) => {
                if regex_match(pat, l) && !early_exit_mode(cfg.output) {
                    let used = context_used(lines, i + 1, cfg.after);
                    lemma_context_used_bounds(lines, i + 1, cfg.after);
                    lemma_reads_partition(cfg, path, pat, lines, i + 1 + used, 0);
                } else if !regex_match(pat, l) {
                    lemma_reads_partition(cfg, path, pat, lines, i + 1, 0);
                }
            }
        }
    }
}

/// The reads partition, stated for a whole scanned byte stream.
pub proof fn lemma_scan_reads_partition(cfg: ArgsView, path: Seq<char>, pat: Seq<char>, data: Seq<u8>)
    ensures
        ({
            let m = scan_model(cfg, path, pat, data);
            &&& 0 <= m.primary + m.context <= decoded_lines_spec(data).len()
            &&& (!m.aborted && !m.early
                ==> m.primary + m.context == decoded_lines_spec(data).len())
        }),
{
    lemma_reads_partition(cfg, path, pat, decoded_lines_spec(data), 0, 0);
}

/// Scanning a run of undecodable lines that stays within the error budget
/// only moves the scan forward, with the budget consumed accordingly.
proof fn lemma_skip_faults(
    cfg: ArgsView,
    path: Seq<char>,
    pat: Seq<char>,
    lines: Seq<Option<Seq<char>>>,
    i: int,
    errs: int,
    k: int,
)
    requires
        0 <= i,
        0 <= errs,
        0 <= k,
        i + k <= lines.len(),
        forall|j: int| i <= j < i + k ==> lines[j] is None,
        errs + k <= cfg.max_errors,
    ensures
        scan_from(cfg, path, pat, lines, i, errs).records
            == scan_from(cfg, path, pat, lines, i + k, errs + k).records,
        scan_from(cfg, path, pat, lines, i, errs).aborted
            == scan_from(cfg, path, pat, lines, i + k, errs + k).aborted,
    decreases k,
{
    if k > 0 {
        assert(lines[i] is None);
        lemma_skip_faults(cfg, path, pat, lines, i + 1, errs + 1, k - 1);
    }
}

/// Scanning a run of undecodable lines one longer than the error budget
/// abandons the file with nothing reported.
proof fn lemma_faults_abort(
    cfg: ArgsView,
    path: Seq<char>,
    pat: Seq<char>,
    lines: Seq<Option<Seq<char>>>,
    i: int,
    errs: int,
    k: int,
)
    requires
        0 <= i,
        0 <= errs,
        1 <= k,
        i + k <= lines.len(),
        forall|j: int| i <= j < i + k ==> lines[j] is None,
        errs + k == cfg.max_errors + 1,
    ensures
        scan_from(cfg, path, pat, lines, i, errs).aborted,
        scan_from(cfg, path, pat, lines, i, errs).records == Seq::<Seq<char>>::empty(),
    decreases k,
{
    assert(lines[i] is None);
    if k > 1 {
        lemma_faults_abort(cfg, path, pat, lines, i + 1, errs + 1, k - 1);
    } else {
        assert(errs + 1 > cfg.max_errors);
    }
}

/// The error budget's boundary: a file whose stream starts with exactly
/// `max_errors + 1` consecutive decode failures followed by a matching
/// line never reports that match — the file is abandoned first; with
/// exactly `max_errors` such failures, the match right after them is
/// reported, and first.
pub proof fn lemma_error_budget_boundary(
    cfg: ArgsView,
    path: Seq<char>,
    pat: Seq<char>,
    lines: Seq<Option<Seq<char>>>,
    k: int,
)
    requires
        0 <= k < lines.len(),
        forall|j: int| 0 <= j < k ==> lines[j] is None,
        lines[k] is Some,
        regex_match(pat, lines[k]->0),
        0 <= cfg.max_errors,
    ensures
        k == cfg.max_errors + 1 ==> ({
            let m = scan_from(cfg, path, pat, lines, 0, 0);
            m.aborted && m.records == Seq::<Seq<char>>::empty()
        }),
        k == cfg.max_errors ==> ({
            let m = scan_from(cfg, path, pat, lines, 0, 0);
            m.records.len() >= 1 && m.records[0] == record_spec(
                cfg,
                match_model(cfg, path, pat, lines, k, lines[k]->0),
            )
        }),
{
    if k == cfg.max_errors + 1 {
        lemma_faults_abort(cfg, path, pat, lines, 0, 0, k);
    }
    if k == cfg.max_errors {
        lemma_skip_faults(cfg, path, pat, lines, 0, 0, k);
        let m = scan_from(cfg, path, pat, lines, k, k);
        assert(m.records.len() >= 1 && m.records[0] == record_spec(
            cfg,
            match_model(cfg, path, pat, lines, k, lines[k]->0),
        ));
    }
}

/// Logical paths compose one delimited segment per descent: a container
/// nested inside another container yields, for each entry, the outer
/// path, the inner container's name and the entry's name, joined by the
/// container delimiter — and the entry's records are produced at exactly
/// that path.
pub proof fn lemma_nested_container_path(
    cfg: ArgsView,
    pat: Seq<char>,
    path: Seq<char>,
    outer_data: Seq<u8>,
    inner_name: Seq<char>,
    inner_data: Seq<u8>,
    entry_name: Seq<char>,
    entry_data: Seq<u8>,
    depth: int,
)
    requires
        depth >= 1,
        archive_parse(outer_data) == Some(seq![(inner_name, false, inner_data)]),
        archive_parse(inner_data) == Some(seq![(entry_name, false, entry_data)]),
        is_archive_name(path + cfg.zip_delimiter + inner_name),
        !is_archive_name(path + cfg.zip_delimiter + inner_name + cfg.zip_delimiter + entry_name),
    ensures
        walk_zip_records(cfg, pat, path, outer_data, depth) == search_records(
            cfg,
            pat,
            path + cfg.zip_delimiter + inner_name + cfg.zip_delimiter + entry_name,
            entry_data,
        ),
{
    broadcast use vstd::prelude::Seq::add_empty_right;

    let outer_entries = seq![(inner_name, false, inner_data)];
    let inner_entries = seq![(entry_name, false, entry_data)];
    let inner_path = path + cfg.zip_delimiter + inner_name;
    let entry_path = inner_path + cfg.zip_delimiter + entry_name;
    assert(walk_entries_records(cfg, pat, path, outer_entries, depth, 1)
        =~= Seq::<Seq<char>>::empty());
    assert(walk_entries_records(cfg, pat, path, outer_entries, depth, 0)
        == walk_zip_records(cfg, pat, inner_path, inner_data, depth - 1)
        + walk_entries_records(cfg, pat, path, outer_entries, depth, 1));
    assert(walk_entries_records(cfg, pat, inner_path, inner_entries, depth - 1, 1)
        =~= Seq::<Seq<char>>::empty());
    assert(walk_entries_records(cfg, pat, inner_path, inner_entries, depth - 1, 0)
        == search_records(cfg, pat, entry_path, entry_data)
        + walk_entries_records(cfg, pat, inner_path, inner_entries, depth - 1, 1));
}

/// Determinism modulo ordering: the records of a walk are a function of
/// the configuration, the compiled expressions, the logical path and the
/// bytes alone, so two runs over unmodified content yield the same match
/// content — as sequences per file, hence as an unordered collection over
/// the run.
pub proof fn lemma_walk_deterministic(
    cfg: ArgsView,
    pat: Seq<char>,
    path: Seq<char>,
    data: Seq<u8>,
    depth: int,
    is_root: bool,
    first: Seq<Seq<char>>,
    second: Seq<Seq<char>>,
)
    requires
        first == walk_file_records(cfg, pat, path, data, depth, is_root),
        second == walk_file_records(cfg, pat, path, data, depth, is_root),
    ensures
        first == second,
        first.to_multiset() == second.to_multiset(),
{
}

} // verus!

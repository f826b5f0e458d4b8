//! The streaming line-match engine. A decoded line stream is scanned in
//! order through a shared cursor; a decode fault costs one step of the
//! consecutive-error budget and a decoded line refunds it; a matching line
//! yields one record, borrowing its after-context forward through the same
//! cursor so a context line is never scanned again as a candidate.

use vstd::prelude::*;

use crate::config::Args;
use crate::config::ArgsView;
use crate::config::Output;
use crate::config::early_exit_mode;
use crate::lines::decode_lines;
use crate::lines::decoded_lines_spec;
use crate::lines::line_view;
use crate::regex_processor::RegexProcessor;
use crate::regex_processor::capture_view;
use crate::regex_processor::regex_groups;
use crate::regex_processor::regex_match;
use crate::report::MatchResult;
use crate::report::MatchResultView;
use crate::report::record_spec;
use crate::report::render_record;
use crate::shared_iterator::SharedIterator;

verus! {

/// What one file's scan produced: its records in stream order, free-form
/// diagnostics, how it ended, and how many stream items the primary scan
/// and the context pulls each consumed.
pub struct ScanOutcome {
    /// Rendered records, in the order their matches appeared.
    pub records: Vec<String>,
    /// Diagnostics for the side channel; empty when quiet.
    pub notes: Vec<String>,
    /// The mode needed only the first match, and one was found.
    pub early_exit: bool,
    /// The consecutive-error budget ran out and the rest was abandoned.
    pub aborted: bool,
    /// Stream items consumed as match candidates (faults counted too).
    pub primary_reads: usize,
    /// Stream items consumed as borrowed after-context.
    pub context_reads: usize,
}

/// Ghost summary of a scan.
pub struct ScanModel {
    pub records: Seq<Seq<char>>,
    pub primary: int,
    pub context: int,
    pub aborted: bool,
    pub early: bool,
}

/// The context lines a match borrows: decoded lines from position `i` on,
/// at most `k` of them, stopping at the end of the stream or at the first
/// fault.
pub open spec fn context_take(lines: Seq<Option<Seq<char>>>, i: int, k: int) -> Seq<Seq<char>>
    decreases k,
{
    if k <= 0 || i < 0 || i >= lines.len() {
        seq![]
    } else {
        match lines[i] {
            Option::None => seq![],
            Option::Some(l) => seq![l] + context_take(lines, i + 1, k - 1),
        }
    }
}

/// How many stream items that same context pull consumes: each borrowed
/// line, plus the fault that stopped it, if one did.
pub open spec fn context_used(lines: Seq<Option<Seq<char>>>, i: int, k: int) -> int
    decreases k,
{
    if k <= 0 || i < 0 || i >= lines.len() {
        0
    } else {
        match lines[i] {
            Option::None => 1,
            Option::Some(l) => 1 + context_used(lines, i + 1, k - 1),
        }
    }
}

/// A context pull consumes no more than what the stream still holds.
pub proof fn lemma_context_used_bounds(lines: Seq<Option<Seq<char>>>, i: int, k: int)
    ensures
        0 <= context_used(lines, i, k),
        0 <= i <= lines.len() ==> context_used(lines, i, k) <= lines.len() - i,
        context_take(lines, i, k).len() <= context_used(lines, i, k),
    decreases k,
{
    if k <= 0 || i < 0 || i >= lines.len() {
    } else {
        lemma_context_used_bounds(lines, i + 1, k - 1);
    }
}

/// The selected capture values: for each selected group index, the text of
/// that group, or empty where the group is absent or took no part.
pub open spec fn selected_captures(cfg: ArgsView, groups: Seq<Option<Seq<char>>>) -> Seq<Seq<char>> {
    cfg.capture_groups.map_values(
        |g: usize| if g < groups.len() && groups[g as int] is Some {
            groups[g as int]->0
        } else {
            Seq::<char>::empty()
        },
    )
}

/// Whether a scan reports captures: value-only mode with groups selected.
pub open spec fn wants_captures(cfg: ArgsView) -> bool {
    cfg.output is Pattern && cfg.capture_groups.len() > 0
}

/// The match found at stream position `i`, as reported.
pub open spec fn match_model(
    cfg: ArgsView,
    path: Seq<char>,
    pat: Seq<char>,
    lines: Seq<Option<Seq<char>>>,
    i: int,
    line: Seq<char>,
) -> MatchResultView {
    MatchResultView {
        path: path,
        value: line,
        context: if early_exit_mode(cfg.output) {
            seq![]
        } else {
            context_take(lines, i + 1, cfg.after)
        },
        captures: if wants_captures(cfg) {
            Some(selected_captures(cfg, regex_groups(pat, line)))
        } else {
            None
        },
    }
}

/// The scan of the stream from position `i` on, with `errs` consecutive
/// errors already on the budget: every decoded line is a candidate, a
/// match is rendered and (in the non-early modes) borrows context forward,
/// and the file is abandoned once the budget is exceeded.
pub open spec fn scan_from(
    cfg: ArgsView,
    path: Seq<char>,
    pat: Seq<char>,
    lines: Seq<Option<Seq<char>>>,
    i: int,
    errs: int,
) -> ScanModel
    decreases lines.len() - i,
    when 0 <= i
    via scan_from_decreases
{
    if i >= lines.len() {
        ScanModel { records: seq![], primary: 0, context: 0, aborted: false, early: false }
    } else {
        match lines[i] {
            Option::None => {
                if errs + 1 > cfg.max_errors {
                    ScanModel { records: seq![], primary: 1, context: 0, aborted: true, early: false }
                } else {
                    let rest = scan_from(cfg, path, pat, lines, i + 1, errs + 1);
                    ScanModel {
                        records: rest.records,
                        primary: rest.primary + 1,
                        context: rest.context,
                        aborted: rest.aborted,
                        early: rest.early,
                    }
                }
            }
            Option::Some(line) => {
                if regex_match(pat, line) {
                    let rec = record_spec(cfg, match_model(cfg, path, pat, lines, i, line));
                    if early_exit_mode(cfg.output) {
                        ScanModel {
                            records: seq![rec],
                            primary: 1,
                            context: 0,
                            aborted: false,
                            early: true,
                        }
                    } else {
                        let used = context_used(lines, i + 1, cfg.after);
                        let rest = scan_from(cfg, path, pat, lines, i + 1 + used, 0);
                        ScanModel {
                            records: seq![rec] + rest.records,
                            primary: rest.primary + 1,
                            context: rest.context + used,
                            aborted: rest.aborted,
                            early: rest.early,
                        }
                    }
                } else {
                    let rest = scan_from(cfg, path, pat, lines, i + 1, 0);
                    ScanModel {
                        records: rest.records,
                        primary: rest.primary + 1,
                        context: rest.context,
                        aborted: rest.aborted,
                        early: rest.early,
                    }
                }
            }
        }
    }
}

#[via_fn]
proof fn scan_from_decreases(
    cfg: ArgsView,
    path: Seq<char>,
    pat: Seq<char>,
    lines: Seq<Option<Seq<char>>>,
    i: int,
    errs: int,
) {
    lemma_context_used_bounds(lines, i + 1, cfg.after);
}

/// The scan of a whole byte stream under the line matcher.
pub open spec fn scan_model(cfg: ArgsView, path: Seq<char>, pat: Seq<char>, data: Seq<u8>) -> ScanModel {
    scan_from(cfg, path, pat, decoded_lines_spec(data), 0, 0)
}

/// Picks the configured capture groups out of the groups of one match.
fn select_captures(args: &Args, groups: &Vec<Option<String>>) -> (r: Vec<String>)
    ensures
        r@.map_values(|s: String| s@) == selected_captures(
            args@,
            groups@.map_values(|c: Option<String>| capture_view(c)),
        ),
{
    let ghost gs = groups@.map_values(|c: Option<String>| capture_view(c));
    let mut out: Vec<String> = Vec::new();
    let n = args.capture_groups.len();
    for i in 0..n
        invariant
            n == args@.capture_groups.len(),
            gs == groups@.map_values(|c: Option<String>| capture_view(c)),
            gs.len() == groups@.len(),
            out@.len() == i,
            forall|j: int| 0 <= j < i
                ==> #[trigger] out@[j]@ == selected_captures(args@, gs)[j],
    {
        let g = args.capture_groups[i];
        if g < groups.len() {
            match &groups[g] {
                Some(s) => {
                    out.push(s.clone());
                }
                None => {
                    out.push(String::new());
                }
            }
            proof {
                assert(gs[g as int] == capture_view(groups@[g as int]));
            }
        } else {
            out.push(String::new());
        }
    }
    assert(out@.map_values(|s: String| s@) =~= selected_captures(args@, gs));
    out
}

impl RegexProcessor {
    /// Scans one file's bytes as decoded lines and reports every match of
    /// this processor's pattern, as `scan_model` describes: in stream
    /// order, under the consecutive-error budget, with context borrowed
    /// forward through the shared cursor.
    #[verifier::rlimit(60)]
    pub fn process_file(&self, args: &Args, path: &str, data: &Vec<u8>) -> (r: ScanOutcome)
        ensures
            ({
                let model = scan_model(args@, path@, self.pattern(), data@);
                &&& r.records@.map_values(|s: String| s@) == model.records
                &&& r.primary_reads == model.primary
                &&& r.context_reads == model.context
                &&& r.aborted == model.aborted
                &&& r.early_exit == model.early
            }),
            args@.quiet ==> r.notes@.len() == 0,
            !args@.quiet && scan_model(args@, path@, self.pattern(), data@).aborted
                ==> r.notes@.len() > 0,
    {
        let line_items = decode_lines(data);
        let nlines = line_items.len();
        let ghost linesv = decoded_lines_spec(data@);
        let ghost pat = self.pattern();
        let ghost total = scan_from(args@, path@, pat, linesv, 0, 0);
        let mut it = SharedIterator::new(line_items);
        let mut records: Vec<String> = Vec::new();
        let mut notes: Vec<String> = Vec::new();
        let mut errs: usize = 0;
        let mut primary: usize = 0;
        let mut context: usize = 0;
        let mut aborted: bool = false;
        let mut early: bool = false;
        loop
            invariant_except_break
                !aborted,
                !early,
                ({
                    let rest = scan_from(args@, path@, pat, linesv, it.pos(), errs as int);
                    &&& total.records == records@.map_values(|s: String| s@) + rest.records
                    &&& total.primary == primary + rest.primary
                    &&& total.context == context + rest.context
                    &&& total.aborted == rest.aborted
                    &&& total.early == rest.early
                }),
            invariant
                pat == self.pattern(),
                it.items().map_values(|l: Option<String>| line_view(l)) == linesv,
                it.items().len() == linesv.len(),
                nlines == linesv.len(),
                0 <= it.pos() <= nlines,
                primary + context == it.pos(),
                errs <= args@.max_errors,
                total == scan_from(args@, path@, pat, linesv, 0, 0),
                args@.quiet ==> notes@.len() == 0,
            ensures
                total.records == records@.map_values(|s: String| s@),
                total.primary == primary,
                total.context == context,
                total.aborted == aborted,
                total.early == early,
                args@.quiet ==> notes@.len() == 0,
                !args@.quiet && aborted ==> notes@.len() > 0,
            decreases linesv.len() - it.pos(),
        {
            let ghost pos0 = it.pos();
            let ghost errs0 = errs as int;
            let ghost oldrecs = records@.map_values(|s: String| s@);
            let fetched: Option<Option<String>> = {
                match it.next() {
                    None => None,
                    Some(o) => match o {
                        None => Some(None),
                        Some(s) => Some(Some(s.clone())),
                    },
                }
            };
            proof {
                if pos0 < linesv.len() {
                    assert(line_view(it.items()[pos0])
                        == it.items().map_values(|l: Option<String>| line_view(l))[pos0]);
                }
            }
            match fetched {
                None => {
                    proof {
                        assert(pos0 >= linesv.len());
                        assert(records@.map_values(|s: String| s@) + Seq::<Seq<char>>::empty()
                            =~= records@.map_values(|s: String| s@));
                    }
                    break;
                }
                Some(None) => {
                    proof {
                        assert(linesv[pos0] is None);
                    }
                    primary = primary + 1;
                    if errs >= args.max_errors {
                        if !args.quiet {
                            let mut note = path.to_owned();
                            note.append(": abandoned after too many consecutive undecodable lines");
                            notes.push(note);
                        }
                        aborted = true;
                        proof {
                            let rest0 = scan_from(args@, path@, pat, linesv, pos0, errs0);
                            assert(rest0.records =~= Seq::<Seq<char>>::empty());
                            assert(records@.map_values(|s: String| s@) + Seq::<Seq<char>>::empty()
                                =~= records@.map_values(|s: String| s@));
                        }
                        break;
                    } else {
                        if !args.quiet {
                            let mut note = path.to_owned();
                            note.append(": skipped one undecodable line");
                            notes.push(note);
                        }
                        errs = errs + 1;
                        proof {
                            let rest0 = scan_from(args@, path@, pat, linesv, pos0, errs0);
                            let rest1 = scan_from(args@, path@, pat, linesv, pos0 + 1, errs0 + 1);
                            assert(rest0.records == rest1.records);
                            assert(rest0.primary == rest1.primary + 1);
                        }
                    }
                }
                Some(Some(line)) => {
                    proof {
                        assert(linesv[pos0] == Option::Some(line@));
                    }
                    primary = primary + 1;
                    errs = 0;
                    let (matched, groups_found): (bool, Option<Vec<Option<String>>>) =
                        if matches!(args.output, Output::Pattern) && args.capture_groups.len() > 0 {
                            let g = self.captures(line.as_str());
                            (g.is_some(), g)
                        } else {
                            (self.is_match(line.as_str()), None)
                        };
                    proof {
                        assert(matched == regex_match(pat, line@));
                    }
                    if matched {
                        let ghost mm = match_model(args@, path@, pat, linesv, pos0, line@);
                        let picked: Option<Vec<String>> = match &groups_found {
                            Some(gs) => Some(select_captures(args, gs)),
                            None => None,
                        };
                        let mut ctx_lines: Vec<String> = Vec::new();
                        let exits_early = matches!(args.output, Output::File)
                            || matches!(args.output, Output::Entry);
                        proof {
                            assert(exits_early == early_exit_mode(args@.output));
                        }
                        if !exits_early {
                            let after_count = args.after;
                            let start_pos = it.position();
                            let ghost cstart = it.pos();
                            let mut pulled: usize = 0;
                            let mut stopped: bool = false;
                            proof {
                                lemma_context_used_bounds(linesv, cstart, args@.after);
                                assert(ctx_lines@.map_values(|s: String| s@)
                                    =~= Seq::<Seq<char>>::empty());
                            }
                            while pulled < after_count && !stopped
                                invariant
                                    it.items().map_values(|l: Option<String>| line_view(l))
                                        == linesv,
                                    it.items().len() == linesv.len(),
                                    nlines == linesv.len(),
                                    after_count == args@.after,
                                    0 <= cstart <= it.pos() <= nlines,
                                    pulled <= after_count,
                                    !stopped ==> it.pos() == cstart + pulled,
                                    !stopped ==> ctx_lines@.map_values(|s: String| s@)
                                        + context_take(linesv, it.pos(), args@.after - pulled)
                                        == context_take(linesv, cstart, args@.after),
                                    !stopped ==> (it.pos() - cstart)
                                        + context_used(linesv, it.pos(), args@.after - pulled)
                                        == context_used(linesv, cstart, args@.after),
                                    stopped ==> ctx_lines@.map_values(|s: String| s@)
                                        == context_take(linesv, cstart, args@.after),
                                    stopped ==> it.pos() - cstart
                                        == context_used(linesv, cstart, args@.after),
                                decreases after_count - pulled
                                    + (if stopped { 0int } else { 1int }),
                            {
                                let ghost cpos = it.pos();
                                let ghost crem = args@.after - pulled;
                                let ghost cmap = ctx_lines@.map_values(|s: String| s@);
                                let pulled_item: Option<Option<String>> = {
                                    match it.next() {
                                        None => None,
                                        Some(o) => match o {
                                            None => Some(None),
                                            Some(s) => Some(Some(s.clone())),
                                        },
                                    }
                                };
                                proof {
                                    if cpos < linesv.len() {
                                        assert(line_view(it.items()[cpos])
                                            == it.items().map_values(
                                                |l: Option<String>| line_view(l))[cpos]);
                                    }
                                }
                                match pulled_item {
                                    None => {
                                        proof {
                                            assert(cpos >= linesv.len());
                                            assert(context_take(linesv, cpos, crem)
                                                =~= Seq::<Seq<char>>::empty());
                                            assert(cmap + Seq::<Seq<char>>::empty() =~= cmap);
                                            assert(context_used(linesv, cpos, crem) == 0);
                                        }
                                        stopped = true;
                                    }
                                    Some(None) => {
                                        proof {
                                            assert(linesv[cpos] is None);
                                            assert(context_take(linesv, cpos, crem)
                                                =~= Seq::<Seq<char>>::empty());
                                            assert(cmap + Seq::<Seq<char>>::empty() =~= cmap);
                                            assert(context_used(linesv, cpos, crem) == 1);
                                        }
                                        pulled = pulled + 1;
                                        stopped = true;
                                    }
                                    Some(Some(l)) => {
                                        proof {
                                            assert(linesv[cpos] == Option::Some(l@));
                                            assert(context_take(linesv, cpos, crem)
                                                == seq![l@] + context_take(
                                                    linesv, cpos + 1, crem - 1));
                                            assert(context_used(linesv, cpos, crem)
                                                == 1 + context_used(linesv, cpos + 1, crem - 1));
                                        }
                                        ctx_lines.push(l);
                                        pulled = pulled + 1;
                                        proof {
                                            assert(ctx_lines@.map_values(|s: String| s@)
                                                =~= cmap.push(linesv[cpos]->0));
                                            assert(cmap.push(linesv[cpos]->0)
                                                + context_take(linesv, cpos + 1, crem - 1)
                                                =~= cmap + (seq![linesv[cpos]->0]
                                                    + context_take(linesv, cpos + 1, crem - 1)));
                                        }
                                    }
                                }
                            }
                            proof {
                                if !stopped {
                                    assert(pulled == after_count);
                                    assert(context_take(linesv, it.pos(), 0)
                                        =~= Seq::<Seq<char>>::empty());
                                    assert(ctx_lines@.map_values(|s: String| s@)
                                        + Seq::<Seq<char>>::empty()
                                        =~= ctx_lines@.map_values(|s: String| s@));
                                    assert(context_used(linesv, it.pos(), 0) == 0);
                                }
                                assert(ctx_lines@.map_values(|s: String| s@)
                                    == context_take(linesv, cstart, args@.after));
                                assert(it.pos() - cstart == context_used(linesv, cstart, args@.after));
                            }
                            let end_pos = it.position();
                            context = context + (end_pos - start_pos);
                        }
                        let result = MatchResult {
                            path: path.to_owned(),
                            value: line,
                            context: ctx_lines,
                            captures: picked,
                        };
                        proof {
                            assert(result@.context =~= mm.context);
                            if wants_captures(args@) {
                                let gv = groups_found->0@.map_values(
                                    |c: Option<String>| capture_view(c));
                                assert(gv == regex_groups(pat, line@));
                                assert(result@.captures == mm.captures);
                            } else {
                                assert(result@.captures == mm.captures);
                            }
                            assert(result@ == mm);
                        }
                        let rendered = render_record(args, &result);
                        let ghost rec = record_spec(args@, mm);
                        records.push(rendered.0);
                        proof {
                            assert(records@.map_values(|s: String| s@) =~= oldrecs.push(rec));
                        }
                        if rendered.1 {
                            early = true;
                            proof {
                                let rest0 = scan_from(args@, path@, pat, linesv, pos0, errs0);
                                assert(rest0.records == seq![rec]);
                                assert(oldrecs.push(rec) =~= oldrecs + seq![rec]);
                            }
                            break;
                        }
                        proof {
                            let used = context_used(linesv, pos0 + 1, args@.after);
                            let rest0 = scan_from(args@, path@, pat, linesv, pos0, errs0);
                            let rest1 = scan_from(args@, path@, pat, linesv, pos0 + 1 + used, 0);
                            assert(rest0.records == seq![rec] + rest1.records);
                            assert(oldrecs.push(rec) =~= oldrecs + seq![rec]);
                            assert(oldrecs + (seq![rec] + rest1.records)
                                =~= (oldrecs + seq![rec]) + rest1.records);
                            assert(it.pos() == pos0 + 1 + used);
                        }
                    } else {
                        proof {
                            let rest0 = scan_from(args@, path@, pat, linesv, pos0, errs0);
                            let rest1 = scan_from(args@, path@, pat, linesv, pos0 + 1, 0);
                            assert(rest0.records == rest1.records);
                            assert(rest0.primary == rest1.primary + 1);
                        }
                    }
                }
            }
        }
        ScanOutcome {
            records,
            notes,
            early_exit: early,
            aborted,
            primary_reads: primary,
            context_reads: context,
        }
    }
}

} // verus!

//! Rendering one match as one record. Which parts of a match appear, and
//! how they are joined, depends only on the configured output mode and
//! delimiters; the rendered record and the early-exit verdict are pinned
//! exactly by `record_spec` and `early_exit_mode`.

use vstd::prelude::*;

use crate::config::Args;
use crate::config::ArgsView;
use crate::config::Output;
use crate::config::early_exit_mode;
use crate::text::join_strings;
use crate::text::join_with;
use crate::text::prefix_before;
use crate::text::truncate_before;

verus! {

/// One match: where it was found, what matched, the lines after it, and the
/// selected capture values when the run asked for captures.
pub struct MatchResult {
    /// Complete logical path of the scanned file.
    pub path: String,
    /// The matched line, or one structured-query result value.
    pub value: String,
    /// Up to the configured number of lines following the match.
    pub context: Vec<String>,
    /// The selected capture values, in selection order.
    pub captures: Option<Vec<String>>,
}

/// Ghost mirror of [`MatchResult`].
pub struct MatchResultView {
    pub path: Seq<char>,
    pub value: Seq<char>,
    pub context: Seq<Seq<char>>,
    pub captures: Option<Seq<Seq<char>>>,
}

impl View for MatchResult {
    type V = MatchResultView;

    open spec fn view(&self) -> MatchResultView {
        MatchResultView {
            path: self.path@,
            value: self.value@,
            context: self.context@.map_values(|s: String| s@),
            captures: match self.captures {
                Some(c) => Some(c@.map_values(|s: String| s@)),
                None => None,
            },
        }
    }
}

/// The reported value of a match in value-only mode: the joined selected
/// captures when captures were asked for, else the matched value itself.
pub open spec fn pattern_value(cfg: ArgsView, m: MatchResultView) -> Seq<char> {
    match m.captures {
        Some(c) => join_with(c, cfg.capture_delimiter),
        None => m.value,
    }
}

/// The lines of a whole-record report: the matched line and its context,
/// each prefixed by the path and the name delimiter unless suppressed.
pub open spec fn whole_record_lines(cfg: ArgsView, m: MatchResultView) -> Seq<Seq<char>> {
    (seq![m.value] + m.context).map_values(
        |l: Seq<char>| if cfg.suppress_name { l } else { m.path + cfg.delimiter + l },
    )
}

/// The full text of the record reported for one match, per output mode.
pub open spec fn record_spec(cfg: ArgsView, m: MatchResultView) -> Seq<char> {
    match cfg.output {
        Output::File => prefix_before(m.path, cfg.zip_delimiter),
        Output::Entry => m.path,
        Output::All => join_with(whole_record_lines(cfg, m), cfg.line_delimiter),
        Output::Pattern => join_with(seq![pattern_value(cfg, m)] + m.context, cfg.line_delimiter),
    }
}

/// Renders one match as the text of its record, and says whether the mode
/// needs no further match from the same file.
pub fn render_record(args: &Args, m: &MatchResult) -> (r: (String, bool))
    ensures
        r.0@ == record_spec(args@, m@),
        r.1 == early_exit_mode(args@.output),
{
    match args.output {
        Output::File => (truncate_before(m.path.as_str(), args.zip_delimiter.as_str()), true),
        Output::Entry => (m.path.clone(), true),
        Output::All => {
            let mut parts: Vec<String> = Vec::new();
            let n = m.context.len();
            if args.suppress_name {
                parts.push(m.value.clone());
                proof {
                    let whole = whole_record_lines(args@, m@);
                    assert(whole[0] == (seq![m@.value] + m@.context)[0]);
                    assert(parts@.map_values(|s: String| s@) =~= whole.take(1));
                }
                for i in 0..n
                    invariant
                        args@.suppress_name,
                        n == m.context@.len(),
                        parts@.len() == i + 1,
                        parts@.map_values(|s: String| s@)
                            == whole_record_lines(args@, m@).take(i + 1),
                {
                    parts.push(m.context[i].clone());
                    proof {
                        let whole = whole_record_lines(args@, m@);
                        assert(whole[i + 1] == (seq![m@.value] + m@.context)[i + 1]);
                        assert((seq![m@.value] + m@.context)[i + 1] == m@.context[i as int]);
                        assert(parts@.map_values(|s: String| s@) =~= whole.take(i + 2));
                    }
                }
            } else {
                let mut first = m.path.clone();
                first.append(args.delimiter.as_str());
                first.append(m.value.as_str());
                parts.push(first);
                proof {
                    let whole = whole_record_lines(args@, m@);
                    assert((seq![m@.value] + m@.context)[0] == m@.value);
                    assert(whole[0] == m@.path + args@.delimiter + m@.value);
                    assert(parts@.map_values(|s: String| s@) =~= whole.take(1));
                }
                for i in 0..n
                    invariant
                        !args@.suppress_name,
                        n == m.context@.len(),
                        parts@.len() == i + 1,
                        parts@.map_values(|s: String| s@)
                            == whole_record_lines(args@, m@).take(i + 1),
                {
                    let mut line = m.path.clone();
                    line.append(args.delimiter.as_str());
                    line.append(m.context[i].as_str());
                    parts.push(line);
                    proof {
                        let whole = whole_record_lines(args@, m@);
                        assert((seq![m@.value] + m@.context)[i + 1] == m@.context[i as int]);
                        assert(whole[i + 1] == m@.path + args@.delimiter + m@.context[i as int]);
                        assert(parts@.map_values(|s: String| s@) =~= whole.take(i + 2));
                    }
                }
            }
            proof {
                assert(whole_record_lines(args@, m@).take(n + 1) =~= whole_record_lines(args@, m@));
            }
            (join_strings(&parts, args.line_delimiter.as_str()), false)
        }
        Output::Pattern => {
            let first: String = match &m.captures {
                Some(c) => join_strings(c, args.capture_delimiter.as_str()),
                None => m.value.clone(),
            };
            let mut parts: Vec<String> = Vec::new();
            parts.push(first);
            proof {
                assert(parts@.map_values(|s: String| s@)
                    =~= (seq![pattern_value(args@, m@)] + m@.context).take(1));
            }
            let n = m.context.len();
            for i in 0..n
                invariant
                    n == m.context@.len(),
                    parts@.len() == i + 1,
                    parts@.map_values(|s: String| s@)
                        == (seq![pattern_value(args@, m@)] + m@.context).take(i + 1),
            {
                parts.push(m.context[i].clone());
                proof {
                    assert((seq![pattern_value(args@, m@)] + m@.context)[i + 1]
                        == m@.context[i as int]);
                    assert(parts@.map_values(|s: String| s@)
                        =~= (seq![pattern_value(args@, m@)] + m@.context).take(i + 2));
                }
            }
            proof {
                assert((seq![pattern_value(args@, m@)] + m@.context).take(n + 1)
                    =~= seq![pattern_value(args@, m@)] + m@.context);
            }
            (join_strings(&parts, args.line_delimiter.as_str()), false)
        }
    }
}

} // verus!

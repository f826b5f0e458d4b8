//! The whole-document query capability: a query compiled once from a user
//! expression, evaluated against each document as one atomic value. A
//! document that does not parse yields nothing; a document that does yields
//! a finite stream of result values, each reported as one match with no
//! context lines.

use vstd::prelude::*;

use crate::config::Args;
use crate::config::ArgsView;
use crate::config::early_exit_mode;
use crate::engine::ScanOutcome;
use crate::report::MatchResult;
use crate::report::MatchResultView;
use crate::report::record_spec;
use crate::report::render_record;

verus! {

#[verifier::external_type_specification]
#[verifier::external_body]
#[verifier::reject_recursive_types(F)]
pub struct ExJaqFilter<F>(jaq_core::Filter<F>);

#[verifier::external_type_specification]
#[verifier::external_body]
#[verifier::reject_recursive_types(V)]
pub struct ExJaqNative<V>(jaq_core::Native<V>);

#[verifier::external_type_specification]
#[verifier::external_body]
#[verifier::reject_recursive_types(V)]
pub struct ExJaqError<V>(jaq_core::Error<V>);

#[verifier::external_type_specification]
#[verifier::external_body]
pub struct ExJaqVal(jaq_json::Val);

/// Whether the query engine accepts `expr` as a well-formed program.
pub uninterp spec fn jq_program_ok(expr: Seq<char>) -> bool;

/// Whether the document parser accepts `doc` as one structured document.
pub uninterp spec fn json_doc_ok(doc: Seq<u8>) -> bool;

/// The ghost text of one evaluation result.
pub open spec fn result_view(r: Result<String, String>) -> Result<Seq<char>, Seq<char>> {
    match r {
        Ok(s) => Ok(s@),
        Err(s) => Err(s@),
    }
}

/// What evaluating the query over one document produced.
pub enum DocOutcome {
    /// The document did not parse; the parser's message.
    BadDoc(String),
    /// The document parsed; the query's result stream.
    Evaluated(Vec<Result<String, String>>),
}

/// Relies on `jaq_core`'s loader and compiler, seeded with the `jaq_std`
/// and `jaq_json` definitions and filters: whether a program loads and
/// compiles depends on the program text alone.
#[verifier::external_body]
fn compile_query(expr: &str) -> (r: Result<jaq_core::Filter<jaq_core::Native<jaq_json::Val>>, String>)
    ensures
        r is Ok <==> jq_program_ok(expr@),
{
    let loader = jaq_core::load::Loader::new(jaq_std::defs().chain(jaq_json::defs()));
    let arena = jaq_core::load::Arena::default();
    let program: jaq_core::load::File<&str, ()> = jaq_core::load::File { code: expr, path: () };
    let modules = match loader.load(&arena, program) {
        Ok(m) => m,
        Err(_) => return Err("query failed to parse".to_string()),
    };
    jaq_core::Compiler::default()
        .with_funs(jaq_std::funs().chain(jaq_json::funs()))
        .compile(modules)
        .map_err(|_| "query failed to compile".to_string())
}

/// A compiled whole-document query. The `filter` field always holds the
/// compiled form of the `expr` field: [`JqProcessor::new`] is the only
/// constructor and nothing mutates either field afterwards.
pub struct JqProcessor {
    filter: jaq_core::Filter<jaq_core::Native<jaq_json::Val>>,
    expr: String,
}

/// Relies on `serde_json::from_slice` and `jaq_core::Filter::run`: the
/// parser accepts a fixed set of byte streams, depending on the bytes
/// alone. Nothing is promised of the result stream's content: the query
/// language has builtins that consult the clock or the environment, and
/// one that ends the process, so whatever comes back is handed to the
/// verified reporter as an argument. Parsing and evaluation form the one
/// opaque document-query capability, so the two calls share this wrapper.
#[verifier::external_body]
fn eval_query(q: &JqProcessor, data: &Vec<u8>) -> (r: DocOutcome)
    ensures
        r is BadDoc <==> !json_doc_ok(data@),
{
    let parsed: Result<serde_json::Value, serde_json::Error> = serde_json::from_slice(data.as_slice());
    match parsed {
        Err(e) => DocOutcome::BadDoc(e.to_string()),
        Ok(value) => {
            let inputs = jaq_core::RcIter::new(core::iter::empty());
            let out = q.filter
                .run((jaq_core::Ctx::new([], &inputs), jaq_json::Val::from(value)))
                .map(|res| res.map(|v| v.to_string()).map_err(|e| e.to_string()))
                .collect();
            DocOutcome::Evaluated(out)
        }
    }
}

/// One query result value, reported as a match without context.
pub open spec fn jq_match_model(path: Seq<char>, value: Seq<char>) -> MatchResultView {
    MatchResultView { path: path, value: value, context: seq![], captures: None }
}

/// The records reported for a result stream from position `i` on: one per
/// result value, in stream order, stopping after the first in the modes
/// that need only one; error results yield no record.
pub open spec fn jq_records_from(
    cfg: ArgsView,
    path: Seq<char>,
    results: Seq<Result<Seq<char>, Seq<char>>>,
    i: int,
) -> Seq<Seq<char>>
    decreases results.len() - i,
    when 0 <= i
{
    if i >= results.len() {
        seq![]
    } else {
        match results[i] {
            Ok(v) => {
                let rec = record_spec(cfg, jq_match_model(path, v));
                if early_exit_mode(cfg.output) {
                    seq![rec]
                } else {
                    seq![rec] + jq_records_from(cfg, path, results, i + 1)
                }
            }
            Err(e) => jq_records_from(cfg, path, results, i + 1),
        }
    }
}

/// Whether any result value remains from position `i` on.
pub open spec fn jq_found_from(results: Seq<Result<Seq<char>, Seq<char>>>, i: int) -> bool
    decreases results.len() - i,
    when 0 <= i
{
    if i >= results.len() {
        false
    } else {
        results[i] is Ok || jq_found_from(results, i + 1)
    }
}

/// Renders the records for one document's result stream: one record per
/// result value, in stream order, stopping after the first in the modes
/// that need only one; an error result is noted, never reported. This is
/// the verified half of document scanning, and it holds for whatever
/// stream the query engine handed back.
pub fn report_query_results(args: &Args, path: &str, results: &Vec<Result<String, String>>) -> (r: ScanOutcome)
    ensures
        ({
            let rv = results@.map_values(|v: Result<String, String>| result_view(v));
            &&& r.records@.map_values(|s: String| s@) == jq_records_from(args@, path@, rv, 0)
            &&& r.early_exit == (early_exit_mode(args@.output) && jq_found_from(rv, 0))
        }),
        r.aborted == false,
        r.primary_reads == 0,
        r.context_reads == 0,
        args@.quiet ==> r.notes@.len() == 0,
{
    broadcast use vstd::prelude::Seq::add_empty_right;

    let mut records: Vec<String> = Vec::new();
    let mut notes: Vec<String> = Vec::new();
    let mut early: bool = false;
    let ghost rv = results@.map_values(|v: Result<String, String>| result_view(v));
    let n = results.len();
    let mut i: usize = 0;
    while i < n
        invariant_except_break
            !early,
            jq_records_from(args@, path@, rv, 0)
                == records@.map_values(|s: String| s@)
                + jq_records_from(args@, path@, rv, i as int),
            early_exit_mode(args@.output)
                ==> jq_found_from(rv, 0) == jq_found_from(rv, i as int),
        invariant
            n == results@.len(),
            rv == results@.map_values(|v: Result<String, String>| result_view(v)),
            rv.len() == n,
            0 <= i <= n,
            args@.quiet ==> notes@.len() == 0,
        ensures
            records@.map_values(|s: String| s@)
                == jq_records_from(args@, path@, rv, 0),
            early == (early_exit_mode(args@.output) && jq_found_from(rv, 0)),
            args@.quiet ==> notes@.len() == 0,
        decreases n - i,
    {
        let ghost oldrecs = records@.map_values(|s: String| s@);
        proof {
            assert(rv[i as int] == result_view(results@[i as int]));
        }
        match &results[i] {
            Ok(v) => {
                let result = MatchResult {
                    path: path.to_owned(),
                    value: v.clone(),
                    context: Vec::new(),
                    captures: None,
                };
                let ghost mm = jq_match_model(path@, v@);
                proof {
                    assert(result@.context =~= mm.context);
                    assert(result@ == mm);
                }
                let rendered = render_record(args, &result);
                let ghost rec = record_spec(args@, mm);
                records.push(rendered.0);
                proof {
                    assert(records@.map_values(|s: String| s@)
                        =~= oldrecs.push(rec));
                    assert(oldrecs.push(rec) =~= oldrecs + seq![rec]);
                }
                if rendered.1 {
                    early = true;
                    proof {
                        assert(jq_records_from(args@, path@, rv, i as int)
                            == seq![rec]);
                        assert(jq_found_from(rv, i as int));
                    }
                    break;
                }
                proof {
                    assert(jq_records_from(args@, path@, rv, i as int)
                        == seq![rec] + jq_records_from(args@, path@, rv, i + 1));
                    assert(oldrecs + (seq![rec] + jq_records_from(args@, path@, rv, i + 1))
                        =~= (oldrecs + seq![rec])
                        + jq_records_from(args@, path@, rv, i + 1));
                }
            }
            Err(e) => {
                if !args.quiet {
                    let mut note = path.to_owned();
                    note.append(": query evaluation error: ");
                    note.append(e.as_str());
                    notes.push(note);
                }
                proof {
                    assert(jq_records_from(args@, path@, rv, i as int)
                        == jq_records_from(args@, path@, rv, i + 1));
                }
            }
        }
        i = i + 1;
    }
    proof {
        if !early {
            assert(jq_records_from(args@, path@, rv, rv.len() as int)
                =~= Seq::<Seq<char>>::empty());
        }
    }
    ScanOutcome {
        records,
        notes,
        early_exit: early,
        aborted: false,
        primary_reads: 0,
        context_reads: 0,
    }
}

impl JqProcessor {
    /// The query expression this processor was compiled from.
    pub closed spec fn query(&self) -> Seq<char> {
        self.expr@
    }

    /// Compiles a query; fails exactly on the programs the query engine
    /// rejects, which is fatal at startup for the caller.
    pub fn new(expr: &str) -> (r: Result<JqProcessor, String>)
        ensures
            r is Ok <==> jq_program_ok(expr@),
            r matches Ok(p) ==> p.query() == expr@,
    {
        match compile_query(expr) {
            Ok(filter) => Ok(JqProcessor { filter, expr: expr.to_owned() }),
            Err(e) => Err(e),
        }
    }

    /// Parses one file's bytes as a whole document and reports each value
    /// the query yields on it, as `jq_records_from` describes over the
    /// stream that came back. Context lines and the error budget are
    /// line-matcher concepts: a document either parses whole or yields
    /// nothing.
    pub fn process_file(&self, args: &Args, path: &str, data: &Vec<u8>) -> (r: ScanOutcome)
        ensures
            !json_doc_ok(data@) ==> r.records@.len() == 0 && !r.early_exit,
            json_doc_ok(data@) ==> exists|rs: Seq<Result<Seq<char>, Seq<char>>>|
                {
                    &&& r.records@.map_values(|s: String| s@)
                        == #[trigger] jq_records_from(args@, path@, rs, 0)
                    &&& r.early_exit == (early_exit_mode(args@.output) && jq_found_from(rs, 0))
                },
            r.aborted == false,
            r.primary_reads == 0,
            r.context_reads == 0,
            args@.quiet ==> r.notes@.len() == 0,
            !args@.quiet && !json_doc_ok(data@) ==> r.notes@.len() > 0,
    {
        match eval_query(self, data) {
            DocOutcome::BadDoc(msg) => {
                let mut notes: Vec<String> = Vec::new();
                if !args.quiet {
                    let mut note = path.to_owned();
                    note.append(": document did not parse: ");
                    note.append(msg.as_str());
                    notes.push(note);
                }
                ScanOutcome {
                    records: Vec::new(),
                    notes,
                    early_exit: false,
                    aborted: false,
                    primary_reads: 0,
                    context_reads: 0,
                }
            }
            DocOutcome::Evaluated(results) => {
                let out = report_query_results(args, path, &results);
                proof {
                    let rv = results@.map_values(|v: Result<String, String>| result_view(v));
                    assert(out.records@.map_values(|s: String| s@)
                        == jq_records_from(args@, path@, rv, 0));
                }
                out
            }
        }
    }
}

} // verus!

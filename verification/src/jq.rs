//! The execution-filter evaluator: a thin, trusted rim around the jq
//! implementation (`jaq`) and `serde_json`. The pipeline hands it the
//! serialized object listing and inspects only the first result; the
//! verified decision of what that result means lives in
//! [`should_skip`].

use vstd::prelude::*;
use jaq_interpret::FilterT;

verus! {

/// A compiled jq filter; opaque to the verifier.
#[verifier::external_type_specification]
#[verifier::external_body]
#[verifier::reject_recursive_types(V)]
pub struct ExFilter<V>(jaq_interpret::Filter<V>);

/// The jq implementation's own value type; opaque to the verifier.
#[verifier::external_type_specification]
#[verifier::external_body]
pub struct ExVal(jaq_interpret::Val);

/// The jq implementation's evaluation error; opaque to the verifier.
#[verifier::external_type_specification]
#[verifier::external_body]
#[verifier::reject_recursive_types(V)]
pub struct ExJaqError<V>(jaq_interpret::Error<V>);

/// A parsed JSON document; opaque to the verifier.
#[verifier::external_type_specification]
#[verifier::external_body]
pub struct ExValue(serde_json::Value);

/// Relies on `jaq_parse::parse` and `jaq_interpret::ParseCtx::compile`,
/// with `jaq_core`'s native filters and `jaq_std`'s definitions
/// loaded: compiles a filter program, or reports its first error.
#[verifier::external_body]
pub fn compile_filter(expr: &str) -> (r: Result<jaq_interpret::Filter, String>) {
    let mut defs = jaq_interpret::ParseCtx::new(Vec::new());
    defs.insert_natives(jaq_core::core());
    defs.insert_defs(jaq_std::std());
    let (parsed, errs) = jaq_parse::parse(expr, jaq_parse::main());
    match (parsed, errs.into_iter().next()) {
        (_, Some(e)) => Err(e.to_string()),
        (None, None) => Err(String::new()),
        (Some(main), None) => {
            let f = defs.compile(main);
            match defs.errs.into_iter().next() {
                None => Ok(f),
                Some((e, _)) => Err(e.to_string()),
            }
        },
    }
}

/// Relies on `serde_json::from_str`: parses a JSON document.
#[verifier::external_body]
pub fn parse_json(text: &str) -> (r: Result<serde_json::Value, String>) {
    match serde_json::from_str(text) {
        Ok(v) => Ok(v),
        Err(e) => Err(e.to_string()),
    }
}

/// Relies on `jaq_interpret::FilterT::run` with an empty input
/// iterator: the filter's first output on the document, if any.
#[verifier::external_body]
fn run_first(filter: &jaq_interpret::Filter, input: serde_json::Value) -> (r: Option<
    Result<serde_json::Value, String>,
>) {
    let inputs = jaq_interpret::RcIter::new(core::iter::empty());
    let mut out = filter.run((jaq_interpret::Ctx::new([], &inputs), jaq_interpret::Val::from(
        input,
    )));
    out.next().map(|x| x.map(serde_json::Value::from).map_err(|e| e.to_string()))
}

/// Relies on `serde_json::Value::Bool` being the variant that holds
/// a boolean: the boolean a value holds, if it is one.
#[verifier::external_body]
fn value_as_bool(v: &serde_json::Value) -> (r: Option<bool>) {
    match v {
        serde_json::Value::Bool(b) => Some(*b),
        _ => None,
    }
}

/// What the pipeline retains of the filter's first result.
pub enum FilterOutcome {
    /// No filter is configured: the pipeline proceeds.
    NoFilter,
    /// The filter produced no result at all: the pipeline proceeds.
    NoResult,
    /// The first result was an evaluation error: the pipeline
    /// proceeds.
    ErrorResult(String),
    /// The first result was a value; `is_false` says whether that
    /// value is the boolean `false`.
    FirstValue { is_false: bool },
}

/// Runs the compiled filter on a document and classifies its first
/// result.
pub fn first_outcome(filter: &jaq_interpret::Filter, input: serde_json::Value) -> (r:
    FilterOutcome)
    ensures
        !(r is NoFilter),
{
    match run_first(filter, input) {
        Option::None => FilterOutcome::NoResult,
        Option::Some(Err(e)) => FilterOutcome::ErrorResult(e),
        Option::Some(Ok(v)) => match value_as_bool(&v) {
            Option::Some(b) => FilterOutcome::FirstValue { is_false: !b },
            Option::None => FilterOutcome::FirstValue { is_false: false },
        },
    }
}

/// Whether the filter outcome stops the unit of work: only a first
/// result that is the boolean `false` does; any other result, an
/// error, no result, or no filter at all lets the pipeline continue.
pub open spec fn filter_says_stop(o: FilterOutcome) -> bool {
    o matches FilterOutcome::FirstValue { is_false: true }
}

/// The verified reading of a filter outcome: stop on `false`, proceed
/// on everything else.
pub fn should_skip(o: &FilterOutcome) -> (r: bool)
    ensures
        r == filter_says_stop(*o),
{
    match o {
        FilterOutcome::FirstValue { is_false } => *is_false,
        _ => false,
    }
}

} // verus!

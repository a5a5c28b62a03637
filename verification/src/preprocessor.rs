//! The macro preprocessor: a classifying scanner feeding a text-substitution
//! engine that intercepts `#define` directives and rewrites later spans that
//! name a macro into their expansion.

pub mod parser;
pub mod iterator;
pub mod macros;
pub mod executor;

pub use crate::span::SpanType;
pub use executor::PreprocessorExecutor;
pub use macros::Macro;

use vstd::prelude::*;
use crate::FatalError;
use iterator::PreprocessorTokenIter;
use macros::MacroV;

verus! {

/// The classifier stage over a source buffer.
pub fn parse_preprocessor(source: Vec<char>) -> (r: PreprocessorTokenIter)
    ensures
        r.source@ == source@,
        r.model() == parser::spans_from(source@, 0),
{
    PreprocessorTokenIter::new(source)
}

/// The macro engine stage over a classifier stage.
pub fn execute(iter: PreprocessorTokenIter) -> (r: Result<PreprocessorExecutor, FatalError>)
    ensures
        match r {
            Ok(ex) => {
                &&& ex.wf()
                &&& ex.src() == iter.source@
                &&& iter.model().1 is None
                &&& ex.model() == executor::preprocessed(iter.source@, iter.model().0, 0,
                    Seq::<(Seq<char>, MacroV)>::empty())
            },
            Err(e) => iter.model().1 == Some(e),
        },
{
    PreprocessorExecutor::new(iter)
}

/// The whole preprocessor over a source buffer: classification runs up front
/// (a lexical error surfaces here), and `next` on the resulting engine then
/// yields the macro-resolved spans one at a time.
pub fn preprocess(source: Vec<char>) -> (r: Result<PreprocessorExecutor, FatalError>)
    ensures
        match r {
            Ok(ex) => {
                &&& ex.wf()
                &&& ex.src() == source@
                &&& parser::spans_from(source@, 0).1 is None
                &&& ex.model() == executor::preprocessed(source@, parser::spans_from(source@,
                    0).0, 0, Seq::<(Seq<char>, MacroV)>::empty())
            },
            Err(e) => parser::spans_from(source@, 0).1 == Some(e),
        },
{
    execute(parse_preprocessor(source))
}

} // verus!

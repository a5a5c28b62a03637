//! Front end of a small C-like language: a classifying scanner that slices
//! source text into typed spans, a text-substitution macro preprocessor, a
//! tokenizer, and a backtracking recursive-descent parser that builds a typed
//! syntax tree.

pub mod ast;
pub mod lexer;
pub mod preprocessor;
pub mod span;

use vstd::prelude::*;

verus! {

/// A fatal condition. No stage attempts recovery: every failure propagates
/// immediately to the caller and terminates the whole pass.
#[derive(Clone, Copy, Debug, PartialEq, Eq)]
pub enum FatalError {
    /// A character matched by no scanning rule.
    UnknownCharacter,
    /// A string literal that reaches an unescaped newline or the end of the
    /// source before its closing quote.
    UnterminatedString,
    /// A backslash escape other than `\\` or an escaped newline.
    InvalidEscape,
    /// A `#` directive whose name is not `define`.
    UnknownDirective,
    /// A `#define` with no identifier on the same line to name the macro.
    ExpectedMacroName,
    /// A `#define` parameter list that is not closed on its own line or that
    /// holds something other than identifiers and commas.
    MalformedDefine,
    /// A function-like macro name whose next non-whitespace span is not `(`.
    MissingArgumentList,
    /// A function-like macro invocation that reaches the end of the input
    /// before its closing `)`.
    UnterminatedArgumentList,
    /// A function-like macro invoked with a number of arguments different
    /// from its number of parameters.
    ArgumentCountMismatch,
    /// An integer literal that does not fit in a signed 64-bit value.
    LiteralOutOfRange,
    /// A span that reaches the tokenizer but matches no token rule: an
    /// internal consistency failure between scanner and tokenizer.
    UnexpectedSpan,
    /// No statement production matches, or tokens remain after a complete
    /// top-level parse.
    SyntaxError,
}

/// The mathematical view of a whole run of the front end over a source
/// buffer: classify the text into spans, expand macros, tokenize, and parse
/// the token buffer into top-level statements. The first fatal condition of
/// the earliest stage to hit one is the result.
pub open spec fn spec_parse_source(src: Seq<char>) -> Result<Seq<ast::tree::StmtV>, FatalError> {
    let spans = preprocessor::parser::spans_from(src, 0);
    match spans.1 {
        Some(e) => Err(e),
        None => {
            let pp = preprocessor::executor::preprocessed(src, spans.0, 0,
                Seq::<(Seq<char>, preprocessor::macros::MacroV)>::empty());
            let toks = lexer::parsers::spec_tokens(src, pp.0, pp.1);
            match toks.1 {
                Some(e) => Err(e),
                None => ast::grammar::sp_stream(toks.0.map_values(|t: lexer::token::TokenV|
                    t.kind)),
            }
        },
    }
}

/// Runs the whole front end over a source buffer: span classification, macro
/// expansion, tokenization, and the statement parser, returning the ordered
/// top-level statements of the syntax tree or the first fatal error.
pub fn parse_source(source: Vec<char>) -> (r: Result<Vec<ast::tree::Statement>, FatalError>)
    ensures
        match r {
            Ok(v) => spec_parse_source(source@) == Ok::<Seq<ast::tree::StmtV>, FatalError>(
                ast::tree::stmts_view(v@)),
            Err(e) => spec_parse_source(source@) == Err::<Seq<ast::tree::StmtV>, FatalError>(e),
        },
{
    let ex = match preprocessor::preprocess(source) {
        Ok(ex) => ex,
        Err(e) => {
            return Err(e);
        },
    };
    let mut ti = lexer::parse_tokens(ex);
    let ghost tm = ti.model();
    let toks = match ti.collect_tokens() {
        Ok(v) => v,
        Err(e) => {
            return Err(e);
        },
    };
    let stream = lexer::TokenStream::new(toks);
    proof {
        assert forall|i: int| 0 <= i < stream.kinds().len() implies #[trigger] stream.kinds()[i]
            == tm.0.map_values(|t: lexer::token::TokenV| t.kind)[i] by {
            assert(tm.0[i] == toks@.map_values(|t: lexer::token::Token| t@)[i]);
        }
        assert(stream.kinds() =~= tm.0.map_values(|t: lexer::token::TokenV| t.kind));
    }
    ast::parse_stream(&stream)
}

/// Whether `c` may continue an identifier: ASCII alphanumeric or underscore.
pub open spec fn spec_is_valid_for_ident(c: char) -> bool {
    ('a' <= c && c <= 'z') || ('A' <= c && c <= 'Z') || ('0' <= c && c <= '9') || c == '_'
}

/// Whether `c` may continue an identifier: ASCII alphanumeric or underscore.
pub fn is_valid_for_ident(c: char) -> (r: bool)
    ensures
        r == spec_is_valid_for_ident(c),
{
    ('a' <= c && c <= 'z') || ('A' <= c && c <= 'Z') || ('0' <= c && c <= '9') || c == '_'
}

} // verus!

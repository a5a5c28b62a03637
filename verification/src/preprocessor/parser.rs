//! The span classifier: slices raw source text into typed spans. Rules, in
//! priority order: decimal literals (optionally `-`-prefixed), greedy
//! two-character operator combining for `+ - < > =`, single-character
//! punctuation, string literals, whitespace runs, identifier runs. Any other
//! character is fatal.

use vstd::prelude::*;
use crate::span::{Span, SpanType};
use crate::FatalError;
use crate::spec_is_valid_for_ident;

verus! {

/// ASCII whitespace: space, tab, newline, carriage return, form feed.
pub open spec fn is_space(c: char) -> bool {
    c == ' ' || c == '\t' || c == '\n' || c == '\r' || c == '\x0C'
}

/// A decimal digit.
pub open spec fn is_digit(c: char) -> bool {
    '0' <= c && c <= '9'
}

/// Whether `c` may start an identifier: a letter or underscore.
pub open spec fn is_ident_start(c: char) -> bool {
    ('a' <= c && c <= 'z') || ('A' <= c && c <= 'Z') || c == '_'
}

/// The characters subject to greedy two-character operator combining.
pub open spec fn is_operator_char(c: char) -> bool {
    c == '+' || c == '-' || c == '<' || c == '>' || c == '='
}

/// The single-character punctuation set.
pub open spec fn is_punct_char(c: char) -> bool {
    c == '(' || c == ')' || c == '{' || c == '}' || c == ',' || c == '#' || c == '?' || c == ':'
        || c == ';' || c == '*'
}

/// The end of the run of decimal digits starting at `j`.
pub open spec fn digits_end(src: Seq<char>, j: int) -> int
    decreases src.len() - j,
{
    if j < src.len() && is_digit(src[j]) {
        digits_end(src, j + 1)
    } else {
        j
    }
}

/// The end of the run of whitespace characters starting at `j`.
pub open spec fn spaces_end(src: Seq<char>, j: int) -> int
    decreases src.len() - j,
{
    if j < src.len() && is_space(src[j]) {
        spaces_end(src, j + 1)
    } else {
        j
    }
}

/// The end of the run of identifier-continuation characters starting at `j`.
pub open spec fn ident_end(src: Seq<char>, j: int) -> int
    decreases src.len() - j,
{
    if j < src.len() && spec_is_valid_for_ident(src[j]) {
        ident_end(src, j + 1)
    } else {
        j
    }
}

pub proof fn lemma_digits_end(src: Seq<char>, j: int)
    requires
        0 <= j <= src.len(),
    ensures
        j <= digits_end(src, j) <= src.len(),
        forall|k: int| j <= k < digits_end(src, j) ==> is_digit(src[k]),
        digits_end(src, j) < src.len() ==> !is_digit(src[digits_end(src, j)]),
    decreases src.len() - j,
{
    if j < src.len() && is_digit(src[j]) {
        lemma_digits_end(src, j + 1);
    }
}

pub proof fn lemma_spaces_end(src: Seq<char>, j: int)
    requires
        0 <= j <= src.len(),
    ensures
        j <= spaces_end(src, j) <= src.len(),
        forall|k: int| j <= k < spaces_end(src, j) ==> is_space(src[k]),
        spaces_end(src, j) < src.len() ==> !is_space(src[spaces_end(src, j)]),
    decreases src.len() - j,
{
    if j < src.len() && is_space(src[j]) {
        lemma_spaces_end(src, j + 1);
    }
}

pub proof fn lemma_ident_end(src: Seq<char>, j: int)
    requires
        0 <= j <= src.len(),
    ensures
        j <= ident_end(src, j) <= src.len(),
        forall|k: int| j <= k < ident_end(src, j) ==> spec_is_valid_for_ident(src[k]),
        ident_end(src, j) < src.len() ==> !spec_is_valid_for_ident(src[ident_end(src, j)]),
    decreases src.len() - j,
{
    if j < src.len() && spec_is_valid_for_ident(src[j]) {
        lemma_ident_end(src, j + 1);
    }
}

/// What the character after a backslash must be: another backslash or a
/// newline; anything else is an invalid escape, and a missing character means
/// the string never closed.
pub open spec fn escape_check(src: Seq<char>, j: int) -> Result<(), FatalError> {
    if j >= src.len() {
        Err(FatalError::UnterminatedString)
    } else if src[j] == '\\' || src[j] == '\n' {
        Ok(())
    } else {
        Err(FatalError::InvalidEscape)
    }
}

/// Scans a string literal body starting at `j` (just past the opening quote):
/// the offset just past the unescaped closing quote, or the lexical error.
pub open spec fn string_end(src: Seq<char>, j: int) -> Result<int, FatalError>
    decreases src.len() - j,
{
    if j >= src.len() {
        Err(FatalError::UnterminatedString)
    } else if src[j] == '"' {
        Ok(j + 1)
    } else if src[j] == '\\' {
        match escape_check(src, j + 1) {
            Ok(u) => string_end(src, j + 2),
            Err(e) => Err(e),
        }
    } else if src[j] == '\n' {
        Err(FatalError::UnterminatedString)
    } else {
        string_end(src, j + 1)
    }
}

pub proof fn lemma_string_end(src: Seq<char>, j: int)
    requires
        0 <= j,
    ensures
        string_end(src, j) matches Ok(e) ==> j < e <= src.len(),
    decreases src.len() - j,
{
    if j < src.len() && src[j] != '"' && src[j] != '\n' {
        if src[j] == '\\' {
            if escape_check(src, j + 1) is Ok {
                lemma_string_end(src, j + 2);
            }
        } else {
            lemma_string_end(src, j + 1);
        }
    }
}

/// The span produced by one step of the classifier at offset `i`, or the
/// lexical error. Only meaningful for `0 <= i < src.len()`.
pub open spec fn scan_one(src: Seq<char>, i: int) -> Result<Span, FatalError> {
    if i < 0 || i >= src.len() {
        Err(FatalError::UnknownCharacter)
    } else {
        let c = src[i];
        if is_digit(c) {
            Ok(Span { start: i as usize, end: digits_end(src, i + 1) as usize, tag: SpanType::Literal })
        } else if c == '-' && i + 1 < src.len() && is_digit(src[i + 1]) {
            Ok(Span { start: i as usize, end: digits_end(src, i + 2) as usize, tag: SpanType::Literal })
        } else if is_operator_char(c) {
            if i + 1 < src.len() && (src[i + 1] == c || src[i + 1] == '=') {
                Ok(Span { start: i as usize, end: (i + 2) as usize, tag: SpanType::Operator })
            } else {
                Ok(Span { start: i as usize, end: (i + 1) as usize, tag: SpanType::Operator })
            }
        } else if is_punct_char(c) {
            Ok(Span { start: i as usize, end: (i + 1) as usize, tag: SpanType::Punctuation })
        } else if c == '"' {
            match string_end(src, i + 1) {
                Ok(e) => Ok(Span { start: i as usize, end: e as usize, tag: SpanType::String }),
                Err(e) => Err(e),
            }
        } else if is_space(c) {
            Ok(Span { start: i as usize, end: spaces_end(src, i + 1) as usize, tag: SpanType::Whitespace })
        } else if is_ident_start(c) {
            Ok(Span { start: i as usize, end: ident_end(src, i + 1) as usize, tag: SpanType::Identifier })
        } else {
            Err(FatalError::UnknownCharacter)
        }
    }
}

pub proof fn lemma_scan_one_wf(src: Seq<char>, i: int)
    requires
        0 <= i < src.len(),
        src.len() <= usize::MAX,
    ensures
        scan_one(src, i) matches Ok(sp) ==> sp.start == i && i < sp.end <= src.len(),
{
    let c = src[i];
    if is_digit(c) {
        lemma_digits_end(src, i + 1);
    } else if c == '-' && i + 1 < src.len() && is_digit(src[i + 1]) {
        lemma_digits_end(src, i + 2);
    } else if is_operator_char(c) {
    } else if is_punct_char(c) {
    } else if c == '"' {
        lemma_string_end(src, i + 1);
    } else if is_space(c) {
        lemma_spaces_end(src, i + 1);
    } else if is_ident_start(c) {
        lemma_ident_end(src, i + 1);
    }
}

/// The zero-length end-of-input span, positioned at the end of the source.
pub open spec fn eof_span(src: Seq<char>) -> Span {
    Span { start: src.len() as usize, end: src.len() as usize, tag: SpanType::Eof }
}

/// The full output of the classifier from offset `i` on: the spans it
/// produces, and whether the run ends cleanly (`None`) or in a lexical error.
/// A clean run always ends with the end-of-input span.
pub open spec fn spans_from(src: Seq<char>, i: int) -> (Seq<Span>, Option<FatalError>)
    decreases src.len() - i + 1,
{
    if i >= src.len() {
        (seq![eof_span(src)], None)
    } else {
        match scan_one(src, i) {
            Err(e) => (Seq::empty(), Some(e)),
            Ok(sp) => {
                if i < sp.end <= src.len() {
                    let rest = spans_from(src, sp.end as int);
                    (seq![sp] + rest.0, rest.1)
                } else {
                    (Seq::empty(), None)
                }
            },
        }
    }
}

/// Law: a nonempty source holding nothing but whitespace is classified as
/// exactly one whitespace span covering the whole source, followed by the
/// end-of-input span, with no error.
pub proof fn lemma_whitespace_source_classification(src: Seq<char>)
    requires
        src.len() > 0,
        src.len() <= usize::MAX,
        forall|k: int| 0 <= k < src.len() ==> is_space(#[trigger] src[k]),
    ensures
        spans_from(src, 0).0 == seq![
            Span { start: 0, end: src.len() as usize, tag: SpanType::Whitespace },
            eof_span(src),
        ],
        spans_from(src, 0).1 is None,
{
    lemma_spaces_end(src, 1);
    assert(spaces_end(src, 1) == src.len());
    let sp = Span { start: 0, end: src.len() as usize, tag: SpanType::Whitespace };
    assert(scan_one(src, 0) == Ok::<Span, FatalError>(sp));
    reveal_with_fuel(spans_from, 3);
    assert(spans_from(src, src.len() as int) == (seq![eof_span(src)], None::<FatalError>));
    assert(spans_from(src, 0).0 =~= seq![sp, eof_span(src)]);
}

/// Whether `c` is ASCII whitespace.
pub fn char_is_space(c: char) -> (r: bool)
    ensures
        r == is_space(c),
{
    c == ' ' || c == '\t' || c == '\n' || c == '\r' || c == '\x0C'
}

/// Takes the source and an offset and produces the next classified span, or
/// the lexical error that stops the scan.
pub fn take_preprocessing_seq(source: &Vec<char>, start: usize) -> (r: Result<Span, FatalError>)
    requires
        start < source@.len(),
    ensures
        r == scan_one(source@, start as int),
        r matches Ok(sp) ==> sp.start == start && start < sp.end <= source@.len(),
{
    let n: usize = source.len();
    proof {
        lemma_scan_one_wf(source@, start as int);
    }
    let c: char = source[start];
    if '0' <= c && c <= '9' {
        let e: usize = scan_digits(source, start + 1);
        Ok(Span { start, end: e, tag: SpanType::Literal })
    } else if c == '-' && start + 1 < n && '0' <= source[start + 1] && source[start + 1] <= '9' {
        let e: usize = scan_digits(source, start + 2);
        Ok(Span { start, end: e, tag: SpanType::Literal })
    } else if c == '+' || c == '-' || c == '<' || c == '>' || c == '=' {
        if start + 1 < n && (source[start + 1] == c || source[start + 1] == '=') {
            Ok(Span { start, end: start + 2, tag: SpanType::Operator })
        } else {
            Ok(Span { start, end: start + 1, tag: SpanType::Operator })
        }
    } else if c == '(' || c == ')' || c == '{' || c == '}' || c == ',' || c == '#' || c == '?'
        || c == ':' || c == ';' || c == '*' {
        Ok(Span { start, end: start + 1, tag: SpanType::Punctuation })
    } else if c == '"' {
        match take_string(source, start + 1) {
            Ok(e) => Ok(Span { start, end: e, tag: SpanType::String }),
            Err(e) => Err(e),
        }
    } else if c == ' ' || c == '\t' || c == '\n' || c == '\r' || c == '\x0C' {
        let e: usize = scan_spaces(source, start + 1);
        Ok(Span { start, end: e, tag: SpanType::Whitespace })
    } else if ('a' <= c && c <= 'z') || ('A' <= c && c <= 'Z') || c == '_' {
        let e: usize = scan_idents(source, start + 1);
        Ok(Span { start, end: e, tag: SpanType::Identifier })
    } else {
        Err(FatalError::UnknownCharacter)
    }
}

/// Consumes the escape character after a backslash; relies on the caller to
/// pass the offset just past the backslash.
pub fn take_escape_seq(source: &Vec<char>, at: usize) -> (r: Result<(), FatalError>)
    ensures
        r == escape_check(source@, at as int),
{
    if at >= source.len() {
        Err(FatalError::UnterminatedString)
    } else if source[at] == '\\' || source[at] == '\n' {
        Ok(())
    } else {
        Err(FatalError::InvalidEscape)
    }
}

/// Scans a string literal body starting just past the opening quote and
/// returns the offset just past the closing quote.
pub fn take_string(source: &Vec<char>, start: usize) -> (r: Result<usize, FatalError>)
    ensures
        match string_end(source@, start as int) {
            Ok(e) => r == Ok::<usize, FatalError>(e as usize),
            Err(er) => r == Err::<usize, FatalError>(er),
        },
{
    let mut j: usize = start;
    loop
        invariant
            start <= j,
            string_end(source@, start as int) == string_end(source@, j as int),
        decreases source@.len() - j,
    {
        if j >= source.len() {
            return Err(FatalError::UnterminatedString);
        }
        let c: char = source[j];
        if c == '"' {
            proof {
                lemma_string_end(source@, j as int);
            }
            return Ok(j + 1);
        } else if c == '\\' {
            match take_escape_seq(source, j + 1) {
                Ok(u) => {
                    j = j + 2;
                },
                Err(e) => {
                    return Err(e);
                },
            }
        } else if c == '\n' {
            return Err(FatalError::UnterminatedString);
        } else {
            j = j + 1;
        }
    }
}

fn scan_digits(source: &Vec<char>, start: usize) -> (r: usize)
    requires
        start <= source@.len(),
    ensures
        r == digits_end(source@, start as int),
        start <= r <= source@.len(),
{
    let mut j: usize = start;
    while j < source.len() && '0' <= source[j] && source[j] <= '9'
        invariant
            start <= j <= source@.len(),
            digits_end(source@, start as int) == digits_end(source@, j as int),
        decreases source@.len() - j,
    {
        j = j + 1;
    }
    proof {
        lemma_digits_end(source@, j as int);
    }
    j
}

fn scan_spaces(source: &Vec<char>, start: usize) -> (r: usize)
    requires
        start <= source@.len(),
    ensures
        r == spaces_end(source@, start as int),
        start <= r <= source@.len(),
{
    let mut j: usize = start;
    while j < source.len() && char_is_space(source[j])
        invariant
            start <= j <= source@.len(),
            spaces_end(source@, start as int) == spaces_end(source@, j as int),
        decreases source@.len() - j,
    {
        j = j + 1;
    }
    proof {
        lemma_spaces_end(source@, j as int);
    }
    j
}

fn scan_idents(source: &Vec<char>, start: usize) -> (r: usize)
    requires
        start <= source@.len(),
    ensures
        r == ident_end(source@, start as int),
        start <= r <= source@.len(),
{
    let mut j: usize = start;
    while j < source.len() && crate::is_valid_for_ident(source[j])
        invariant
            start <= j <= source@.len(),
            ident_end(source@, start as int) == ident_end(source@, j as int),
        decreases source@.len() - j,
    {
        j = j + 1;
    }
    proof {
        lemma_ident_end(source@, j as int);
    }
    j
}

} // verus!

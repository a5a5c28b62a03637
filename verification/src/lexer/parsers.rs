//! The tokenizer: pulls macro-resolved spans from the preprocessor, silently
//! discards whitespace and comments, and maps every remaining span to exactly
//! one token kind by a total function over its text and classification.

use vstd::prelude::*;
use crate::span::{Span, SpanType};
use crate::FatalError;
use crate::preprocessor::executor::PreprocessorExecutor;
use crate::preprocessor::parser::{is_digit, spans_from, is_ident_start, scan_one, ident_end,
    lemma_ident_end, eof_span, is_operator_char, is_punct_char, is_space};
use crate::preprocessor::executor::preprocessed;
use crate::preprocessor::executor::lemma_preprocess_identity;
use crate::preprocessor::macros::MacroV;
use crate::spec_is_valid_for_ident;
use super::token::{Ident, Keyword, Literal, Token, TokenKind, TokenKindV, TokenV};

verus! {

/// The value of a run of decimal digits.
pub open spec fn dec_val(t: Seq<char>) -> int
    decreases t.len(),
{
    if t.len() == 0 {
        0
    } else {
        dec_val(t.drop_last()) * 10 + (t.last() as int - 48)
    }
}

/// A nonempty run of decimal digits.
pub open spec fn is_digit_text(t: Seq<char>) -> bool {
    t.len() > 0 && forall|k: int| 0 <= k < t.len() ==> is_digit(#[trigger] t[k])
}

/// The text shapes the scanner classifies as `Literal`: a digit run,
/// optionally prefixed by a minus sign.
pub open spec fn is_literal_text(t: Seq<char>) -> bool {
    is_digit_text(t) || (t.len() > 1 && t[0] == '-' && is_digit_text(t.skip(1)))
}

/// The signed value of a literal's text.
pub open spec fn lit_val(t: Seq<char>) -> int {
    if t.len() > 0 && t[0] == '-' {
        -dec_val(t.skip(1))
    } else {
        dec_val(t)
    }
}

pub proof fn lemma_dec_val_nonneg(t: Seq<char>)
    requires
        forall|k: int| 0 <= k < t.len() ==> is_digit(#[trigger] t[k]),
    ensures
        dec_val(t) >= 0,
    decreases t.len(),
{
    if t.len() > 0 {
        assert(forall|k: int| 0 <= k < t.drop_last().len() ==> is_digit(
            #[trigger] t.drop_last()[k]));
        lemma_dec_val_nonneg(t.drop_last());
    }
}

pub proof fn lemma_dec_val_take_le(t: Seq<char>, k: int)
    requires
        forall|q: int| 0 <= q < t.len() ==> is_digit(#[trigger] t[q]),
        0 <= k <= t.len(),
    ensures
        dec_val(t.take(k)) <= dec_val(t),
    decreases t.len() - k,
{
    if k == t.len() {
        assert(t.take(k) =~= t);
    } else {
        lemma_dec_val_take_le(t, k + 1);
        assert(t.take(k + 1).drop_last() =~= t.take(k));
        assert(t.take(k + 1).last() == t[k]);
        assert(forall|q: int| 0 <= q < t.take(k).len() ==> is_digit(#[trigger] t.take(k)[q]));
        lemma_dec_val_nonneg(t.take(k));
    }
}

/// The texts of the reserved words.
pub open spec fn typedef_chars() -> Seq<char> {
    seq!['t', 'y', 'p', 'e', 'd', 'e', 'f']
}

pub open spec fn if_chars() -> Seq<char> {
    seq!['i', 'f']
}

pub open spec fn else_chars() -> Seq<char> {
    seq!['e', 'l', 's', 'e']
}

/// The token a span maps to: reserved words become keywords, any other
/// identifier span an identifier token, a literal span a signed integer, the
/// fixed punctuation and operator texts their token kinds, and end-of-input
/// its own token. A literal that does not fit a signed 64-bit value is fatal,
/// and so is any span matching no rule: an internal consistency failure
/// between scanner and tokenizer.
pub open spec fn spec_parse_token(src: Seq<char>, sp: Span) -> Result<TokenKindV, FatalError> {
    let t = sp.text(src);
    if t == typedef_chars() {
        Ok(TokenKindV::Keyword(Keyword::Typedef))
    } else if t == if_chars() {
        Ok(TokenKindV::Keyword(Keyword::If))
    } else if t == else_chars() {
        Ok(TokenKindV::Keyword(Keyword::Else))
    } else if sp.tag is Identifier {
        Ok(TokenKindV::Ident(t))
    } else if sp.tag is Literal {
        if is_literal_text(t) {
            if i64::MIN <= lit_val(t) <= i64::MAX {
                Ok(TokenKindV::Literal(Literal::Int(lit_val(t) as i64)))
            } else {
                Err(FatalError::LiteralOutOfRange)
            }
        } else {
            Err(FatalError::UnexpectedSpan)
        }
    } else if t == seq!['('] {
        Ok(TokenKindV::OpenParen)
    } else if t == seq![')'] {
        Ok(TokenKindV::CloseParen)
    } else if t == seq!['{'] {
        Ok(TokenKindV::OpenBrace)
    } else if t == seq!['}'] {
        Ok(TokenKindV::CloseBrace)
    } else if t == seq!['=', '='] {
        Ok(TokenKindV::Equals)
    } else if t == seq!['='] {
        Ok(TokenKindV::Assign)
    } else if t == seq![';'] {
        Ok(TokenKindV::SemiColon)
    } else if t == seq![','] {
        Ok(TokenKindV::Comma)
    } else if t == seq!['*'] {
        Ok(TokenKindV::Star)
    } else if sp.tag is Eof {
        Ok(TokenKindV::Eof)
    } else {
        Err(FatalError::UnexpectedSpan)
    }
}

/// Whether the text is exactly the one given character.
fn text_is_char(t: &Vec<char>, c: char) -> (r: bool)
    ensures
        r <==> t@ == seq![c],
{
    if t.len() == 1 && t[0] == c {
        assert(t@ =~= seq![c]);
        true
    } else {
        proof {
            if t@ == seq![c] {
                assert(t@.len() == 1 && t@[0] == c);
            }
        }
        false
    }
}

/// Whether the text is exactly the two given characters.
fn text_is_char2(t: &Vec<char>, a: char, b: char) -> (r: bool)
    ensures
        r <==> t@ == seq![a, b],
{
    if t.len() == 2 && t[0] == a && t[1] == b {
        assert(t@ =~= seq![a, b]);
        true
    } else {
        proof {
            if t@ == seq![a, b] {
                assert(t@.len() == 2 && t@[0] == a && t@[1] == b);
            }
        }
        false
    }
}

fn text_is_typedef(t: &Vec<char>) -> (r: bool)
    ensures
        r <==> t@ == typedef_chars(),
{
    if t.len() == 7 && t[0] == 't' && t[1] == 'y' && t[2] == 'p' && t[3] == 'e' && t[4] == 'd'
        && t[5] == 'e' && t[6] == 'f' {
        assert(t@ =~= typedef_chars());
        true
    } else {
        proof {
            if t@ == typedef_chars() {
                assert(t@.len() == 7);
                assert(t@[0] == 't' && t@[1] == 'y' && t@[2] == 'p' && t@[3] == 'e'
                    && t@[4] == 'd' && t@[5] == 'e' && t@[6] == 'f');
            }
        }
        false
    }
}

fn text_is_else(t: &Vec<char>) -> (r: bool)
    ensures
        r <==> t@ == else_chars(),
{
    if t.len() == 4 && t[0] == 'e' && t[1] == 'l' && t[2] == 's' && t[3] == 'e' {
        assert(t@ =~= else_chars());
        true
    } else {
        proof {
            if t@ == else_chars() {
                assert(t@.len() == 4);
                assert(t@[0] == 'e' && t@[1] == 'l' && t@[2] == 's' && t@[3] == 'e');
            }
        }
        false
    }
}

/// The signed 64-bit value of a literal's text, or the fatal error where it
/// does not fit.
#[verifier::loop_isolation(false)]
fn parse_literal_value(t: &Vec<char>) -> (r: Result<i64, FatalError>)
    requires
        is_literal_text(t@),
    ensures
        match r {
            Ok(v) => i64::MIN <= lit_val(t@) <= i64::MAX && v == lit_val(t@),
            Err(e) => e == FatalError::LiteralOutOfRange && !(i64::MIN <= lit_val(t@)
                <= i64::MAX),
        },
{
    let neg = t[0] == '-';
    let ghost digits = if neg { t@.skip(1) } else { t@ };
    let start: usize = if neg { 1 } else { 0 };
    let limit: u128 = if neg { 9223372036854775808u128 } else { 9223372036854775807u128 };
    let mut acc: u128 = 0;
    let mut k: usize = start;
    proof {
        assert(digits.take(0) =~= Seq::<char>::empty());
        assert(forall|q: int| 0 <= q < digits.len() ==> is_digit(#[trigger] digits[q]));
    }
    while k < t.len()
        invariant
            start <= k <= t@.len(),
            acc == dec_val(digits.take(k - start)),
            acc <= limit,
        decreases t@.len() - k,
    {
        let c = t[k];
        proof {
            assert(digits[k - start] == t@[k as int]);
            assert(is_digit(c));
        }
        let d: u128 = (c as u32 - 48) as u128;
        let next: u128 = acc * 10 + d;
        proof {
            assert(digits.take(k - start + 1).drop_last() =~= digits.take(k - start));
            assert(digits.take(k - start + 1).last() == digits[k - start]);
            assert(next == dec_val(digits.take(k - start + 1)));
        }
        if next > limit {
            proof {
                lemma_dec_val_take_le(digits, k - start + 1);
                assert(dec_val(digits) >= next);
            }
            return Err(FatalError::LiteralOutOfRange);
        }
        acc = next;
        k = k + 1;
    }
    proof {
        assert(digits.take(t@.len() - start) =~= digits);
        assert(acc == dec_val(digits));
    }
    if neg {
        let v: i128 = -(acc as i128);
        Ok(v as i64)
    } else {
        Ok(acc as i64)
    }
}

/// Maps one span to its token kind, or fails as `spec_parse_token` says.
pub fn parse_token(source: &Vec<char>, span: &Span) -> (r: Result<TokenKind, FatalError>)
    requires
        span.wf(source@),
    ensures
        match r {
            Ok(k) => spec_parse_token(source@, *span) == Ok::<TokenKindV, FatalError>(k@),
            Err(e) => spec_parse_token(source@, *span) == Err::<TokenKindV, FatalError>(e),
        },
{
    let t = span.get(source);
    if text_is_typedef(&t) {
        Ok(TokenKind::Keyword(Keyword::Typedef))
    } else if text_is_char2(&t, 'i', 'f') {
        Ok(TokenKind::Keyword(Keyword::If))
    } else if text_is_else(&t) {
        Ok(TokenKind::Keyword(Keyword::Else))
    } else if matches!(span.tag, SpanType::Identifier) {
        Ok(TokenKind::Ident(Ident::new(t)))
    } else if matches!(span.tag, SpanType::Literal) {
        if is_literal_text_exec(&t) {
            match parse_literal_value(&t) {
                Ok(v) => Ok(TokenKind::Literal(Literal::Int(v))),
                Err(e) => Err(e),
            }
        } else {
            Err(FatalError::UnexpectedSpan)
        }
    } else if text_is_char(&t, '(') {
        Ok(TokenKind::OpenParen)
    } else if text_is_char(&t, ')') {
        Ok(TokenKind::CloseParen)
    } else if text_is_char(&t, '{') {
        Ok(TokenKind::OpenBrace)
    } else if text_is_char(&t, '}') {
        Ok(TokenKind::CloseBrace)
    } else if text_is_char2(&t, '=', '=') {
        Ok(TokenKind::Equals)
    } else if text_is_char(&t, '=') {
        Ok(TokenKind::Assign)
    } else if text_is_char(&t, ';') {
        Ok(TokenKind::SemiColon)
    } else if text_is_char(&t, ',') {
        Ok(TokenKind::Comma)
    } else if text_is_char(&t, '*') {
        Ok(TokenKind::Star)
    } else if matches!(span.tag, SpanType::Eof) {
        Ok(TokenKind::Eof)
    } else {
        Err(FatalError::UnexpectedSpan)
    }
}

/// Whether the text has the shape of a literal: digits, optionally prefixed
/// by a minus sign.
#[verifier::loop_isolation(false)]
fn is_literal_text_exec(t: &Vec<char>) -> (r: bool)
    ensures
        r == is_literal_text(t@),
{
    if t.len() == 0 {
        return false;
    }
    let neg = t[0] == '-';
    let start: usize = if neg { 1 } else { 0 };
    if t.len() == start {
        assert(!is_literal_text(t@));
        return false;
    }
    let ghost digits = if neg { t@.skip(1) } else { t@ };
    let mut k: usize = start;
    while k < t.len()
        invariant
            start <= k <= t@.len(),
            forall|q: int| 0 <= q < k - start ==> is_digit(#[trigger] digits[q]),
        decreases t@.len() - k,
    {
        let c = t[k];
        if !('0' <= c && c <= '9') {
            proof {
                assert(digits[k - start] == t@[k as int]);
                assert(!is_digit_text(digits));
            }
            return false;
        }
        k = k + 1;
    }
    proof {
        assert(is_digit_text(digits));
    }
    true
}

/// The token stream a span stream maps to: whitespace and comment spans are
/// dropped, every other span becomes one token, and the first span the
/// tokenizer cannot map turns the run into that fatal error.
pub open spec fn spec_tokens(src: Seq<char>, sps: Seq<Span>, term: Option<FatalError>) -> (
    Seq<TokenV>,
    Option<FatalError>,
)
    decreases sps.len(),
{
    if sps.len() == 0 {
        (Seq::empty(), term)
    } else {
        let sp = sps[0];
        if sp.tag is Whitespace || sp.tag is Comment {
            spec_tokens(src, sps.drop_first(), term)
        } else {
            match spec_parse_token(src, sp) {
                Err(e) => (Seq::empty(), Some(e)),
                Ok(kv) => {
                    let rest = spec_tokens(src, sps.drop_first(), term);
                    (seq![TokenV { kind: kv, span: sp }] + rest.0, rest.1)
                },
            }
        }
    }
}

/// The tokenizer stage: pulls macro-resolved spans and yields tokens.
pub struct TokenIter {
    inner: PreprocessorExecutor,
}

impl TokenIter {
    /// The source text the tokens point into.
    pub closed spec fn src(self) -> Seq<char> {
        self.inner.src()
    }

    /// The tokenizer's internal invariant.
    pub closed spec fn wf(self) -> bool {
        self.inner.wf()
    }

    /// The tokens this stage will still produce, and how the run ends.
    pub closed spec fn model(self) -> (Seq<TokenV>, Option<FatalError>) {
        spec_tokens(self.inner.src(), self.inner.model().0, self.inner.model().1)
    }

    /// Produces the next token: `Ok(Some(..))` while tokens remain, `Ok(None)`
    /// at the end, or the first fatal error of the run.
    #[verifier::loop_isolation(false)]
    pub fn next(&mut self) -> (r: Result<Option<Token>, FatalError>)
        requires
            old(self).wf(),
        ensures
            final(self).wf(),
            final(self).src() == old(self).src(),
            match r {
                Ok(Some(tok)) => {
                    &&& old(self).model().0.len() > 0
                    &&& tok@ == old(self).model().0[0]
                    &&& tok.span.wf(old(self).src())
                    &&& final(self).model() == (old(self).model().0.drop_first(),
                        old(self).model().1)
                },
                Ok(None) => {
                    &&& old(self).model().0.len() == 0
                    &&& old(self).model().1 is None
                    &&& final(self).model() == old(self).model()
                },
                Err(e) => {
                    &&& old(self).model().0.len() == 0
                    &&& old(self).model().1 == Some(e)
                },
            },
    {
        loop
            invariant
                self.wf(),
                self.inner.src() == old(self).src(),
                self.model() == old(self).model(),
            decreases self.inner.model().0.len(),
        {
            let ghost pre = self.inner.model();
            match self.inner.next() {
                Ok(Some(sp)) => {
                    proof {
                        assert(pre.0.drop_first() == self.inner.model().0);
                    }
                    if !(matches!(sp.tag, SpanType::Whitespace) || matches!(sp.tag,
                        SpanType::Comment)) {
                        match parse_token(self.inner_source_ref(), &sp) {
                            Ok(k) => {
                                let tok = Token::new(k, sp);
                                proof {
                                    let rest = spec_tokens(self.inner.src(),
                                        self.inner.model().0, self.inner.model().1);
                                    assert(old(self).model().0[0] == tok@);
                                    assert(old(self).model().0.drop_first() =~= rest.0);
                                }
                                return Ok(Some(tok));
                            },
                            Err(e) => {
                                return Err(e);
                            },
                        }
                    }
                },
                Ok(None) => {
                    return Ok(None);
                },
                Err(e) => {
                    return Err(e);
                },
            }
        }
    }

    /// Runs the tokenizer to the end: the whole token buffer, or the first
    /// fatal error.
    #[verifier::loop_isolation(false)]
    pub fn collect_tokens(&mut self) -> (r: Result<Vec<Token>, FatalError>)
        requires
            old(self).wf(),
        ensures
            match r {
                Ok(v) => {
                    &&& old(self).model().1 is None
                    &&& v@.map_values(|t: Token| t@) == old(self).model().0
                    &&& forall|k: int| 0 <= k < v@.len() ==> (#[trigger] v@[k]).span.wf(
                        old(self).src())
                },
                Err(e) => old(self).model().1 == Some(e),
            },
    {
        let mut out: Vec<Token> = Vec::new();
        proof {
            assert(out@.map_values(|t: Token| t@) =~= Seq::<TokenV>::empty());
        }
        loop
            invariant
                self.wf(),
                self.src() == old(self).src(),
                old(self).model().1 == self.model().1,
                old(self).model().0 == out@.map_values(|t: Token| t@) + self.model().0,
                forall|k: int| 0 <= k < out@.len() ==> (#[trigger] out@[k]).span.wf(
                    old(self).src()),
            decreases self.model().0.len(),
        {
            let ghost pre = self.model();
            let ghost outv = out@.map_values(|t: Token| t@);
            match self.next() {
                Ok(Some(tok)) => {
                    out.push(tok);
                    proof {
                        assert(out@.map_values(|t: Token| t@) =~= outv.push(tok@));
                        assert(pre.0 =~= seq![tok@] + pre.0.drop_first());
                        assert(out@.map_values(|t: Token| t@) + self.model().0
                            =~= old(self).model().0);
                    }
                },
                Ok(None) => {
                    assert(old(self).model().0 =~= out@.map_values(|t: Token| t@));
                    return Ok(out);
                },
                Err(e) => {
                    return Err(e);
                },
            }
        }
    }

    /// The source buffer, for span text extraction.
    fn inner_source_ref(&self) -> (r: &Vec<char>)
        ensures
            r@ == self.src(),
    {
        self.inner.source_ref()
    }
}

/// The tokenizer stage over the macro engine's output.
pub fn parse_tokens(source: PreprocessorExecutor) -> (r: TokenIter)
    requires
        source.wf(),
    ensures
        r.wf(),
        r.src() == source.src(),
        r.model() == spec_tokens(source.src(), source.model().0, source.model().1),
{
    TokenIter { inner: source }
}

/// Law: expanding a span stream holding no `#define` directive is the
/// identity transformation on the token stream (whitespace never reaches the
/// tokens: `spec_tokens` drops it on both sides).
pub proof fn lemma_no_directives_token_identity(src: Seq<char>, spans: Seq<Span>)
    requires
        forall|k: int| 0 <= k < spans.len() ==> (#[trigger] spans[k]).text(src) != seq!['#'],
    ensures
        ({
            let pp = preprocessed(src, spans, 0, Seq::<(Seq<char>, MacroV)>::empty());
            spec_tokens(src, pp.0, pp.1) == spec_tokens(src, spans, None)
        }),
{
    lemma_preprocess_identity(src, spans, 0);
    assert(spans.skip(0) =~= spans);
}

/// Law: a source that is one valid identifier tokenizes, through the whole
/// scanner-preprocessor-tokenizer pipeline, to exactly that identifier token
/// followed by end-of-input; a reserved word yields its keyword token
/// instead.
pub proof fn lemma_single_identifier_tokens(src: Seq<char>)
    requires
        src.len() > 0,
        src.len() <= usize::MAX,
        is_ident_start(src[0]),
        forall|k: int| 0 <= k < src.len() ==> spec_is_valid_for_ident(#[trigger] src[k]),
    ensures
        ({
            let spans = spans_from(src, 0);
            let pp = preprocessed(src, spans.0, 0, Seq::<(Seq<char>, MacroV)>::empty());
            let toks = spec_tokens(src, pp.0, pp.1);
            &&& spans.1 is None
            &&& pp.1 is None
            &&& toks.1 is None
            &&& toks.0.len() == 2
            &&& toks.0[1].kind is Eof
            &&& (src == typedef_chars() ==> toks.0[0].kind == TokenKindV::Keyword(
                Keyword::Typedef))
            &&& (src == if_chars() ==> toks.0[0].kind == TokenKindV::Keyword(Keyword::If))
            &&& (src == else_chars() ==> toks.0[0].kind == TokenKindV::Keyword(Keyword::Else))
            &&& (src != typedef_chars() && src != if_chars() && src != else_chars()
                ==> toks.0[0].kind == TokenKindV::Ident(src))
        }),
{
    let n = src.len() as int;
    lemma_ident_end(src, 1);
    assert(ident_end(src, 1) == n);
    let sp = Span { start: 0, end: src.len() as usize, tag: SpanType::Identifier };
    assert(!is_digit(src[0]));
    assert(!(src[0] == '-'));
    assert(!is_operator_char(src[0]));
    assert(!is_punct_char(src[0]));
    assert(!(src[0] == '"'));
    assert(!is_space(src[0]));
    assert(scan_one(src, 0) == Ok::<Span, FatalError>(sp));
    reveal_with_fuel(spans_from, 3);
    assert(spans_from(src, n) == (seq![eof_span(src)], None::<FatalError>));
    let spans = spans_from(src, 0);
    assert(spans.0 =~= seq![sp, eof_span(src)]);
    assert(spans.1 is None);
    assert(sp.text(src) =~= src);
    assert(eof_span(src).text(src) =~= Seq::<char>::empty());
    assert(sp.text(src) != seq!['#']);
    assert(forall|k: int| 0 <= k < spans.0.len() ==> (#[trigger] spans.0[k]).text(src)
        != seq!['#']);
    lemma_preprocess_identity(src, spans.0, 0);
    let pp = preprocessed(src, spans.0, 0, Seq::<(Seq<char>, MacroV)>::empty());
    assert(pp.0 =~= spans.0);
    let toks = spec_tokens(src, pp.0, pp.1);
    let t0 = spec_parse_token(src, sp);
    let te = spec_parse_token(src, eof_span(src));
    assert(te == Ok::<TokenKindV, FatalError>(TokenKindV::Eof));
    reveal_with_fuel(spec_tokens, 3);
    assert(pp.0.drop_first() =~= seq![eof_span(src)]);
    assert(pp.0.drop_first().drop_first() =~= Seq::<Span>::empty());
    assert(t0 is Ok);
    assert(toks.0 =~= seq![TokenV { kind: t0->Ok_0, span: sp }, TokenV { kind: TokenKindV::Eof,
        span: eof_span(src) }]);
}

} // verus!

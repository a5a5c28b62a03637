//! Macros: named text-substitution rules parsed from `#define` directives.
//! A macro records its name, its ordered parameter names, its body spans, and
//! whether it is function-like (its name was immediately followed by `(`).

use vstd::prelude::*;
use crate::span::{Span, SpanType};
use crate::FatalError;

verus! {

/// The views of a sequence of owned text buffers.
pub open spec fn texts_view(ps: Seq<Vec<char>>) -> Seq<Seq<char>> {
    ps.map_values(|p: Vec<char>| p@)
}

/// The views of a sequence of owned span buffers.
pub open spec fn span_lists_view(a: Seq<Vec<Span>>) -> Seq<Seq<Span>> {
    a.map_values(|x: Vec<Span>| x@)
}

/// The mathematical content of a macro.
pub struct MacroV {
    pub name: Seq<char>,
    pub params: Seq<Seq<char>>,
    pub body: Seq<Span>,
    pub function_like: bool,
}

/// Whether the span holds a newline character of the source.
pub open spec fn span_has_newline(src: Seq<char>, sp: Span) -> bool {
    exists|k: int| sp.start <= k < sp.end && src[k] == '\n'
}

/// Whether the span is whitespace that stays on the current logical line.
pub open spec fn is_line_space(src: Seq<char>, sp: Span) -> bool {
    sp.tag is Whitespace && !span_has_newline(src, sp)
}

/// The first index at or after `i` whose span is not whitespace of the
/// current logical line.
pub open spec fn skip_line_spaces(src: Seq<char>, spans: Seq<Span>, i: int) -> int
    decreases spans.len() - i,
{
    if 0 <= i < spans.len() && is_line_space(src, spans[i]) {
        skip_line_spaces(src, spans, i + 1)
    } else {
        i
    }
}

/// The parameter list of a function-like `#define`, read from just past the
/// opening parenthesis: identifiers, commas and line whitespace up to the
/// closing parenthesis. Anything else (including a newline or the end of the
/// input) is a malformed definition.
pub open spec fn spec_parse_params(
    src: Seq<char>,
    spans: Seq<Span>,
    i: int,
    acc: Seq<Seq<char>>,
) -> Result<(Seq<Seq<char>>, int), FatalError>
    decreases spans.len() - i,
{
    if i < 0 || i >= spans.len() {
        Err(FatalError::MalformedDefine)
    } else {
        let sp = spans[i];
        if is_line_space(src, sp) {
            spec_parse_params(src, spans, i + 1, acc)
        } else if sp.text(src) == seq![')'] {
            Ok((acc, i + 1))
        } else if sp.text(src) == seq![','] {
            spec_parse_params(src, spans, i + 1, acc)
        } else if sp.tag is Identifier {
            spec_parse_params(src, spans, i + 1, acc.push(sp.text(src)))
        } else {
            Err(FatalError::MalformedDefine)
        }
    }
}

/// The body of a `#define`: every span, verbatim, up to and excluding the
/// first whitespace span holding a newline (which is consumed) or the
/// end-of-input span (which is left in place). Returns the body and the index
/// where the enclosing stream resumes.
pub open spec fn spec_take_body(
    src: Seq<char>,
    spans: Seq<Span>,
    i: int,
    acc: Seq<Span>,
) -> (Seq<Span>, int)
    decreases spans.len() - i,
{
    if i < 0 || i >= spans.len() {
        (acc, i)
    } else {
        let sp = spans[i];
        if sp.tag is Eof {
            (acc, i)
        } else if sp.tag is Whitespace && span_has_newline(src, sp) {
            (acc, i + 1)
        } else {
            spec_take_body(src, spans, i + 1, acc.push(sp))
        }
    }
}

/// What a `#define` directive, starting just past the word `define`, defines:
/// the macro and the index where the span stream resumes; or the fatal error.
/// The name is the first identifier on the logical line; the macro is
/// function-like exactly when the very next span is `(`.
pub open spec fn spec_parse_define(
    src: Seq<char>,
    spans: Seq<Span>,
    i: int,
) -> Result<(MacroV, int), FatalError> {
    let j = skip_line_spaces(src, spans, i);
    if j >= spans.len() {
        Err(FatalError::ExpectedMacroName)
    } else if !(spans[j].tag is Identifier) {
        Err(FatalError::ExpectedMacroName)
    } else {
        let name = spans[j].text(src);
        if j + 1 < spans.len() && spans[j + 1].text(src) == seq!['('] {
            match spec_parse_params(src, spans, j + 2, Seq::empty()) {
                Err(e) => Err(e),
                Ok(pr) => {
                    let body = spec_take_body(src, spans, pr.1, Seq::empty());
                    Ok((MacroV { name, params: pr.0, body: body.0, function_like: true }, body.1))
                },
            }
        } else {
            let body = spec_take_body(src, spans, j + 1, Seq::empty());
            Ok((MacroV { name, params: Seq::empty(), body: body.0, function_like: false }, body.1))
        }
    }
}

/// The index of the parameter a body span substitutes, if any: the last
/// parameter whose name is the given text.
pub open spec fn param_index(params: Seq<Seq<char>>, t: Seq<char>) -> Option<int>
    decreases params.len(),
{
    if params.len() == 0 {
        None
    } else if params.last() == t {
        Some(params.len() - 1)
    } else {
        param_index(params.drop_last(), t)
    }
}

pub proof fn lemma_param_index(params: Seq<Seq<char>>, t: Seq<char>)
    ensures
        param_index(params, t) matches Some(ix) ==> 0 <= ix < params.len() && params[ix] == t,
    decreases params.len(),
{
    if params.len() > 0 && params.last() != t {
        lemma_param_index(params.drop_last(), t);
    }
}

/// The substitution of a macro body: each body span whose text names a
/// parameter is replaced by that argument's whole span list, in original
/// order; every other body span is kept unchanged.
pub open spec fn spec_subst(
    src: Seq<char>,
    body: Seq<Span>,
    params: Seq<Seq<char>>,
    args: Seq<Seq<Span>>,
) -> Seq<Span>
    decreases body.len(),
{
    if body.len() == 0 {
        Seq::empty()
    } else {
        let piece = match param_index(params, body.first().text(src)) {
            Some(ix) => {
                if 0 <= ix < args.len() {
                    args[ix]
                } else {
                    Seq::empty()
                }
            },
            None => seq![body.first()],
        };
        piece + spec_subst(src, body.drop_first(), params, args)
    }
}

/// A named, optionally parameterized text-substitution rule. Never mutated
/// after creation.
pub struct Macro {
    name: Vec<char>,
    params: Vec<Vec<char>>,
    body: Vec<Span>,
    function_like: bool,
}

impl View for Macro {
    type V = MacroV;

    closed spec fn view(&self) -> MacroV {
        MacroV {
            name: self.name@,
            params: texts_view(self.params@),
            body: self.body@,
            function_like: self.function_like,
        }
    }
}

impl Macro {
    /// The invariant tying a macro's body spans to the source.
    pub open spec fn wf(self, src: Seq<char>) -> bool {
        forall|k: int| 0 <= k < self@.body.len() ==> (#[trigger] self@.body[k]).wf(src)
    }

    /// Parses a macro from a `#define` directive: `at` points just past the
    /// span holding the word `define`. Returns the macro and the index where
    /// the span stream resumes.
    #[verifier::loop_isolation(false)]
    pub fn new_from(source: &Vec<char>, spans: &Vec<Span>, at: usize) -> (r: Result<
        (Macro, usize),
        FatalError,
    >)
        requires
            at <= spans@.len(),
            forall|k: int| 0 <= k < spans@.len() ==> (#[trigger] spans@[k]).wf(source@),
        ensures
            match spec_parse_define(source@, spans@, at as int) {
                Ok(pr) => {
                    &&& r matches Ok(q)
                    &&& ({
                        let (m, p) = q;
                        m@ == pr.0 && p == pr.1 && m.wf(source@) && at <= p <= spans@.len()
                    })
                },
                Err(e) => r == Err::<(Macro, usize), FatalError>(e),
            },
    {
        let j = skip_line_spaces_exec(source, spans, at);
        if j >= spans.len() {
            return Err(FatalError::ExpectedMacroName);
        }
        let name_span = spans[j];
        if !matches!(name_span.tag, SpanType::Identifier) {
            return Err(FatalError::ExpectedMacroName);
        }
        let name = name_span.get(source);
        let function_like = j + 1 < spans.len() && span_text_is_char(source, &spans[j + 1], '(');
        if function_like {
            let mut params: Vec<Vec<char>> = Vec::new();
            let mut k: usize = j + 2;
            proof {
                assert(texts_view(params@) =~= Seq::<Seq<char>>::empty());
            }
            loop
                invariant
                    j + 2 <= k <= spans@.len(),
                    spec_parse_params(source@, spans@, j + 2, Seq::empty())
                        == spec_parse_params(source@, spans@, k as int, texts_view(params@)),
                decreases spans@.len() - k,
            {
                if k >= spans.len() {
                    return Err(FatalError::MalformedDefine);
                }
                let sp = spans[k];
                if is_line_space_exec(source, &sp) {
                    k = k + 1;
                } else if span_text_is_char(source, &sp, ')') {
                    let (body, e2) = take_body_exec(source, spans, k + 1);
                    let m = Macro { name, params, body, function_like: true };
                    return Ok((m, e2));
                } else if span_text_is_char(source, &sp, ',') {
                    k = k + 1;
                } else if matches!(sp.tag, SpanType::Identifier) {
                    let ghost pv_old = texts_view(params@);
                    let t = sp.get(source);
                    params.push(t);
                    proof {
                        assert(texts_view(params@) =~= pv_old.push(sp.text(source@)));
                    }
                    k = k + 1;
                } else {
                    return Err(FatalError::MalformedDefine);
                }
            }
        } else {
            let (body, e2) = take_body_exec(source, spans, j + 1);
            let m = Macro { name, params: Vec::new(), body, function_like: false };
            proof {
                assert(m@.params =~= Seq::<Seq<char>>::empty());
            }
            Ok((m, e2))
        }
    }

    /// The macro's expansion for the given arguments, reversed so it can be
    /// pushed onto the pending-expansion stack (popping then restores the
    /// original left-to-right order).
    #[verifier::loop_isolation(false)]
    pub fn apply(&self, source: &Vec<char>, args: &Vec<Vec<Span>>) -> (r: Vec<Span>)
        requires
            self.wf(source@),
            args@.len() == self@.params.len(),
            forall|a: int, b: int| 0 <= a < args@.len() && 0 <= b < args@[a]@.len()
                ==> (#[trigger] args@[a]@[b]).wf(source@),
        ensures
            r@ == spec_subst(source@, self@.body, self@.params,
                span_lists_view(args@)).reverse(),
            forall|k: int| 0 <= k < r@.len() ==> (#[trigger] r@[k]).wf(source@),
    {
        let ghost argsv = span_lists_view(args@);
        let mut out: Vec<Span> = Vec::new();
        let mut k: usize = 0;
        proof {
            assert(self@.body.skip(0) =~= self@.body);
        }
        while k < self.body.len()
            invariant
                0 <= k <= self@.body.len(),
                spec_subst(source@, self@.body, self@.params, argsv)
                    == out@ + spec_subst(source@, self@.body.skip(k as int), self@.params, argsv),
                forall|q: int| 0 <= q < out@.len() ==> (#[trigger] out@[q]).wf(source@),
            decreases self@.body.len() - k,
        {
            let sp = self.body[k];
            let t = sp.get(source);
            let ghost rest = self@.body.skip(k as int);
            let ghost out_pre = out@;
            proof {
                assert(rest.first() == self@.body[k as int]);
                assert(rest.drop_first() =~= self@.body.skip(k as int + 1));
                lemma_param_index(self@.params, t@);
            }
            match find_param(&self.params, &t) {
                Some(ix) => {
                    let arg: &Vec<Span> = &args[ix];
                    let mut q: usize = 0;
                    while q < arg.len()
                        invariant
                            0 <= q <= arg@.len(),
                            out@ == out_pre + arg@.subrange(0, q as int),
                        decreases arg@.len() - q,
                    {
                        out.push(arg[q]);
                        q = q + 1;
                        assert(out@ =~= out_pre + arg@.subrange(0, q as int));
                    }
                    proof {
                        assert(arg@.subrange(0, arg@.len() as int) =~= argsv[ix as int]);
                        assert(param_index(self@.params, rest.first().text(source@))
                            == Some(ix as int));
                        assert(spec_subst(source@, rest, self@.params, argsv)
                            == argsv[ix as int] + spec_subst(source@, rest.drop_first(),
                                self@.params, argsv));
                        assert(spec_subst(source@, rest, self@.params, argsv)
                            == argsv[ix as int] + spec_subst(source@,
                                self@.body.skip(k as int + 1), self@.params, argsv));
                        assert(out@ + spec_subst(source@, self@.body.skip(k as int + 1),
                            self@.params, argsv) =~= out_pre + spec_subst(source@, rest,
                            self@.params, argsv));
                        assert forall|w: int| 0 <= w < out@.len() implies
                            (#[trigger] out@[w]).wf(source@) by {
                            if w >= out_pre.len() {
                                assert(out@[w] == args@[ix as int]@[w - out_pre.len()]);
                            }
                        }
                    }
                },
                None => {
                    out.push(sp);
                    proof {
                        assert(spec_subst(source@, rest, self@.params, argsv)
                            == seq![sp] + spec_subst(source@, self@.body.skip(k as int + 1),
                                self@.params, argsv));
                        assert(out@ + spec_subst(source@, self@.body.skip(k as int + 1),
                            self@.params, argsv) =~= out_pre + spec_subst(source@, rest,
                            self@.params, argsv));
                    }
                },
            }
            k = k + 1;
        }
        proof {
            assert(self@.body.skip(self@.body.len() as int) =~= Seq::<Span>::empty());
            assert(out@ =~= spec_subst(source@, self@.body, self@.params, argsv));
        }
        reversed_spans(&out)
    }

    /// The body of an object-like macro, in original order.
    pub fn value(&self) -> (r: Vec<Span>)
        ensures
            r@ == self@.body,
    {
        copy_spans(&self.body)
    }

    /// The macro's name text.
    pub fn name(&self) -> (r: &Vec<char>)
        ensures
            r@ == self@.name,
    {
        &self.name
    }

    /// How many parameters the macro takes.
    pub fn args(&self) -> (r: usize)
        ensures
            r == self@.params.len(),
    {
        self.params.len()
    }

    /// Whether the macro is function-like: defined with a parenthesized
    /// parameter list immediately after its name.
    pub fn is_function_like(&self) -> (r: bool)
        ensures
            r == self@.function_like,
    {
        self.function_like
    }

    /// Whether the macro expands to anything at all.
    pub fn has_body(&self) -> (r: bool)
        ensures
            r == (self@.body.len() != 0),
    {
        self.body.len() != 0
    }
}

/// Whether a span's text is exactly the one given character.
pub fn span_text_is_char(source: &Vec<char>, sp: &Span, c: char) -> (r: bool)
    requires
        sp.wf(source@),
    ensures
        r <==> sp.text(source@) == seq![c],
{
    if sp.end - sp.start == 1 && source[sp.start] == c {
        assert(sp.text(source@) =~= seq![c]);
        true
    } else {
        assert(sp.text(source@).len() == sp.end - sp.start);
        if sp.end - sp.start == 1 {
            assert(sp.text(source@)[0] == source@[sp.start as int]);
            assert(sp.text(source@) != seq![c]);
        } else {
            assert(seq![c].len() == 1);
        }
        false
    }
}

/// Whether the span is whitespace without a newline, staying on the line.
pub fn is_line_space_exec(source: &Vec<char>, sp: &Span) -> (r: bool)
    requires
        sp.wf(source@),
    ensures
        r == is_line_space(source@, *sp),
{
    if !matches!(sp.tag, SpanType::Whitespace) {
        return false;
    }
    !span_contains_newline(source, sp)
}

/// The first index at or after `at` whose span is not line whitespace.
#[verifier::loop_isolation(false)]
pub fn skip_line_spaces_exec(source: &Vec<char>, spans: &Vec<Span>, at: usize) -> (r: usize)
    requires
        at <= spans@.len(),
        forall|k: int| 0 <= k < spans@.len() ==> (#[trigger] spans@[k]).wf(source@),
    ensures
        r == skip_line_spaces(source@, spans@, at as int),
        at <= r <= spans@.len(),
{
    let mut j: usize = at;
    loop
        invariant
            at <= j <= spans@.len(),
            skip_line_spaces(source@, spans@, at as int) == skip_line_spaces(source@, spans@,
                j as int),
        decreases spans@.len() - j,
    {
        if j >= spans.len() {
            return j;
        }
        if !is_line_space_exec(source, &spans[j]) {
            return j;
        }
        j = j + 1;
    }
}

/// The body spans of a `#define` from `at` up to the line's end.
#[verifier::loop_isolation(false)]
fn take_body_exec(source: &Vec<char>, spans: &Vec<Span>, at: usize) -> (r: (Vec<Span>, usize))
    requires
        at <= spans@.len(),
        forall|k: int| 0 <= k < spans@.len() ==> (#[trigger] spans@[k]).wf(source@),
    ensures
        ({
            let b = spec_take_body(source@, spans@, at as int, Seq::empty());
            r.0@ == b.0 && r.1 == b.1 && at <= r.1 <= spans@.len()
                && forall|k: int| 0 <= k < r.0@.len() ==> (#[trigger] r.0@[k]).wf(source@)
        }),
{
    let mut acc: Vec<Span> = Vec::new();
    let mut k: usize = at;
    loop
        invariant
            at <= k <= spans@.len(),
            spec_take_body(source@, spans@, at as int, Seq::empty())
                == spec_take_body(source@, spans@, k as int, acc@),
            forall|q: int| 0 <= q < acc@.len() ==> (#[trigger] acc@[q]).wf(source@),
        decreases spans@.len() - k,
    {
        if k >= spans.len() {
            return (acc, k);
        }
        let sp = spans[k];
        if matches!(sp.tag, SpanType::Eof) {
            return (acc, k);
        }
        if matches!(sp.tag, SpanType::Whitespace) {
            if span_contains_newline(source, &sp) {
                return (acc, k + 1);
            }
        }
        proof {
            assert(!(sp.tag is Whitespace && span_has_newline(source@, sp)));
        }
        acc.push(sp);
        k = k + 1;
    }
}

/// Whether the span holds a newline character.
pub fn span_contains_newline(source: &Vec<char>, sp: &Span) -> (r: bool)
    requires
        sp.wf(source@),
    ensures
        r == span_has_newline(source@, *sp),
{
    let mut k: usize = sp.start;
    while k < sp.end
        invariant
            sp.start <= k <= sp.end,
            sp.wf(source@),
            forall|q: int| sp.start <= q < k ==> source@[q] != '\n',
        decreases sp.end - k,
    {
        if source[k] == '\n' {
            assert(span_has_newline(source@, *sp));
            return true;
        }
        k = k + 1;
    }
    assert(!span_has_newline(source@, *sp));
    false
}

/// The index of the last parameter whose name equals `t`, if any.
#[verifier::loop_isolation(false)]
pub fn find_param(params: &Vec<Vec<char>>, t: &Vec<char>) -> (r: Option<usize>)
    ensures
        (r is Some) == (param_index(texts_view(params@), t@) is Some),
        r matches Some(u) ==> param_index(texts_view(params@), t@) == Some(u as int),
{
    let ghost pv = texts_view(params@);
    let mut i: usize = params.len();
    proof {
        assert(pv.take(params@.len() as int) =~= pv);
    }
    while i > 0
        invariant
            0 <= i <= params@.len(),
            param_index(pv, t@) == param_index(pv.take(i as int), t@),
        decreases i,
    {
        proof {
            assert(pv.take(i as int).last() == pv[i as int - 1]);
            assert(pv.take(i as int).drop_last() =~= pv.take(i as int - 1));
        }
        if crate::span::texts_equal(&params[i - 1], t) {
            return Some(i - 1);
        }
        i = i - 1;
    }
    proof {
        assert(pv.take(0) =~= Seq::<Seq<char>>::empty());
    }
    None
}

/// A fresh copy of a span buffer.
pub fn copy_spans(v: &Vec<Span>) -> (r: Vec<Span>)
    ensures
        r@ == v@,
{
    let mut out: Vec<Span> = Vec::new();
    let mut i: usize = 0;
    while i < v.len()
        invariant
            0 <= i <= v@.len(),
            out@ == v@.subrange(0, i as int),
        decreases v@.len() - i,
    {
        out.push(v[i]);
        i = i + 1;
        assert(out@ =~= v@.subrange(0, i as int));
    }
    assert(out@ =~= v@);
    out
}

/// The spans of `v` in reverse order.
pub fn reversed_spans(v: &Vec<Span>) -> (r: Vec<Span>)
    ensures
        r@ == v@.reverse(),
        forall|k: int| 0 <= k < v@.len() ==> #[trigger] r@[k] == v@[v@.len() - 1 - k],
{
    let n: usize = v.len();
    let mut out: Vec<Span> = Vec::new();
    let mut i: usize = 0;
    while i < n
        invariant
            0 <= i <= n,
            n == v@.len(),
            out@.len() == i,
            forall|k: int| 0 <= k < i ==> #[trigger] out@[k] == v@[n - 1 - k],
        decreases n - i,
    {
        out.push(v[n - 1 - i]);
        i = i + 1;
    }
    assert(out@ =~= v@.reverse());
    out
}

} // verus!

//! The macro engine: pulls classified spans, intercepts `#define` directives
//! into a macro table, and rewrites spans that name a macro into their
//! expansion through a pending-expansion stack whose pop-last-pushed
//! discipline reproduces left-to-right textual substitution order.

use vstd::prelude::*;
use crate::span::{Span, SpanType};
use crate::FatalError;
use crate::preprocessor::iterator::PreprocessorTokenIter;
use crate::preprocessor::macros::{
    Macro, MacroV, spec_parse_define, spec_subst, span_lists_view, reversed_spans,
    span_text_is_char,
};

verus! {

/// The mathematical view of the macro table: name text paired with macro
/// content, in definition order.
pub open spec fn defs_view(defs: Seq<(Vec<char>, Macro)>) -> Seq<(Seq<char>, MacroV)> {
    defs.map_values(|p: (Vec<char>, Macro)| (p.0@, p.1@))
}

/// The macro a name denotes: the most recent definition wins, so the table
/// behaves as a mapping with unique keys where redefinition overwrites.
pub open spec fn lookup_def(defs: Seq<(Seq<char>, MacroV)>, name: Seq<char>) -> Option<MacroV>
    decreases defs.len(),
{
    if defs.len() == 0 {
        None
    } else if defs.last().0 == name {
        Some(defs.last().1)
    } else {
        lookup_def(defs.drop_last(), name)
    }
}

/// The first index at or after `i` whose span is not whitespace.
pub open spec fn skip_space_spans(spans: Seq<Span>, i: int) -> int
    decreases spans.len() - i,
{
    if 0 <= i < spans.len() && spans[i].tag is Whitespace {
        skip_space_spans(spans, i + 1)
    } else {
        i
    }
}

/// Where the argument list of a function-like macro invocation begins: the
/// index just past the `(` that must follow the macro's name, whitespace
/// aside. Anything else is a missing delimiter.
pub open spec fn spec_expect_paren(src: Seq<char>, spans: Seq<Span>, i: int) -> Result<
    int,
    FatalError,
> {
    let j = skip_space_spans(spans, i);
    if j >= spans.len() {
        Err(FatalError::MissingArgumentList)
    } else if spans[j].text(src) == seq!['('] {
        Ok(j + 1)
    } else {
        Err(FatalError::MissingArgumentList)
    }
}

/// The comma-separated argument span lists of a function-like macro
/// invocation, read up to the closing `)`. No nested-parenthesis tracking: a
/// comma or closing parenthesis inside a nested call is treated as a
/// top-level separator. Reaching end-of-input first is fatal.
pub open spec fn spec_collect_args(
    src: Seq<char>,
    spans: Seq<Span>,
    i: int,
    cur: Seq<Span>,
    acc: Seq<Seq<Span>>,
) -> Result<(Seq<Seq<Span>>, int), FatalError>
    decreases spans.len() - i,
{
    if i < 0 || i >= spans.len() {
        Err(FatalError::UnterminatedArgumentList)
    } else {
        let sp = spans[i];
        if sp.tag is Eof {
            Err(FatalError::UnterminatedArgumentList)
        } else if sp.text(src) == seq![')'] {
            Ok((acc.push(cur), i + 1))
        } else if sp.text(src) == seq![','] {
            spec_collect_args(src, spans, i + 1, Seq::empty(), acc.push(cur))
        } else {
            spec_collect_args(src, spans, i + 1, cur.push(sp), acc)
        }
    }
}

/// The text of the one directive this engine implements.
pub open spec fn define_chars() -> Seq<char> {
    seq!['d', 'e', 'f', 'i', 'n', 'e']
}

/// The whole remaining output of the macro engine reading `spans` from index
/// `i` under the macro table `defs`: the spans it emits, and whether it ends
/// cleanly (`None`) or in a fatal error. A `#` span starts a directive; a
/// span whose text names a macro is replaced by its expansion, spliced in
/// emission order and never rescanned (expansion is not recursive); every
/// other span is emitted unchanged.
pub open spec fn preprocessed(
    src: Seq<char>,
    spans: Seq<Span>,
    i: int,
    defs: Seq<(Seq<char>, MacroV)>,
) -> (Seq<Span>, Option<FatalError>)
    decreases spans.len() - i,
{
    if i < 0 || i >= spans.len() {
        (Seq::empty(), None)
    } else {
        let sp = spans[i];
        let t = sp.text(src);
        if t == seq!['#'] {
            if i + 1 >= spans.len() {
                (Seq::empty(), Some(FatalError::UnknownDirective))
            } else if spans[i + 1].text(src) == define_chars() {
                match spec_parse_define(src, spans, i + 2) {
                    Err(e) => (Seq::empty(), Some(e)),
                    Ok(pr) => {
                        if i < pr.1 <= spans.len() {
                            preprocessed(src, spans, pr.1, defs.push((pr.0.name, pr.0)))
                        } else {
                            (Seq::empty(), None)
                        }
                    },
                }
            } else {
                (Seq::empty(), Some(FatalError::UnknownDirective))
            }
        } else {
            match lookup_def(defs, t) {
                Some(m) => {
                    if m.function_like {
                        match spec_expect_paren(src, spans, i + 1) {
                            Err(e) => (Seq::empty(), Some(e)),
                            Ok(j) => match spec_collect_args(src, spans, j, Seq::empty(),
                                Seq::empty()) {
                                Err(e) => (Seq::empty(), Some(e)),
                                Ok(ar) => {
                                    if ar.0.len() != m.params.len() {
                                        (Seq::empty(), Some(FatalError::ArgumentCountMismatch))
                                    } else if i < ar.1 <= spans.len() {
                                        let rest = preprocessed(src, spans, ar.1, defs);
                                        (spec_subst(src, m.body, m.params, ar.0) + rest.0, rest.1)
                                    } else {
                                        (Seq::empty(), None)
                                    }
                                },
                            },
                        }
                    } else {
                        let rest = preprocessed(src, spans, i + 1, defs);
                        (m.body + rest.0, rest.1)
                    }
                },
                None => {
                    let rest = preprocessed(src, spans, i + 1, defs);
                    (seq![sp] + rest.0, rest.1)
                },
            }
        }
    }
}

/// Law: a span stream holding no `#` span is left exactly as it is by the
/// engine when no macros are defined: expansion under an empty table is the
/// identity transformation, with no error.
pub proof fn lemma_preprocess_identity(src: Seq<char>, spans: Seq<Span>, i: int)
    requires
        0 <= i <= spans.len(),
        forall|k: int| 0 <= k < spans.len() ==> (#[trigger] spans[k]).text(src) != seq!['#'],
    ensures
        preprocessed(src, spans, i, Seq::empty()) == (spans.skip(i), None::<FatalError>),
    decreases spans.len() - i,
{
    if i >= spans.len() {
        assert(spans.skip(i) =~= Seq::<Span>::empty());
    } else {
        lemma_preprocess_identity(src, spans, i + 1);
        assert(seq![spans[i]] + spans.skip(i + 1) =~= spans.skip(i));
    }
}

/// The text-substitution engine. It pulls the buffered classified spans,
/// maintains the macro table, and keeps a pending-expansion stack of spans to
/// emit before pulling further input.
pub struct PreprocessorExecutor {
    source: Vec<char>,
    spans: Vec<Span>,
    pos: usize,
    defines: Vec<(Vec<char>, Macro)>,
    pending: Vec<Span>,
}

impl PreprocessorExecutor {
    /// The source text this engine reads spans of.
    pub closed spec fn src(self) -> Seq<char> {
        self.source@
    }

    /// The engine's internal invariant: every span in play points into the
    /// source.
    pub closed spec fn wf(self) -> bool {
        &&& self.pos <= self.spans@.len()
        &&& forall|k: int| 0 <= k < self.spans@.len() ==> (#[trigger] self.spans@[k]).wf(
            self.source@)
        &&& forall|k: int| 0 <= k < self.pending@.len() ==> (#[trigger] self.pending@[k]).wf(
            self.source@)
        &&& forall|k: int| 0 <= k < self.defines@.len() ==> (#[trigger] self.defines@[k]).1.wf(
            self.source@)
    }

    /// The spans this engine will still emit, and how the run ends: cleanly
    /// (`None`) or with a fatal error.
    pub closed spec fn model(self) -> (Seq<Span>, Option<FatalError>) {
        let rest = preprocessed(self.source@, self.spans@, self.pos as int, defs_view(
            self.defines@));
        (self.pending@.reverse() + rest.0, rest.1)
    }

    /// The source buffer the engine's spans point into.
    pub fn source_ref(&self) -> (r: &Vec<char>)
        ensures
            r@ == self.src(),
    {
        &self.source
    }

    /// An engine over the whole span stream of `iter`, which is classified up
    /// front; a lexical error surfaces here. The macro table starts empty.
    pub fn new(iter: PreprocessorTokenIter) -> (r: Result<PreprocessorExecutor, FatalError>)
        ensures
            match r {
                Ok(ex) => {
                    &&& ex.wf()
                    &&& ex.src() == iter.source@
                    &&& iter.model().1 is None
                    &&& ex.model() == preprocessed(iter.source@, iter.model().0, 0,
                        Seq::<(Seq<char>, MacroV)>::empty())
                },
                Err(e) => iter.model().1 == Some(e),
            },
    {
        let mut it = iter;
        match it.collect_spans() {
            Ok(spans) => {
                let ex = PreprocessorExecutor {
                    source: it.source,
                    spans,
                    pos: 0,
                    defines: Vec::new(),
                    pending: Vec::new(),
                };
                proof {
                    assert(defs_view(ex.defines@) =~= Seq::<(Seq<char>, MacroV)>::empty());
                    assert(ex.pending@.reverse() =~= Seq::<Span>::empty());
                    assert(ex.model().0 =~= preprocessed(iter.source@, iter.model().0, 0,
                        Seq::<(Seq<char>, MacroV)>::empty()).0);
                }
                Ok(ex)
            },
            Err(e) => Err(e),
        }
    }

    /// Emits the next span with macros resolved: `Ok(Some(..))` while spans
    /// remain, `Ok(None)` at the end, or the fatal error the engine runs
    /// into. An error leaves the remaining output unchanged, so it is
    /// reported again on every later call.
    #[verifier::loop_isolation(false)]
    pub fn next(&mut self) -> (r: Result<Option<Span>, FatalError>)
        requires
            old(self).wf(),
        ensures
            final(self).wf(),
            final(self).src() == old(self).src(),
            match r {
                Ok(Some(sp)) => {
                    &&& old(self).model().0.len() > 0
                    &&& sp == old(self).model().0[0]
                    &&& sp.wf(old(self).src())
                    &&& final(self).model() == (old(self).model().0.drop_first(),
                        old(self).model().1)
                },
                Ok(None) => {
                    &&& old(self).model().0.len() == 0
                    &&& old(self).model().1 is None
                    &&& final(self).model() == old(self).model()
                },
                Err(e) => {
                    &&& old(self).model().0.len() == 0
                    &&& old(self).model().1 == Some(e)
                    &&& final(self).model() == old(self).model()
                },
            },
    {
        loop
            invariant
                self.wf(),
                self.source@ == old(self).source@,
                self.model() == old(self).model(),
            decreases self.spans@.len() - self.pos, self.pending@.len(),
        {
            if self.pending.len() > 0 {
                let ghost p = self.pending@;
                let sp_opt = self.pending.pop();
                match sp_opt {
                    Some(sp) => {
                        proof {
                            assert(p.reverse().len() == p.len());
                            assert(p.reverse()[0] == p[p.len() - 1]);
                            assert(self.pending@.reverse() =~= p.reverse().drop_first());
                            let rest0 = preprocessed(self.source@, self.spans@, self.pos as int,
                                defs_view(self.defines@)).0;
                            assert((p.reverse() + rest0)[0] == sp);
                            assert(self.pending@.reverse() + rest0 =~= (p.reverse()
                                + rest0).drop_first());
                        }
                        return Ok(Some(sp));
                    },
                    None => {
                        proof {
                            assert(false);
                        }
                        return Ok(None);
                    },
                }
            }
            assert(self.pending@.reverse() =~= Seq::<Span>::empty());
            if self.pos >= self.spans.len() {
                assert(self.model().0 =~= Seq::<Span>::empty());
                return Ok(None);
            }
            let ghost dv = defs_view(self.defines@);
            let ghost m0 = preprocessed(self.source@, self.spans@, self.pos as int, dv);
            let sp = self.spans[self.pos];
            let t = sp.get(&self.source);
            proof {
                assert(self.model().0 =~= m0.0);
            }
            if span_text_is_char(&self.source, &sp, '#') {
                if self.pos + 1 >= self.spans.len() {
                    return Err(FatalError::UnknownDirective);
                }
                let d = self.spans[self.pos + 1];
                let dt = d.get(&self.source);
                if is_define_text(&dt) {
                    match Macro::new_from(&self.source, &self.spans, self.pos + 2) {
                        Ok(pair) => {
                            let (m, p) = pair;
                            let ghost mv = m@;
                            let key = crate::span::copy_text(m.name());
                            self.defines.push((key, m));
                            self.pos = p;
                            proof {
                                assert(defs_view(self.defines@) =~= dv.push((mv.name, mv)));
                                assert(self.model() == old(self).model());
                            }
                        },
                        Err(e) => {
                            return Err(e);
                        },
                    }
                } else {
                    return Err(FatalError::UnknownDirective);
                }
            } else {
                match lookup(&self.defines, &t) {
                    Some(ix) => {
                        let ghost mv = defs_view(self.defines@)[ix as int].1;
                        if self.defines[ix].1.is_function_like() {
                            match expect_paren_exec(&self.source, &self.spans, self.pos + 1) {
                                Ok(j) => {
                                    match collect_args_exec(&self.source, &self.spans, j) {
                                        Ok(ap) => {
                                            let (args, p) = ap;
                                            if args.len() != self.defines[ix].1.args() {
                                                return Err(FatalError::ArgumentCountMismatch);
                                            }
                                            let exp = self.defines[ix].1.apply(&self.source,
                                                &args);
                                            self.pending = exp;
                                            self.pos = p;
                                            proof {
                                                let sub = spec_subst(self.source@, mv.body,
                                                    mv.params, span_lists_view(args@));
                                                assert(self.pending@.reverse() =~= sub);
                                                assert(self.model().0 =~= m0.0);
                                                assert(self.model() == old(self).model());
                                            }
                                        },
                                        Err(e) => {
                                            return Err(e);
                                        },
                                    }
                                },
                                Err(e) => {
                                    return Err(e);
                                },
                            }
                        } else {
                            let body = self.defines[ix].1.value();
                            let exp = reversed_spans(&body);
                            self.pending = exp;
                            self.pos = self.pos + 1;
                            proof {
                                assert(self.pending@.reverse() =~= mv.body);
                                assert(self.model().0 =~= m0.0);
                                assert(self.model() == old(self).model());
                            }
                        }
                    },
                    None => {
                        self.pos = self.pos + 1;
                        proof {
                            let rest = preprocessed(self.source@, self.spans@, self.pos as int,
                                dv);
                            assert(m0.0 == seq![sp] + rest.0);
                            assert(self.model().0 =~= m0.0.drop_first());
                        }
                        return Ok(Some(sp));
                    },
                }
            }
        }
    }
}

/// Whether the text is exactly `define`.
fn is_define_text(t: &Vec<char>) -> (r: bool)
    ensures
        r <==> t@ == define_chars(),
{
    if t.len() == 6 && t[0] == 'd' && t[1] == 'e' && t[2] == 'f' && t[3] == 'i' && t[4] == 'n'
        && t[5] == 'e' {
        assert(t@ =~= define_chars());
        true
    } else {
        proof {
            if t@ == define_chars() {
                assert(t@.len() == 6);
                assert(t@[0] == 'd' && t@[1] == 'e' && t@[2] == 'f' && t@[3] == 'i'
                    && t@[4] == 'n' && t@[5] == 'e');
            }
        }
        false
    }
}

/// The table entry a text names, if any: the index of the last entry with
/// that key.
#[verifier::loop_isolation(false)]
fn lookup(defs: &Vec<(Vec<char>, Macro)>, t: &Vec<char>) -> (r: Option<usize>)
    ensures
        (r is Some) == (lookup_def(defs_view(defs@), t@) is Some),
        r matches Some(u) ==> 0 <= u < defs@.len()
            && lookup_def(defs_view(defs@), t@) == Some(defs@[u as int].1@)
            && defs@[u as int].0@ == t@,
{
    let ghost dv = defs_view(defs@);
    let mut i: usize = defs.len();
    proof {
        assert(dv.take(defs@.len() as int) =~= dv);
    }
    while i > 0
        invariant
            0 <= i <= defs@.len(),
            lookup_def(dv, t@) == lookup_def(dv.take(i as int), t@),
        decreases i,
    {
        proof {
            assert(dv.take(i as int).last() == dv[i as int - 1]);
            assert(dv.take(i as int).drop_last() =~= dv.take(i as int - 1));
        }
        if crate::span::texts_equal(&defs[i - 1].0, t) {
            return Some(i - 1);
        }
        i = i - 1;
    }
    proof {
        assert(dv.take(0) =~= Seq::<(Seq<char>, MacroV)>::empty());
    }
    None
}

/// Finds the `(` that must open a function-like macro's argument list.
#[verifier::loop_isolation(false)]
fn expect_paren_exec(source: &Vec<char>, spans: &Vec<Span>, at: usize) -> (r: Result<
    usize,
    FatalError,
>)
    requires
        at <= spans@.len(),
        forall|k: int| 0 <= k < spans@.len() ==> (#[trigger] spans@[k]).wf(source@),
    ensures
        match r {
            Ok(u) => spec_expect_paren(source@, spans@, at as int) == Ok::<int, FatalError>(
                u as int) && at < u <= spans@.len(),
            Err(e) => spec_expect_paren(source@, spans@, at as int) == Err::<int, FatalError>(e),
        },
{
    let mut j: usize = at;
    loop
        invariant
            at <= j <= spans@.len(),
            skip_space_spans(spans@, at as int) == skip_space_spans(spans@, j as int),
        decreases spans@.len() - j,
    {
        if j >= spans.len() {
            return Err(FatalError::MissingArgumentList);
        }
        let sp = spans[j];
        if matches!(sp.tag, SpanType::Whitespace) {
            j = j + 1;
        } else if span_text_is_char(source, &sp, '(') {
            return Ok(j + 1);
        } else {
            return Err(FatalError::MissingArgumentList);
        }
    }
}

/// Collects the comma-separated argument span lists of an invocation, up to
/// the closing parenthesis.
#[verifier::loop_isolation(false)]
fn collect_args_exec(source: &Vec<char>, spans: &Vec<Span>, at: usize) -> (r: Result<
    (Vec<Vec<Span>>, usize),
    FatalError,
>)
    requires
        at <= spans@.len(),
        forall|k: int| 0 <= k < spans@.len() ==> (#[trigger] spans@[k]).wf(source@),
    ensures
        match r {
            Ok(ap) => {
                &&& spec_collect_args(source@, spans@, at as int, Seq::empty(), Seq::empty())
                    == Ok::<(Seq<Seq<Span>>, int), FatalError>((span_lists_view(ap.0@),
                    ap.1 as int))
                &&& at < ap.1 <= spans@.len()
                &&& forall|a: int, b: int| 0 <= a < ap.0@.len() && 0 <= b < ap.0@[a]@.len()
                    ==> (#[trigger] ap.0@[a]@[b]).wf(source@)
            },
            Err(e) => spec_collect_args(source@, spans@, at as int, Seq::empty(), Seq::empty())
                == Err::<(Seq<Seq<Span>>, int), FatalError>(e),
        },
{
    let mut acc: Vec<Vec<Span>> = Vec::new();
    let mut cur: Vec<Span> = Vec::new();
    let mut k: usize = at;
    proof {
        assert(span_lists_view(acc@) =~= Seq::<Seq<Span>>::empty());
        assert(cur@ =~= Seq::<Span>::empty());
    }
    loop
        invariant
            at <= k <= spans@.len(),
            spec_collect_args(source@, spans@, at as int, Seq::empty(), Seq::empty())
                == spec_collect_args(source@, spans@, k as int, cur@, span_lists_view(acc@)),
            forall|a: int, b: int| 0 <= a < acc@.len() && 0 <= b < acc@[a]@.len()
                ==> (#[trigger] acc@[a]@[b]).wf(source@),
            forall|b: int| 0 <= b < cur@.len() ==> (#[trigger] cur@[b]).wf(source@),
        decreases spans@.len() - k,
    {
        if k >= spans.len() {
            return Err(FatalError::UnterminatedArgumentList);
        }
        let sp = spans[k];
        if matches!(sp.tag, SpanType::Eof) {
            return Err(FatalError::UnterminatedArgumentList);
        }
        if span_text_is_char(source, &sp, ')') {
            let ghost av = span_lists_view(acc@);
            acc.push(cur);
            proof {
                assert(span_lists_view(acc@) =~= av.push(acc@.last()@));
            }
            return Ok((acc, k + 1));
        } else if span_text_is_char(source, &sp, ',') {
            let ghost av = span_lists_view(acc@);
            acc.push(cur);
            cur = Vec::new();
            proof {
                assert(span_lists_view(acc@) =~= av.push(acc@.last()@));
                assert(cur@ =~= Seq::<Span>::empty());
            }
            k = k + 1;
        } else {
            cur.push(sp);
            k = k + 1;
        }
    }
}

} // verus!

//! The lazy span stream over a source buffer: each call to `next` classifies
//! and returns one more span, ending with the end-of-input span.

use vstd::prelude::*;
use crate::span::Span;
use crate::FatalError;
use crate::preprocessor::parser::{spans_from, take_preprocessing_seq, eof_span};

verus! {

/// A pull-based producer of classified spans. `next` yields the spans of
/// `spans_from(source, start)` one at a time.
pub struct PreprocessorTokenIter {
    pub source: Vec<char>,
    pub start: usize,
    pub finished: bool,
}

impl PreprocessorTokenIter {
    /// The spans this stream will still produce, and how it ends: cleanly
    /// (`None`) or with a lexical error.
    pub open spec fn model(self) -> (Seq<Span>, Option<FatalError>) {
        if self.finished {
            (Seq::empty(), None)
        } else {
            spans_from(self.source@, self.start as int)
        }
    }

    /// A span stream positioned at the start of `source`.
    pub fn new(source: Vec<char>) -> (r: PreprocessorTokenIter)
        ensures
            r.source@ == source@,
            r.model() == spans_from(source@, 0),
    {
        PreprocessorTokenIter { source, start: 0, finished: false }
    }

    /// Produces the next classified span: `Ok(Some(..))` while spans remain,
    /// `Ok(None)` once the stream past end-of-input is exhausted, and the
    /// lexical error where classification fails. An error leaves the stream
    /// unchanged, so it is reported again on every later call.
    pub fn next(&mut self) -> (r: Result<Option<Span>, FatalError>)
        ensures
            final(self).source@ == old(self).source@,
            match r {
                Ok(Some(sp)) => {
                    &&& old(self).model().0.len() > 0
                    &&& sp == old(self).model().0[0]
                    &&& sp.wf(old(self).source@)
                    &&& final(self).model() == (old(self).model().0.drop_first(), old(self).model().1)
                },
                Ok(None) => {
                    &&& old(self).model().0.len() == 0
                    &&& old(self).model().1 is None
                    &&& final(self).model() == old(self).model()
                },
                Err(e) => {
                    &&& old(self).model().0.len() == 0
                    &&& old(self).model().1 == Some(e)
                    &&& final(self).model() == old(self).model()
                },
            },
    {
        if self.finished {
            return Ok(None);
        }
        if self.start < self.source.len() {
            match take_preprocessing_seq(&self.source, self.start) {
                Ok(sp) => {
                    proof {
                        let m = spans_from(self.source@, self.start as int);
                        assert(m.0 == seq![sp] + spans_from(self.source@, sp.end as int).0);
                        assert(m.0[0] == sp);
                        assert(m.0.drop_first() =~= spans_from(self.source@, sp.end as int).0);
                    }
                    self.start = sp.end;
                    Ok(Some(sp))
                },
                Err(e) => Err(e),
            }
        } else {
            let n: usize = self.source.len();
            let sp = Span { start: n, end: n, tag: crate::span::SpanType::Eof };
            proof {
                let m = spans_from(self.source@, self.start as int);
                assert(sp == eof_span(self.source@));
                assert(m.0 == seq![sp]);
                assert(m.0[0] == sp);
                assert(m.0.drop_first() =~= Seq::<Span>::empty());
            }
            self.finished = true;
            Ok(Some(sp))
        }
    }

    /// Runs the classifier over the whole source: all its spans in order, or
    /// the lexical error that stops it.
    pub fn collect_spans(&mut self) -> (r: Result<Vec<Span>, FatalError>)
        ensures
            final(self).source@ == old(self).source@,
            match r {
                Ok(v) => {
                    &&& old(self).model().1 is None
                    &&& v@ == old(self).model().0
                    &&& forall|k: int| 0 <= k < v@.len() ==> (#[trigger] v@[k]).wf(old(self).source@)
                },
                Err(e) => old(self).model().1 == Some(e),
            },
    {
        let mut out: Vec<Span> = Vec::new();
        loop
            invariant
                self.source@ == old(self).source@,
                old(self).model().1 == self.model().1,
                old(self).model().0 == out@ + self.model().0,
                forall|k: int| 0 <= k < out@.len() ==> (#[trigger] out@[k]).wf(self.source@),
            decreases self.model().0.len(),
        {
            let ghost pre = self.model();
            match self.next() {
                Ok(Some(sp)) => {
                    out.push(sp);
                    proof {
                        assert(pre.0 =~= seq![sp] + pre.0.drop_first());
                        assert(out@ + self.model().0 =~= old(self).model().0);
                    }
                },
                Ok(None) => {
                    assert(old(self).model().0 =~= out@);
                    return Ok(out);
                },
                Err(e) => {
                    return Err(e);
                },
            }
        }
    }
}

} // verus!

//! Zero-copy spans: views into the source text identified by start and end
//! offsets plus a classification tag. The source buffer itself is owned once,
//! by the pipeline, and handed to span operations that need the text.

use vstd::prelude::*;

verus! {

/// The lexical category assigned to a span at scan time, never reinterpreted.
#[derive(Clone, Copy, Debug, PartialEq, Eq)]
pub enum SpanType {
    Whitespace,
    Comment,
    /// Literal values such as numbers, except strings.
    Literal,
    /// A string literal.
    String,
    /// Identifiers and keywords.
    Identifier,
    Punctuation,
    Operator,
    /// The zero-length span reported once at the end of the source.
    Eof,
    Unclassified,
}

/// A view `(start, end, tag)` into the source text. It owns no characters,
/// only offsets. Invariant: `0 <= start <= end <= source.len()`. Spans are
/// compared by the text they denote (`text_equals`), not by their offsets:
/// two spans over different occurrences of the same text are equal.
#[derive(Clone, Copy, Debug)]
pub struct Span {
    pub start: usize,
    pub end: usize,
    pub tag: SpanType,
}

impl Span {
    /// The invariant tying a span to the source it points into.
    pub open spec fn wf(self, src: Seq<char>) -> bool {
        self.start <= self.end && self.end <= src.len()
    }

    /// The text a span denotes: the slice of the source between its offsets.
    pub open spec fn text(self, src: Seq<char>) -> Seq<char> {
        src.subrange(self.start as int, self.end as int)
    }

    /// A span with explicit offsets and tag.
    pub fn new_with(source: &Vec<char>, start: usize, end: usize, tag: SpanType) -> (r: Span)
        requires
            start <= end,
            end <= source@.len(),
        ensures
            r == (Span { start, end, tag }),
    {
        Span { start, end, tag }
    }

    /// A span with explicit offsets and the `Unclassified` tag.
    pub fn new(source: &Vec<char>, start: usize, end: usize) -> (r: Span)
        requires
            start <= end,
            end <= source@.len(),
        ensures
            r == (Span { start, end, tag: SpanType::Unclassified }),
    {
        Span { start, end, tag: SpanType::Unclassified }
    }

    /// A span from `start` to the end of the source.
    pub fn new_remaining_with(source: &Vec<char>, start: usize, tag: SpanType) -> (r: Span)
        requires
            start <= source@.len(),
        ensures
            r == (Span { start, end: source@.len() as usize, tag }),
    {
        let end: usize = source.len();
        Span { start, end, tag }
    }

    /// A span from `start` to the end of the source, tagged `Unclassified`.
    pub fn new_remaining(source: &Vec<char>, start: usize) -> (r: Span)
        requires
            start <= source@.len(),
        ensures
            r == (Span { start, end: source@.len() as usize, tag: SpanType::Unclassified }),
    {
        Self::new_remaining_with(source, start, SpanType::Unclassified)
    }

    /// The same span under another classification tag.
    pub fn with(self, tag: SpanType) -> (r: Span)
        ensures
            r == (Span { start: self.start, end: self.end, tag }),
    {
        Span { start: self.start, end: self.end, tag }
    }

    /// The text the span denotes, copied out of the source.
    pub fn get(&self, source: &Vec<char>) -> (r: Vec<char>)
        requires
            self.wf(source@),
        ensures
            r@ == self.text(source@),
    {
        let mut out: Vec<char> = Vec::new();
        let mut i: usize = self.start;
        while i < self.end
            invariant
                self.start <= i <= self.end,
                self.wf(source@),
                out@ == source@.subrange(self.start as int, i as int),
            decreases self.end - i,
        {
            out.push(source[i]);
            i = i + 1;
            assert(out@ =~= source@.subrange(self.start as int, i as int));
        }
        assert(out@ =~= self.text(source@));
        out
    }

    /// How many characters the span covers.
    pub fn len(&self) -> (r: usize)
        requires
            self.start <= self.end,
        ensures
            r == self.end - self.start,
    {
        self.end - self.start
    }

    /// Whether the span covers no characters.
    pub fn is_empty(&self) -> (r: bool)
        requires
            self.start <= self.end,
        ensures
            r == (self.start == self.end),
    {
        self.len() == 0
    }

    /// Whether two spans over the same source denote the same text. This is
    /// the equality the data model gives spans: by referenced content, not by
    /// offsets.
    pub fn text_equals(&self, other: &Span, source: &Vec<char>) -> (r: bool)
        requires
            self.wf(source@),
            other.wf(source@),
        ensures
            r <==> self.text(source@) == other.text(source@),
    {
        let a = self.get(source);
        let b = other.get(source);
        texts_equal(&a, &b)
    }

    /// The start offset.
    #[inline]
    #[must_use]
    pub fn start(&self) -> (r: usize)
        ensures
            r == self.start,
    {
        self.start
    }

    /// The end offset.
    #[inline]
    #[must_use]
    pub fn end(&self) -> (r: usize)
        ensures
            r == self.end,
    {
        self.end
    }
}

/// Whether two character buffers hold the same text.
pub fn texts_equal(a: &Vec<char>, b: &Vec<char>) -> (r: bool)
    ensures
        r <==> a@ == b@,
{
    if a.len() != b.len() {
        assert(a@ != b@) by {
            assert(a@.len() != b@.len());
        }
        return false;
    }
    let n: usize = a.len();
    let mut i: usize = 0;
    while i < n
        invariant
            0 <= i <= n,
            n == a@.len() && n == b@.len(),
            forall|j: int| 0 <= j < i ==> a@[j] == b@[j],
        decreases n - i,
    {
        if a[i] != b[i] {
            return false;
        }
        i = i + 1;
    }
    assert(a@ =~= b@);
    true
}

/// A fresh copy of a character buffer.
pub fn copy_text(a: &Vec<char>) -> (r: Vec<char>)
    ensures
        r@ == a@,
{
    let mut out: Vec<char> = Vec::new();
    let mut i: usize = 0;
    while i < a.len()
        invariant
            0 <= i <= a@.len(),
            out@ == a@.subrange(0, i as int),
        decreases a@.len() - i,
    {
        out.push(a[i]);
        i = i + 1;
        assert(out@ =~= a@.subrange(0, i as int));
    }
    assert(out@ =~= a@);
    out
}

} // verus!

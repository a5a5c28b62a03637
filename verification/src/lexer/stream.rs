//! The token cursor: a read-only, randomly indexable view over the finalized
//! token buffer, giving the parser cheap lookahead and backtracking.

use vstd::prelude::*;
use super::token::{Token, TokenKindV};

verus! {

/// The finalized token buffer the parser reads with positional indexing.
pub struct TokenStream {
    pub tokens: Vec<Token>,
}

impl TokenStream {
    /// The sequence of token kinds, which is all the grammar looks at.
    pub open spec fn kinds(self) -> Seq<TokenKindV> {
        self.tokens@.map_values(|t: Token| t.kind@)
    }

    /// A stream over a finalized token buffer.
    pub fn new(tokens: Vec<Token>) -> (r: TokenStream)
        ensures
            r.tokens@ == tokens@,
    {
        TokenStream { tokens }
    }

    /// How many tokens the stream holds.
    pub fn input_len(&self) -> (r: usize)
        ensures
            r == self.tokens@.len(),
    {
        self.tokens.len()
    }

    /// The token at a position.
    pub fn index(&self, i: usize) -> (r: &Token)
        requires
            i < self.tokens@.len(),
        ensures
            *r == self.tokens@[i as int],
    {
        &self.tokens[i]
    }
}

} // verus!

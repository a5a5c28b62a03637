//! The lexer: tokenizer and the random-access token stream the parser reads.

pub mod parsers;
pub mod stream;
pub mod token;

pub use parsers::parse_tokens;
pub use stream::TokenStream;

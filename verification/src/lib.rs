//! Lexer for ESIL (Evaluable Strings Intermediate Language), a comma-separated
//! postfix notation describing the side effects of machine instructions.
//!
//! The lexer is a total, pure transform from an input string to an ordered
//! sequence of [`Token`] values.  Compound surface operators (in-place
//! arithmetic, in-place memory access, comparison sugar) are expanded at lex
//! time into fixed multi-token sequences; everything the lexer produces is
//! pinned down by the spec-level model in [`model`].

pub mod token;
pub mod model;
mod numeral;
pub mod lexer;
pub mod laws;

pub use token::Token;
pub use token::TokenModel;
pub use token::views;
pub use model::tokens_of;
pub use model::lexeme_tokens;
pub use model::split_commas;
pub use lexer::tokenize;
pub use lexer::Tokenize;
pub use lexer::Tokenizer;

//! A streaming, character-by-character JSON lexer.
//!
//! The lexer turns a buffer of Unicode scalar values into a sequence of typed
//! tokens (structural punctuation, strings, numbers, literals) without
//! building a parse tree. Tokens are offset pairs into the original buffer;
//! no substring is ever copied. The core is the transition function
//! [`machine::step`], driven by [`machine::tokenize`]; [`scanner`] offers a
//! per-token interface over the same character classes.

pub mod machine;
pub mod scanner;
pub mod token;

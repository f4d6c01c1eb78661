//! The token and error data model, and the character classes the lexer
//! distinguishes.

use vstd::prelude::*;

verus! {

/// The kind of a lexical token. The lexer never parses a value out of a
/// token: only boundaries and kind are recorded.
#[derive(Clone, Copy, Debug, PartialEq, Eq, Structural)]
pub enum TokenKind {
    LeftBrace,
    RightBrace,
    LeftBracket,
    RightBracket,
    Colon,
    Comma,
    String,
    Number,
    True,
    False,
    Null,
}

/// A token: a kind together with the half-open range `[start, end)` of
/// offsets it covers in the scanned buffer. Every emitted token satisfies
/// `start < end`.
#[derive(Clone, Copy, Debug, PartialEq, Eq, Structural)]
pub struct Token {
    pub kind: TokenKind,
    pub start: usize,
    pub end: usize,
}

/// The lexer's error taxonomy. Each error carries the failing offset.
#[derive(Clone, Copy, Debug, PartialEq, Eq, Structural)]
pub enum LexError {
    /// A character cannot start or continue any token from the current state.
    UnexpectedCharacter { position: usize },
    /// Input ended while a token was still incomplete; the position is the
    /// buffer length.
    UnterminatedToken { position: usize },
}

/// Which literal word (`true`, `false` or `null`) is being matched.
#[derive(Clone, Copy, Debug, PartialEq, Eq, Structural)]
pub enum LiteralKind {
    True,
    False,
    Null,
}

impl LiteralKind {
    /// The characters of the literal word.
    pub open spec fn text(self) -> Seq<char> {
        match self {
            LiteralKind::True => seq!['t', 'r', 'u', 'e'],
            LiteralKind::False => seq!['f', 'a', 'l', 's', 'e'],
            LiteralKind::Null => seq!['n', 'u', 'l', 'l'],
        }
    }

    /// The token kind emitted when the literal completes.
    pub open spec fn spec_token_kind(self) -> TokenKind {
        match self {
            LiteralKind::True => TokenKind::True,
            LiteralKind::False => TokenKind::False,
            LiteralKind::Null => TokenKind::Null,
        }
    }

    /// The length of the literal word.
    pub fn length(self) -> (n: usize)
        ensures
            n == self.text().len(),
    {
        match self {
            LiteralKind::True => 4,
            LiteralKind::False => 5,
            LiteralKind::Null => 4,
        }
    }

    /// The `i`-th character of the literal word.
    pub fn char_at(self, i: usize) -> (c: char)
        requires
            i < self.text().len(),
        ensures
            c == self.text()[i as int],
    {
        match self {
            LiteralKind::True => {
                if i == 0 { 't' } else if i == 1 { 'r' } else if i == 2 { 'u' } else { 'e' }
            },
            LiteralKind::False => {
                if i == 0 { 'f' } else if i == 1 { 'a' } else if i == 2 { 'l' } else if i == 3 { 's' } else { 'e' }
            },
            LiteralKind::Null => {
                if i == 0 { 'n' } else if i == 1 { 'u' } else { 'l' }
            },
        }
    }

    /// The token kind emitted when the literal completes.
    pub fn token_kind(self) -> (k: TokenKind)
        ensures
            k == self.spec_token_kind(),
    {
        match self {
            LiteralKind::True => TokenKind::True,
            LiteralKind::False => TokenKind::False,
            LiteralKind::Null => TokenKind::Null,
        }
    }
}

/// A token is well formed for a buffer of length `len` when it covers a
/// non-empty range inside the buffer.
pub open spec fn token_wf(t: Token, len: nat) -> bool {
    t.start < t.end && t.end <= len
}

/// The whitespace the lexer skips between tokens.
pub open spec fn is_whitespace_char(c: char) -> bool {
    c == ' ' || c == '\n' || c == '\t' || c == '\r'
}

/// The six structural punctuation characters.
pub open spec fn is_structural_char(c: char) -> bool {
    c == '{' || c == '}' || c == '[' || c == ']' || c == ':' || c == ','
}

/// The token kind of a structural character.
pub open spec fn structural_kind(c: char) -> TokenKind
    recommends
        is_structural_char(c),
{
    if c == '{' {
        TokenKind::LeftBrace
    } else if c == '}' {
        TokenKind::RightBrace
    } else if c == '[' {
        TokenKind::LeftBracket
    } else if c == ']' {
        TokenKind::RightBracket
    } else if c == ':' {
        TokenKind::Colon
    } else {
        TokenKind::Comma
    }
}

/// A decimal digit.
pub open spec fn is_digit_char(c: char) -> bool {
    '0' as u32 <= c as u32 && c as u32 <= '9' as u32
}

/// A character that continues a number: a digit or a minus sign. The minus
/// sign is accepted anywhere in the digit run, deliberately: the lexer only
/// finds token boundaries and defers grammar validation.
pub open spec fn is_number_char(c: char) -> bool {
    is_digit_char(c) || c == '-'
}

/// Executable test for [`is_whitespace_char`].
pub fn whitespace_char(c: char) -> (r: bool)
    ensures
        r == is_whitespace_char(c),
{
    c == ' ' || c == '\n' || c == '\t' || c == '\r'
}

/// Executable test for [`is_structural_char`].
pub fn structural_char(c: char) -> (r: bool)
    ensures
        r == is_structural_char(c),
{
    c == '{' || c == '}' || c == '[' || c == ']' || c == ':' || c == ','
}

/// Executable counterpart of [`structural_kind`].
pub fn structural_token_kind(c: char) -> (k: TokenKind)
    requires
        is_structural_char(c),
    ensures
        k == structural_kind(c),
{
    if c == '{' {
        TokenKind::LeftBrace
    } else if c == '}' {
        TokenKind::RightBrace
    } else if c == '[' {
        TokenKind::LeftBracket
    } else if c == ']' {
        TokenKind::RightBracket
    } else if c == ':' {
        TokenKind::Colon
    } else {
        TokenKind::Comma
    }
}

/// Executable test for [`is_digit_char`].
pub fn digit_char(c: char) -> (r: bool)
    ensures
        r == is_digit_char(c),
{
    let u = c as u32;
    '0' as u32 <= u && u <= '9' as u32
}

/// Executable test for [`is_number_char`].
pub fn number_char(c: char) -> (r: bool)
    ensures
        r == is_number_char(c),
{
    digit_char(c) || c == '-'
}

} // verus!

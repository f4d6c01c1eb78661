//! A per-token scanning interface: each function scans one whole token from
//! a given offset of the buffer. [`next`] skips leading whitespace and scans
//! the next token; a caller may resume at the returned token's `end`, where
//! the character that terminated a number is re-examined on its own.

use vstd::prelude::*;
use vstd::slice::{slice_index_get, slice_subrange};
use vstd::string::StrSliceExecFns;

use crate::token::{
    LexError, LiteralKind, Token, TokenKind, is_number_char, is_structural_char,
    is_whitespace_char, number_char, structural_char, structural_kind, structural_token_kind,
    whitespace_char,
};

verus! {

/// Builds the single-width token for a structural character at `index`.
pub fn make_simple_token(kind: TokenKind, index: usize) -> (r: Result<Token, LexError>)
    requires
        index < usize::MAX,
    ensures
        r == Ok::<Token, LexError>((Token { kind, start: index, end: (index + 1) as usize })),
{
    Ok(Token { kind, start: index, end: index + 1 })
}

/// What scanning a string yields once its opening quote (at `start`) has
/// been passed: the token closed by the first unescaped quote, an error at a
/// bare newline, or an unterminated-token error at end of input. `i` is the
/// next offset to examine and `pending_escape` records a preceding backslash.
pub open spec fn string_scan(
    data: Seq<char>,
    start: int,
    i: int,
    pending_escape: bool,
) -> Result<Token, LexError>
    decreases data.len() - i,
{
    if i < 0 || i >= data.len() {
        Err(LexError::UnterminatedToken { position: data.len() as usize })
    } else {
        let c = data[i];
        if pending_escape {
            string_scan(data, start, i + 1, false)
        } else if c == '"' {
            Ok((Token { kind: TokenKind::String, start: start as usize, end: (i + 1) as usize }))
        } else if c == '\\' {
            string_scan(data, start, i + 1, true)
        } else if c == '\n' {
            Err(LexError::UnexpectedCharacter { position: i as usize })
        } else {
            string_scan(data, start, i + 1, false)
        }
    }
}

/// What scanning a number from `start` yields, `i` being the next offset to
/// examine and `seen_decimal_point` whether a decimal point was already
/// accepted: the token ends (exclusively) at the first character outside the
/// numeric alphabet, or at end of input; a second decimal point is an error
/// at its own offset.
pub open spec fn number_scan(
    data: Seq<char>,
    start: int,
    i: int,
    seen_decimal_point: bool,
) -> Result<Token, LexError>
    decreases data.len() - i,
{
    if i < 0 || i >= data.len() {
        Ok((Token { kind: TokenKind::Number, start: start as usize, end: data.len() as usize }))
    } else {
        let c = data[i];
        if is_number_char(c) {
            number_scan(data, start, i + 1, seen_decimal_point)
        } else if c == '.' {
            if seen_decimal_point {
                Err(LexError::UnexpectedCharacter { position: i as usize })
            } else {
                number_scan(data, start, i + 1, true)
            }
        } else {
            Ok((Token { kind: TokenKind::Number, start: start as usize, end: i as usize }))
        }
    }
}

/// What matching the literal word `lit` at `start` yields: the token when
/// the buffer holds the word there, an unterminated-token error when the
/// buffer is too short, and otherwise an unexpected-character error at the
/// word's starting offset.
pub open spec fn literal_result(
    data: Seq<char>,
    lit: Seq<char>,
    kind: TokenKind,
    start: int,
) -> Result<Token, LexError> {
    if data.len() < start + lit.len() {
        Err(LexError::UnterminatedToken { position: data.len() as usize })
    } else if data.subrange(start, start + lit.len() as int) == lit {
        Ok((Token { kind, start: start as usize, end: (start + lit.len()) as usize }))
    } else {
        Err(LexError::UnexpectedCharacter { position: start as usize })
    }
}

/// Returns the first offset at or after `start_index` holding a
/// non-whitespace character, or `None` when only whitespace remains.
pub fn ignore_whitespace(data: &[char], start_index: usize) -> (r: Option<usize>)
    ensures
        (match r {
            Some(i) => start_index <= i < data@.len() && !is_whitespace_char(data@[i as int])
                && forall|j: int|
                start_index <= j < i ==> is_whitespace_char(#[trigger] data@[j]),
            None => forall|j: int|
                start_index <= j < data@.len() ==> is_whitespace_char(#[trigger] data@[j]),
        }),
{
    let n = data.len();
    let mut i = start_index;
    while i < n
        invariant
            n == data@.len(),
            start_index <= i,
            forall|j: int| start_index <= j < i ==> is_whitespace_char(#[trigger] data@[j]),
        decreases n - i,
    {
        let c = *slice_index_get(data, i);
        if !whitespace_char(c) {
            return Some(i);
        }
        i = i + 1;
    }
    None
}

/// Scans one string token whose opening quote stands at `start_index`. An
/// escaped character is never inspected further at this layer; a bare
/// newline inside the string and a missing opening quote are errors.
pub fn tokenize_string(data: &[char], start_index: usize) -> (r: Result<Token, LexError>)
    requires
        start_index < data@.len(),
    ensures
        r == (if data@[start_index as int] == '"' {
            string_scan(data@, start_index as int, start_index + 1, false)
        } else {
            Err::<Token, LexError>(LexError::UnexpectedCharacter { position: start_index })
        }),
{
    proof {
        vstd::slice::axiom_spec_len::<char>(data);
    }
    let first_char = *slice_index_get(data, start_index);
    if first_char != '"' {
        return Err(LexError::UnexpectedCharacter { position: start_index });
    }
    let n = data.len();
    let mut i = start_index + 1;
    let mut pending_escape = false;
    while i < n
        invariant
            n == data@.len(),
            start_index < i <= n,
            data@[start_index as int] == '"',
            string_scan(data@, start_index as int, start_index + 1, false) == string_scan(
                data@,
                start_index as int,
                i as int,
                pending_escape,
            ),
        decreases n - i,
    {
        let c = *slice_index_get(data, i);
        if pending_escape {
            pending_escape = false;
        } else if c == '"' {
            return Ok(Token { kind: TokenKind::String, start: start_index, end: i + 1 });
        } else if c == '\\' {
            pending_escape = true;
        } else if c == '\n' {
            return Err(LexError::UnexpectedCharacter { position: i });
        }
        i = i + 1;
    }
    Err(LexError::UnterminatedToken { position: n })
}

/// Scans one number token beginning at `start_index`. Digits and the minus
/// sign continue the number anywhere in the run, one decimal point is
/// accepted, and the token ends exclusively at the first character outside
/// that alphabet — or at end of input, where the number is complete.
pub fn tokenize_number(data: &[char], start_index: usize) -> (r: Result<Token, LexError>)
    requires
        start_index < data@.len(),
        is_number_char(data@[start_index as int]),
    ensures
        r == number_scan(data@, start_index as int, start_index as int, false),
{
    proof {
        vstd::slice::axiom_spec_len::<char>(data);
    }
    let n = data.len();
    let mut i = start_index;
    let mut seen_decimal_point = false;
    while i < n
        invariant
            n == data@.len(),
            start_index <= i <= n,
            number_scan(data@, start_index as int, start_index as int, false) == number_scan(
                data@,
                start_index as int,
                i as int,
                seen_decimal_point,
            ),
        decreases n - i,
    {
        let c = *slice_index_get(data, i);
        if number_char(c) {
            // continue the run
        } else if c == '.' {
            if seen_decimal_point {
                return Err(LexError::UnexpectedCharacter { position: i });
            }
            seen_decimal_point = true;
        } else {
            return Ok(Token { kind: TokenKind::Number, start: start_index, end: i });
        }
        i = i + 1;
    }
    Ok(Token { kind: TokenKind::Number, start: start_index, end: n })
}

/// Whether the characters of `data` are exactly those of `literal`.
pub fn equals(data: &[char], literal: &str) -> (r: bool)
    ensures
        r <==> data@ == literal@,
{
    proof {
        vstd::slice::axiom_spec_len::<char>(data);
    }
    let n = literal.unicode_len();
    if data.len() != n {
        return false;
    }
    let mut i: usize = 0;
    while i < n
        invariant
            n == literal@.len(),
            n == data@.len(),
            i <= n,
            forall|j: int| 0 <= j < i ==> data@[j] == literal@[j],
        decreases n - i,
    {
        if *slice_index_get(data, i) != literal.get_char(i) {
            return false;
        }
        i = i + 1;
    }
    proof {
        assert(data@ =~= literal@);
    }
    true
}

/// Matches the literal word `literal` at `start_index` and emits a token of
/// kind `token_type` spanning it. A buffer too short to hold the word is an
/// unterminated token; a mismatch is an unexpected character reported at the
/// word's starting offset.
pub fn tokenize_literal(
    data: &[char],
    literal: &str,
    token_type: TokenKind,
    start_index: usize,
) -> (r: Result<Token, LexError>)
    ensures
        r == literal_result(data@, literal@, token_type, start_index as int),
{
    proof {
        vstd::slice::axiom_spec_len::<char>(data);
    }
    let n = literal.unicode_len();
    let len = data.len();
    if len < n || start_index > len - n {
        return Err(LexError::UnterminatedToken { position: len });
    }
    let sub = slice_subrange(data, start_index, start_index + n);
    if equals(sub, literal) {
        Ok(Token { kind: token_type, start: start_index, end: start_index + n })
    } else {
        Err(LexError::UnexpectedCharacter { position: start_index })
    }
}

/// Matches the literal word `true` at `start_index`.
pub fn tokenize_true(data: &[char], start_index: usize) -> (r: Result<Token, LexError>)
    ensures
        r == literal_result(
            data@,
            LiteralKind::True.text(),
            TokenKind::True,
            start_index as int,
        ),
{
    proof {
        reveal_strlit("true");
        assert("true"@ =~= LiteralKind::True.text());
    }
    tokenize_literal(data, "true", TokenKind::True, start_index)
}

/// Matches the literal word `false` at `start_index`.
pub fn tokenize_false(data: &[char], start_index: usize) -> (r: Result<Token, LexError>)
    ensures
        r == literal_result(
            data@,
            LiteralKind::False.text(),
            TokenKind::False,
            start_index as int,
        ),
{
    proof {
        reveal_strlit("false");
        assert("false"@ =~= LiteralKind::False.text());
    }
    tokenize_literal(data, "false", TokenKind::False, start_index)
}

/// Matches the literal word `null` at `start_index`.
pub fn tokenize_null(data: &[char], start_index: usize) -> (r: Result<Token, LexError>)
    ensures
        r == literal_result(
            data@,
            LiteralKind::Null.text(),
            TokenKind::Null,
            start_index as int,
        ),
{
    proof {
        reveal_strlit("null");
        assert("null"@ =~= LiteralKind::Null.text());
    }
    tokenize_literal(data, "null", TokenKind::Null, start_index)
}

/// What [`next`] returns: the first token at or after `start`, whitespace
/// skipped. End of input before any token begins is reported as an
/// unterminated token at the buffer length.
pub open spec fn next_spec(data: Seq<char>, start: int) -> Result<Token, LexError>
    decreases data.len() - start,
{
    if start < 0 || start >= data.len() {
        Err(LexError::UnterminatedToken { position: data.len() as usize })
    } else {
        let c = data[start];
        if is_structural_char(c) {
            Ok(
                (Token {
                    kind: structural_kind(c),
                    start: start as usize,
                    end: (start + 1) as usize,
                }),
            )
        } else if c == '"' {
            string_scan(data, start, start + 1, false)
        } else if c == 't' {
            literal_result(data, LiteralKind::True.text(), TokenKind::True, start)
        } else if c == 'f' {
            literal_result(data, LiteralKind::False.text(), TokenKind::False, start)
        } else if c == 'n' {
            literal_result(data, LiteralKind::Null.text(), TokenKind::Null, start)
        } else if is_number_char(c) {
            number_scan(data, start, start, false)
        } else if is_whitespace_char(c) {
            next_spec(data, start + 1)
        } else {
            Err(LexError::UnexpectedCharacter { position: start as usize })
        }
    }
}

/// Skipping over whitespace does not change what the next token is.
proof fn lemma_next_spec_skip_whitespace(data: Seq<char>, s: int, i: int)
    requires
        0 <= s <= i <= data.len(),
        forall|j: int| s <= j < i ==> is_whitespace_char(#[trigger] data[j]),
    ensures
        next_spec(data, s) == next_spec(data, i),
    decreases i - s,
{
    if s < i {
        lemma_next_spec_skip_whitespace(data, s + 1, i);
    }
}

/// Scans the next token at or after `start_index`, skipping whitespace
/// first.
pub fn next(data: &[char], start_index: usize) -> (r: Result<Token, LexError>)
    requires
        start_index < data@.len(),
    ensures
        r == next_spec(data@, start_index as int),
    decreases data@.len() - start_index,
{
    proof {
        vstd::slice::axiom_spec_len::<char>(data);
    }
    let c = *slice_index_get(data, start_index);
    if structural_char(c) {
        make_simple_token(structural_token_kind(c), start_index)
    } else if c == '"' {
        tokenize_string(data, start_index)
    } else if c == 't' {
        tokenize_true(data, start_index)
    } else if c == 'f' {
        tokenize_false(data, start_index)
    } else if c == 'n' {
        tokenize_null(data, start_index)
    } else if number_char(c) {
        tokenize_number(data, start_index)
    } else if whitespace_char(c) {
        let skipped = ignore_whitespace(data, start_index);
        match skipped {
            Some(index) => {
                proof {
                    lemma_next_spec_skip_whitespace(data@, start_index as int, index as int);
                }
                // The first character found was whitespace, so the first
                // non-whitespace offset lies strictly beyond it.
                next(data, index)
            },
            None => {
                proof {
                    lemma_next_spec_skip_whitespace(
                        data@,
                        start_index as int,
                        data@.len() as int,
                    );
                }
                Err(LexError::UnterminatedToken { position: data.len() })
            },
        }
    } else {
        Err(LexError::UnexpectedCharacter { position: start_index })
    }
}

} // verus!

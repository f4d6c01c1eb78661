//! The lexer state machine: one transition [`step`] at a time, and the
//! driving loop [`tokenize`] that collects the emitted tokens.

use vstd::prelude::*;

use crate::token::{
    LexError, LiteralKind, Token, TokenKind, is_number_char, is_structural_char,
    is_whitespace_char, number_char, structural_char, structural_kind, structural_token_kind,
    token_wf, whitespace_char,
};

verus! {

/// The scanner's current mode between characters. A fresh scan starts in
/// `Idle`; the state is replaced, never mutated, on every step; `Failed` is
/// terminal.
#[derive(Clone, Copy, Debug, PartialEq, Eq, Structural)]
pub enum LexState {
    /// Ready to start a new token.
    Idle,
    /// Inside a string literal that began (with its opening quote) at `start`;
    /// `pending_escape` records that the previous character was a backslash.
    InString { start: usize, pending_escape: bool },
    /// Inside a number that began at `start`; `seen_decimal_point` records
    /// that a decimal point was already accepted.
    InNumber { start: usize, seen_decimal_point: bool },
    /// Inside the literal word `true`, `false` or `null` that began at
    /// `start`, with `matched_count` characters already matched.
    InLiteral { start: usize, literal: LiteralKind, matched_count: usize },
    /// Terminal: scanning cannot resume.
    Failed { error: LexError },
}

/// What one transition step does: the state to use next, the token completed
/// on this step if any, and how many input units the caller must advance by.
pub open spec fn step_spec(input: Seq<char>, position: usize, state: LexState) -> (LexState, Option<
    Token,
>, usize)
    recommends
        position < input.len(),
{
    let c = input[position as int];
    match state {
        LexState::Idle => {
            if is_structural_char(c) {
                (
                    LexState::Idle,
                    Some(
                        (Token {
                            kind: structural_kind(c),
                            start: position,
                            end: (position + 1) as usize,
                        }),
                    ),
                    1usize,
                )
            } else if c == '"' {
                (LexState::InString { start: position, pending_escape: false }, None, 1usize)
            } else if c == 't' {
                (
                    LexState::InLiteral {
                        start: position,
                        literal: LiteralKind::True,
                        matched_count: 1,
                    },
                    None,
                    1usize,
                )
            } else if c == 'f' {
                (
                    LexState::InLiteral {
                        start: position,
                        literal: LiteralKind::False,
                        matched_count: 1,
                    },
                    None,
                    1usize,
                )
            } else if c == 'n' {
                (
                    LexState::InLiteral {
                        start: position,
                        literal: LiteralKind::Null,
                        matched_count: 1,
                    },
                    None,
                    1usize,
                )
            } else if is_number_char(c) {
                (LexState::InNumber { start: position, seen_decimal_point: false }, None, 1usize)
            } else if is_whitespace_char(c) {
                (LexState::Idle, None, 1usize)
            } else {
                (
                    LexState::Failed { error: LexError::UnexpectedCharacter { position } },
                    None,
                    0usize,
                )
            }
        },
        LexState::InString { start, pending_escape } => {
            if pending_escape {
                (LexState::InString { start, pending_escape: false }, None, 1usize)
            } else if c == '"' {
                (
                    LexState::Idle,
                    Some(
                        (Token { kind: TokenKind::String, start, end: (position + 1) as usize }),
                    ),
                    1usize,
                )
            } else if c == '\\' {
                (LexState::InString { start, pending_escape: true }, None, 1usize)
            } else if c == '\n' {
                (
                    LexState::Failed { error: LexError::UnexpectedCharacter { position } },
                    None,
                    0usize,
                )
            } else {
                (LexState::InString { start, pending_escape: false }, None, 1usize)
            }
        },
        LexState::InNumber { start, seen_decimal_point } => {
            if is_number_char(c) {
                (LexState::InNumber { start, seen_decimal_point }, None, 1usize)
            } else if c == '.' {
                if seen_decimal_point {
                    (
                        LexState::Failed { error: LexError::UnexpectedCharacter { position } },
                        None,
                        0usize,
                    )
                } else {
                    (LexState::InNumber { start, seen_decimal_point: true }, None, 1usize)
                }
            } else {
                // The terminating character is not part of the number and is
                // re-examined by the next step from `Idle`.
                (
                    LexState::Idle,
                    Some((Token { kind: TokenKind::Number, start, end: position })),
                    0usize,
                )
            }
        },
        LexState::InLiteral { start, literal, matched_count } => {
            if matched_count < literal.text().len() && c == literal.text()[matched_count as int] {
                if matched_count + 1 == literal.text().len() {
                    (
                        LexState::Idle,
                        Some(
                            (Token {
                                kind: literal.spec_token_kind(),
                                start,
                                end: (position + 1) as usize,
                            }),
                        ),
                        1usize,
                    )
                } else {
                    (
                        LexState::InLiteral {
                            start,
                            literal,
                            matched_count: (matched_count + 1) as usize,
                        },
                        None,
                        1usize,
                    )
                }
            } else {
                (
                    LexState::Failed { error: LexError::UnexpectedCharacter { position } },
                    None,
                    0usize,
                )
            }
        },
        LexState::Failed { .. } => (state, None, 0usize),
    }
}

/// One transition of the lexer. Pure: the result is exactly
/// [`step_spec`] of the arguments, so two calls on identical arguments
/// always return identical output.
pub fn step(input: &[char], position: usize, state: LexState) -> (r: (
    LexState,
    Option<Token>,
    usize,
))
    requires
        position < input@.len(),
    ensures
        r == step_spec(input@, position, state),
{
    proof {
        vstd::slice::axiom_spec_len::<char>(input);
    }
    let c = *vstd::slice::slice_index_get(input, position);
    match state {
        LexState::Idle => {
            if structural_char(c) {
                (
                    LexState::Idle,
                    Some(Token { kind: structural_token_kind(c), start: position, end: position + 1 }),
                    1,
                )
            } else if c == '"' {
                (LexState::InString { start: position, pending_escape: false }, None, 1)
            } else if c == 't' {
                (
                    LexState::InLiteral {
                        start: position,
                        literal: LiteralKind::True,
                        matched_count: 1,
                    },
                    None,
                    1,
                )
            } else if c == 'f' {
                (
                    LexState::InLiteral {
                        start: position,
                        literal: LiteralKind::False,
                        matched_count: 1,
                    },
                    None,
                    1,
                )
            } else if c == 'n' {
                (
                    LexState::InLiteral {
                        start: position,
                        literal: LiteralKind::Null,
                        matched_count: 1,
                    },
                    None,
                    1,
                )
            } else if number_char(c) {
                (LexState::InNumber { start: position, seen_decimal_point: false }, None, 1)
            } else if whitespace_char(c) {
                (LexState::Idle, None, 1)
            } else {
                (LexState::Failed { error: LexError::UnexpectedCharacter { position } }, None, 0)
            }
        },
        LexState::InString { start, pending_escape } => {
            if pending_escape {
                (LexState::InString { start, pending_escape: false }, None, 1)
            } else if c == '"' {
                (
                    LexState::Idle,
                    Some(Token { kind: TokenKind::String, start, end: position + 1 }),
                    1,
                )
            } else if c == '\\' {
                (LexState::InString { start, pending_escape: true }, None, 1)
            } else if c == '\n' {
                (LexState::Failed { error: LexError::UnexpectedCharacter { position } }, None, 0)
            } else {
                (LexState::InString { start, pending_escape: false }, None, 1)
            }
        },
        LexState::InNumber { start, seen_decimal_point } => {
            if number_char(c) {
                (LexState::InNumber { start, seen_decimal_point }, None, 1)
            } else if c == '.' {
                if seen_decimal_point {
                    (
                        LexState::Failed { error: LexError::UnexpectedCharacter { position } },
                        None,
                        0,
                    )
                } else {
                    (LexState::InNumber { start, seen_decimal_point: true }, None, 1)
                }
            } else {
                (
                    LexState::Idle,
                    Some(Token { kind: TokenKind::Number, start, end: position }),
                    0,
                )
            }
        },
        LexState::InLiteral { start, literal, matched_count } => {
            let len = literal.length();
            if matched_count < len && c == literal.char_at(matched_count) {
                if matched_count + 1 == len {
                    (
                        LexState::Idle,
                        Some(Token { kind: literal.token_kind(), start, end: position + 1 }),
                        1,
                    )
                } else {
                    (
                        LexState::InLiteral { start, literal, matched_count: matched_count + 1 },
                        None,
                        1,
                    )
                }
            } else {
                (LexState::Failed { error: LexError::UnexpectedCharacter { position } }, None, 0)
            }
        },
        LexState::Failed { error } => (LexState::Failed { error }, None, 0),
    }
}

/// A state is well formed at `position` when any token it has begun starts
/// strictly before `position` and literal matching has not run past the
/// literal's end. The invariant makes every emitted token non-empty.
pub open spec fn state_wf(state: LexState, position: int) -> bool {
    match state {
        LexState::Idle => true,
        LexState::InString { start, pending_escape } => start < position,
        LexState::InNumber { start, seen_decimal_point } => start < position,
        LexState::InLiteral { start, literal, matched_count } => start < position && 1
            <= matched_count && matched_count < literal.text().len(),
        LexState::Failed { error } => true,
    }
}

/// Ranks states for termination: a number can be closed without consuming
/// input (the machine returns to `Idle` at the same position), every other
/// productive step consumes one unit.
pub open spec fn state_rank(state: LexState) -> nat {
    match state {
        LexState::InNumber { start, seen_decimal_point } => 1nat,
        _ => 0nat,
    }
}

/// The tokens of the whole remaining input: drives [`step_spec`] from
/// `position` in `state`, appending emitted tokens to `acc`, until the buffer
/// is exhausted or the machine fails. At end of input, a pending number is
/// complete and emitted; a pending string or literal is unterminated.
pub open spec fn scan(
    input: Seq<char>,
    position: usize,
    state: LexState,
    acc: Seq<Token>,
) -> Result<Seq<Token>, LexError>
    decreases input.len() - position, state_rank(state),
        when position <= input.len() <= usize::MAX
{
    if position >= input.len() {
        match state {
            LexState::Idle => Ok(acc),
            LexState::InNumber { start, seen_decimal_point } => Ok(
                acc.push(
                    (Token { kind: TokenKind::Number, start, end: input.len() as usize }),
                ),
            ),
            LexState::InString { start, pending_escape } => Err(
                LexError::UnterminatedToken { position: input.len() as usize },
            ),
            LexState::InLiteral { start, literal, matched_count } => Err(
                LexError::UnterminatedToken { position: input.len() as usize },
            ),
            LexState::Failed { error } => Err(error),
        }
    } else if state is Failed {
        Err(state->Failed_error)
    } else {
        let (next_state, emitted, consumed) = step_spec(input, position, state);
        if next_state is Failed {
            Err(next_state->Failed_error)
        } else {
            let acc2 = match emitted {
                Some(t) => acc.push(t),
                None => acc,
            };
            scan(input, (position + consumed) as usize, next_state, acc2)
        }
    }
}

/// Scans the whole buffer from a fresh `Idle` state and returns the tokens
/// in order, or the first error. Every token of a successful scan is well
/// formed: it covers a non-empty range inside the buffer.
pub fn tokenize(input: &[char]) -> (r: Result<Vec<Token>, LexError>)
    ensures
        (match r {
            Ok(tokens) => scan(input@, 0, LexState::Idle, Seq::empty()) == Ok::<
                Seq<Token>,
                LexError,
            >(tokens@),
            Err(e) => scan(input@, 0, LexState::Idle, Seq::empty()) == Err::<
                Seq<Token>,
                LexError,
            >(e),
        }),
        r matches Ok(tokens) ==> forall|k: int|
            0 <= k < tokens@.len() ==> token_wf(#[trigger] tokens@[k], input@.len()),
{
    proof {
        vstd::slice::axiom_spec_len::<char>(input);
    }
    let n = input.len();
    let mut tokens: Vec<Token> = Vec::new();
    let mut position: usize = 0;
    let mut state = LexState::Idle;
    while position < n
        invariant
            n == input@.len(),
            position <= n,
            !(state is Failed),
            state_wf(state, position as int),
            scan(input@, 0, LexState::Idle, Seq::empty()) == scan(
                input@,
                position,
                state,
                tokens@,
            ),
            forall|k: int| 0 <= k < tokens@.len() ==> token_wf(#[trigger] tokens@[k], input@.len()),
        decreases n - position, state_rank(state),
    {
        let (next_state, emitted, consumed) = step(input, position, state);
        if let LexState::Failed { error } = next_state {
            return Err(error);
        }
        if let Some(t) = emitted {
            tokens.push(t);
        }
        position = position + consumed;
        state = next_state;
    }
    match state {
        LexState::Idle => Ok(tokens),
        LexState::InNumber { start, seen_decimal_point } => {
            tokens.push(Token { kind: TokenKind::Number, start, end: position });
            Ok(tokens)
        },
        LexState::InString { start, pending_escape } => Err(
            LexError::UnterminatedToken { position },
        ),
        LexState::InLiteral { start, literal, matched_count } => Err(
            LexError::UnterminatedToken { position },
        ),
        LexState::Failed { error } => Err(error),
    }
}

/// Law: from `Idle`, a structural character yields exactly one token of the
/// matching kind, spanning one unit (`end == start + 1`), with one unit
/// consumed and the machine back in `Idle`.
pub proof fn lemma_idle_structural(input: Seq<char>, position: usize)
    requires
        position < input.len(),
        position < usize::MAX,
        is_structural_char(input[position as int]),
    ensures
        step_spec(input, position, LexState::Idle) == (
            LexState::Idle,
            Some(
                (Token {
                    kind: structural_kind(input[position as int]),
                    start: position,
                    end: (position + 1) as usize,
                }),
            ),
            1usize,
        ),
        step_spec(input, position, LexState::Idle).1->Some_0.end == position + 1,
{
}

/// Law: from `Idle`, a whitespace character emits no token, consumes one
/// unit, and leaves the machine in `Idle`.
pub proof fn lemma_idle_whitespace(input: Seq<char>, position: usize)
    requires
        position < input.len(),
        is_whitespace_char(input[position as int]),
    ensures
        step_spec(input, position, LexState::Idle) == (
            LexState::Idle,
            Option::<Token>::None,
            1usize,
        ),
{
}

/// Law: a run of whitespace of any length and mixture, from `Idle`, produces
/// no token: scanning the rest of the buffer when everything from `position`
/// on is whitespace succeeds with exactly the tokens already accumulated.
pub proof fn lemma_whitespace_run(input: Seq<char>, position: usize, acc: Seq<Token>)
    requires
        position <= input.len() <= usize::MAX,
        forall|j: int| position <= j < input.len() ==> is_whitespace_char(#[trigger] input[j]),
    ensures
        scan(input, position, LexState::Idle, acc) == Ok::<Seq<Token>, LexError>(acc),
    decreases input.len() - position,
{
    if position < input.len() {
        lemma_whitespace_run(input, (position + 1) as usize, acc);
    }
}

/// Law: a buffer made of whitespace alone yields zero tokens and no error.
pub proof fn lemma_whitespace_only(input: Seq<char>)
    requires
        input.len() <= usize::MAX,
        forall|j: int| 0 <= j < input.len() ==> is_whitespace_char(#[trigger] input[j]),
    ensures
        scan(input, 0, LexState::Idle, Seq::empty()) == Ok::<Seq<Token>, LexError>(
            Seq::<Token>::empty(),
        ),
{
    lemma_whitespace_run(input, 0, Seq::empty());
}

/// Law: an empty buffer yields zero tokens and no error.
pub proof fn lemma_empty_input()
    ensures
        scan(Seq::empty(), 0, LexState::Idle, Seq::empty()) == Ok::<Seq<Token>, LexError>(
            Seq::<Token>::empty(),
        ),
{
}

} // verus!

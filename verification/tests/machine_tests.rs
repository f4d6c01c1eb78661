use json_lexer::machine::{step, tokenize, LexState};
use json_lexer::token::{LexError, LiteralKind, Token, TokenKind};

fn chars(s: &str) -> Vec<char> {
    s.chars().collect()
}

#[test]
fn structural_characters_step_to_single_width_tokens() {
    let cases = [
        ('{', TokenKind::LeftBrace),
        ('}', TokenKind::RightBrace),
        ('[', TokenKind::LeftBracket),
        (']', TokenKind::RightBracket),
        (':', TokenKind::Colon),
        (',', TokenKind::Comma),
    ];
    for (c, kind) in cases {
        let data = vec![' ', c];
        let (state, token, consumed) = step(&data, 1, LexState::Idle);
        assert_eq!(state, LexState::Idle);
        assert_eq!(token, Some(Token { kind, start: 1, end: 2 }));
        assert_eq!(consumed, 1);
    }
}

#[test]
fn whitespace_run_yields_no_tokens() {
    let data = chars(" \t\r\n \n\t  ");
    let tokens = tokenize(&data).unwrap();
    assert!(tokens.is_empty());

    // Each whitespace step stays in `Idle` and emits nothing.
    let (state, token, consumed) = step(&data, 3, LexState::Idle);
    assert_eq!(state, LexState::Idle);
    assert_eq!(token, None);
    assert_eq!(consumed, 1);
}

#[test]
fn tokenize_true_literal() {
    let data = chars("true");
    let tokens = tokenize(&data).unwrap();
    assert_eq!(tokens, vec![Token { kind: TokenKind::True, start: 0, end: 4 }]);

    let data = chars("tru");
    assert_eq!(tokenize(&data), Err(LexError::UnterminatedToken { position: 3 }));
}

#[test]
fn tokenize_string_with_escaped_quote() {
    let data = chars("\"ab\\\"c\"");
    assert_eq!(data.len(), 7);
    let tokens = tokenize(&data).unwrap();
    assert_eq!(tokens, vec![Token { kind: TokenKind::String, start: 0, end: 7 }]);
}

#[test]
fn tokenize_number_boundaries() {
    let data = chars("123.45.6");
    assert_eq!(tokenize(&data), Err(LexError::UnexpectedCharacter { position: 6 }));

    let data = chars("123.45");
    let tokens = tokenize(&data).unwrap();
    assert_eq!(tokens, vec![Token { kind: TokenKind::Number, start: 0, end: 6 }]);
}

#[test]
fn tokenize_small_object() {
    let data = chars("{\"a\":1}");
    let tokens = tokenize(&data).unwrap();
    assert_eq!(
        tokens,
        vec![
            Token { kind: TokenKind::LeftBrace, start: 0, end: 1 },
            Token { kind: TokenKind::String, start: 1, end: 4 },
            Token { kind: TokenKind::Colon, start: 4, end: 5 },
            Token { kind: TokenKind::Number, start: 5, end: 6 },
            Token { kind: TokenKind::RightBrace, start: 6, end: 7 },
        ]
    );
}

#[test]
fn step_is_deterministic() {
    let data = chars("{\"a\":1} true null -3.5");
    let states = [
        LexState::Idle,
        LexState::InString { start: 1, pending_escape: false },
        LexState::InString { start: 1, pending_escape: true },
        LexState::InNumber { start: 0, seen_decimal_point: false },
        LexState::InNumber { start: 0, seen_decimal_point: true },
        LexState::InLiteral { start: 8, literal: LiteralKind::True, matched_count: 1 },
        LexState::Failed { error: LexError::UnexpectedCharacter { position: 2 } },
    ];
    for position in 0..data.len() {
        for state in states {
            let first = step(&data, position, state);
            let second = step(&data, position, state);
            assert_eq!(first, second);
        }
    }
}

#[test]
fn empty_input_yields_no_tokens_and_no_error() {
    let data: Vec<char> = Vec::new();
    let tokens = tokenize(&data).unwrap();
    assert!(tokens.is_empty());
}

#[test]
fn unexpected_character_is_reported_at_its_offset() {
    let data = chars("  #");
    assert_eq!(tokenize(&data), Err(LexError::UnexpectedCharacter { position: 2 }));

    // A bare newline inside a string is fatal.
    let data = chars("\"a\nb\"");
    assert_eq!(tokenize(&data), Err(LexError::UnexpectedCharacter { position: 2 }));

    // A mismatch inside a literal word fails at the mismatching character.
    let data = chars("nuxl");
    assert_eq!(tokenize(&data), Err(LexError::UnexpectedCharacter { position: 2 }));
}

#[test]
fn unterminated_tokens_are_reported_at_the_buffer_end() {
    let data = chars("\"abc");
    assert_eq!(tokenize(&data), Err(LexError::UnterminatedToken { position: 4 }));

    let data = chars("fals");
    assert_eq!(tokenize(&data), Err(LexError::UnterminatedToken { position: 4 }));
}

#[test]
fn escaped_backslash_does_not_escape_the_closing_quote() {
    let data = chars("\"a\\\\\" ");
    let tokens = tokenize(&data).unwrap();
    assert_eq!(tokens, vec![Token { kind: TokenKind::String, start: 0, end: 5 }]);
}

#[test]
fn escaped_newline_continues_a_string() {
    // The character after a backslash is never inspected at this layer.
    let data = chars("\"a\\\nb\"");
    let tokens = tokenize(&data).unwrap();
    assert_eq!(tokens, vec![Token { kind: TokenKind::String, start: 0, end: 6 }]);
}

#[test]
fn number_terminated_by_structural_character() {
    // The terminator is re-examined and tokenized on its own.
    let data = chars("-12,");
    let tokens = tokenize(&data).unwrap();
    assert_eq!(
        tokens,
        vec![
            Token { kind: TokenKind::Number, start: 0, end: 3 },
            Token { kind: TokenKind::Comma, start: 3, end: 4 },
        ]
    );
}

#[test]
fn larger_document() {
    let data = chars(" { \"k\" : [ true , false , null , 1.5 ] } ");
    let tokens = tokenize(&data).unwrap();
    let kinds: Vec<TokenKind> = tokens.iter().map(|t| t.kind).collect();
    assert_eq!(
        kinds,
        vec![
            TokenKind::LeftBrace,
            TokenKind::String,
            TokenKind::Colon,
            TokenKind::LeftBracket,
            TokenKind::True,
            TokenKind::Comma,
            TokenKind::False,
            TokenKind::Comma,
            TokenKind::Null,
            TokenKind::Comma,
            TokenKind::Number,
            TokenKind::RightBracket,
            TokenKind::RightBrace,
        ]
    );
    for t in &tokens {
        assert!(t.start < t.end && t.end <= data.len());
    }
}

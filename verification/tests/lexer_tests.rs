use expr_lexer::lexer::Lexer;
use expr_lexer::token::{Token, TokenKind};

fn scan(source: &str) -> Vec<Token> {
    let mut lexer = Lexer::new(source);
    let mut tokens: Vec<Token> = Vec::new();
    while let Some(token) = lexer.next_token() {
        tokens.push(token);
    }
    tokens
}

fn kinds(tokens: &[Token]) -> Vec<TokenKind> {
    tokens.iter().map(|t| t.kind).collect()
}

#[test]
fn empty_source_yields_only_eof() {
    let tokens = scan("");
    assert_eq!(kinds(&tokens), vec![TokenKind::Eof]);
    assert_eq!(tokens[0].span.start, 0);
    assert_eq!(tokens[0].span.end, 0);
    assert_eq!(tokens[0].span.literal, "\u{0000}");
}

#[test]
fn number_plus_number() {
    let tokens = scan("12+3");
    assert_eq!(
        kinds(&tokens),
        vec![
            TokenKind::Number(12),
            TokenKind::Plus,
            TokenKind::Number(3),
            TokenKind::Eof,
        ]
    );
    assert_eq!(tokens[0].span.literal, "12");
    assert_eq!((tokens[0].span.start, tokens[0].span.end), (0, 2));
    assert_eq!(tokens[1].span.literal, "+");
    assert_eq!((tokens[1].span.start, tokens[1].span.end), (2, 3));
    assert_eq!(tokens[2].span.literal, "3");
    assert_eq!((tokens[2].span.start, tokens[2].span.end), (3, 4));
}

#[test]
fn parenthesized_product() {
    let tokens = scan("( 4 * 5 )");
    assert_eq!(
        kinds(&tokens),
        vec![
            TokenKind::LeftParen,
            TokenKind::Whitespace,
            TokenKind::Number(4),
            TokenKind::Whitespace,
            TokenKind::Asterisk,
            TokenKind::Whitespace,
            TokenKind::Number(5),
            TokenKind::Whitespace,
            TokenKind::RightParen,
            TokenKind::Eof,
        ]
    );
}

#[test]
fn unrecognized_character_yields_bad_and_scanning_continues() {
    let tokens = scan("7#8");
    assert_eq!(
        kinds(&tokens),
        vec![
            TokenKind::Number(7),
            TokenKind::Bad,
            TokenKind::Number(8),
            TokenKind::Eof,
        ]
    );
    assert_eq!(tokens[1].span.literal, "#");
    assert_eq!((tokens[1].span.start, tokens[1].span.end), (1, 2));
}

#[test]
fn two_spaces_yield_two_whitespace_tokens() {
    let tokens = scan("  ");
    assert_eq!(
        kinds(&tokens),
        vec![TokenKind::Whitespace, TokenKind::Whitespace, TokenKind::Eof]
    );
}

#[test]
fn whitespace_is_emitted_per_character() {
    let tokens = scan("\t\n \u{00A0}");
    assert_eq!(
        kinds(&tokens),
        vec![
            TokenKind::Whitespace,
            TokenKind::Whitespace,
            TokenKind::Whitespace,
            TokenKind::Whitespace,
            TokenKind::Eof,
        ]
    );
    for (i, token) in tokens[..4].iter().enumerate() {
        assert_eq!(token.span.start, i);
        assert_eq!(token.span.end, i + 1);
        assert_eq!(token.span.length(), 1);
    }
}

#[test]
fn minus_and_slash() {
    let tokens = scan("-/");
    assert_eq!(
        kinds(&tokens),
        vec![TokenKind::Minus, TokenKind::Slash, TokenKind::Eof]
    );
}

#[test]
fn leading_zeros_are_one_maximal_run() {
    let tokens = scan("007");
    assert_eq!(kinds(&tokens), vec![TokenKind::Number(7), TokenKind::Eof]);
    assert_eq!(tokens[0].span.literal, "007");
    assert_eq!((tokens[0].span.start, tokens[0].span.end), (0, 3));
}

#[test]
fn largest_i64_value_is_exact() {
    let tokens = scan("9223372036854775807");
    assert_eq!(
        kinds(&tokens),
        vec![TokenKind::Number(i64::MAX), TokenKind::Eof]
    );
}

#[test]
fn overlong_digit_run_wraps() {
    let tokens = scan("99999999999999999999");
    assert_eq!(
        kinds(&tokens),
        vec![TokenKind::Number(7766279631452241919), TokenKind::Eof]
    );
    assert_eq!(tokens[0].span.literal, "99999999999999999999");
}

#[test]
fn eof_is_emitted_once_then_stream_is_exhausted() {
    let mut lexer = Lexer::new("1");
    assert!(matches!(
        lexer.next_token().map(|t| t.kind),
        Some(TokenKind::Number(1))
    ));
    assert!(matches!(
        lexer.next_token().map(|t| t.kind),
        Some(TokenKind::Eof)
    ));
    for _ in 0..5 {
        assert!(lexer.next_token().is_none());
    }
}

#[test]
fn spans_count_characters_not_bytes() {
    let tokens = scan("\u{00E9}+1");
    assert_eq!(
        kinds(&tokens),
        vec![TokenKind::Bad, TokenKind::Plus, TokenKind::Number(1), TokenKind::Eof]
    );
    assert_eq!(tokens[0].span.literal, "\u{00E9}");
    assert_eq!((tokens[0].span.start, tokens[0].span.end), (0, 1));
    assert_eq!((tokens[1].span.start, tokens[1].span.end), (1, 2));
    assert_eq!((tokens[2].span.start, tokens[2].span.end), (2, 3));
}

#[test]
fn literals_concatenate_back_to_the_source() {
    let source = "12 +(34*5)/ 6 #\u{00E9} 78";
    let tokens = scan(source);
    let mut rebuilt = String::new();
    for token in &tokens {
        if token.kind != TokenKind::Eof {
            rebuilt.push_str(&token.span.literal);
        }
    }
    assert_eq!(rebuilt, source);
}

#[test]
fn text_span_reports_its_fields_and_length() {
    let span = expr_lexer::token::TextSpan::new(3, 7, String::from("abcd"));
    assert_eq!(span.start, 3);
    assert_eq!(span.end, 7);
    assert_eq!(span.literal, "abcd");
    assert_eq!(span.length(), 4);
}

#[test]
fn token_pairs_kind_with_span() {
    let span = expr_lexer::token::TextSpan::new(0, 1, String::from("+"));
    let token = Token::new(TokenKind::Plus, span);
    assert_eq!(token.kind, TokenKind::Plus);
    assert_eq!(token.span.literal, "+");
}

#[test]
fn every_punctuation_mark_gets_its_kind() {
    let tokens = scan("+-*/()");
    assert_eq!(
        kinds(&tokens),
        vec![
            TokenKind::Plus,
            TokenKind::Minus,
            TokenKind::Asterisk,
            TokenKind::Slash,
            TokenKind::LeftParen,
            TokenKind::RightParen,
            TokenKind::Eof,
        ]
    );
}

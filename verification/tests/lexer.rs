use asalang::{lex, Token, TokenKind, Tokens};

fn test_lex(input: &str) -> Vec<TokenKind> {
    lex(input).tokens.iter().map(|t| t.get_kind()).collect::<Vec<TokenKind>>()
}

#[test]
fn lexer_test_01() {
    assert_eq!(
        test_lex("123"),
        vec![TokenKind::Digit, TokenKind::Digit, TokenKind::Digit, TokenKind::EOF]
    );
}

#[test]
fn lexer_test_02() {
    assert_eq!(
        test_lex("abc"),
        vec![TokenKind::Alpha, TokenKind::Alpha, TokenKind::Alpha, TokenKind::EOF]
    );
}

#[test]
fn lexer_test_03() {
    assert_eq!(
        test_lex("hello world"),
        vec![
            TokenKind::Alpha,
            TokenKind::Alpha,
            TokenKind::Alpha,
            TokenKind::Alpha,
            TokenKind::Alpha,
            TokenKind::Alpha,
            TokenKind::Alpha,
            TokenKind::Alpha,
            TokenKind::Alpha,
            TokenKind::Alpha,
            TokenKind::EOF
        ]
    );
}

#[test]
fn lexer_test_04() {
    assert_eq!(test_lex("true"), vec![TokenKind::True, TokenKind::EOF]);
}

#[test]
fn lexer_test_05() {
    assert_eq!(test_lex("false"), vec![TokenKind::False, TokenKind::EOF]);
}

#[test]
fn lexer_test_06() {
    assert_eq!(
        test_lex("let x = 123;"),
        vec![
            TokenKind::Let,
            TokenKind::Alpha,
            TokenKind::Equal,
            TokenKind::Digit,
            TokenKind::Digit,
            TokenKind::Digit,
            TokenKind::Semicolon,
            TokenKind::EOF,
        ]
    );
}

#[test]
fn lexer_test_08() {
    assert_eq!(
        test_lex(r#"fn main() {}"#),
        vec![
            TokenKind::Fn,
            TokenKind::Alpha,
            TokenKind::Alpha,
            TokenKind::Alpha,
            TokenKind::Alpha,
            TokenKind::LeftParen,
            TokenKind::RightParen,
            TokenKind::LeftCurly,
            TokenKind::RightCurly,
            TokenKind::EOF,
        ]
    );
}

#[test]
fn lexer_test_09() {
    assert_eq!(
        test_lex(
            r#"fn foo(a,b,c) {
  let x=a+1;
	let y=bar(c-b);
  return x+y;
}"#
        ),
        vec![
            TokenKind::Fn,
            TokenKind::Alpha,
            TokenKind::Alpha,
            TokenKind::Alpha,
            TokenKind::LeftParen,
            TokenKind::Alpha,
            TokenKind::Comma,
            TokenKind::Alpha,
            TokenKind::Comma,
            TokenKind::Alpha,
            TokenKind::RightParen,
            TokenKind::LeftCurly,
            TokenKind::Let,
            TokenKind::Alpha,
            TokenKind::Equal,
            TokenKind::Alpha,
            TokenKind::Plus,
            TokenKind::Digit,
            TokenKind::Semicolon,
            TokenKind::Let,
            TokenKind::Alpha,
            TokenKind::Equal,
            TokenKind::Alpha,
            TokenKind::Alpha,
            TokenKind::Alpha,
            TokenKind::LeftParen,
            TokenKind::Alpha,
            TokenKind::Dash,
            TokenKind::Alpha,
            TokenKind::RightParen,
            TokenKind::Semicolon,
            TokenKind::Return,
            TokenKind::Alpha,
            TokenKind::Plus,
            TokenKind::Alpha,
            TokenKind::Semicolon,
            TokenKind::RightCurly,
            TokenKind::EOF,
        ]
    );
}

#[test]
fn lexer_compound_operators() {
    assert_eq!(
        test_lex("== != <= >= && || = < > ! & |"),
        vec![
            TokenKind::EqualEqual,
            TokenKind::NotEqual,
            TokenKind::LessThanOrEqual,
            TokenKind::GreaterThanOrEqual,
            TokenKind::LogicalAnd,
            TokenKind::LogicalOr,
            TokenKind::Equal,
            TokenKind::LessThan,
            TokenKind::GreaterThan,
            TokenKind::Not,
            TokenKind::Other,
            TokenKind::Other,
            TokenKind::EOF,
        ]
    );
}

#[test]
fn lexer_keywords_inside_words() {
    assert_eq!(
        test_lex("gift"),
        vec![TokenKind::Alpha, TokenKind::If, TokenKind::Alpha, TokenKind::EOF]
    );
    assert_eq!(
        test_lex("if else while fn break continue let return"),
        vec![
            TokenKind::If,
            TokenKind::Else,
            TokenKind::While,
            TokenKind::Fn,
            TokenKind::Break,
            TokenKind::Continue,
            TokenKind::Let,
            TokenKind::Return,
            TokenKind::EOF,
        ]
    );
}

#[test]
fn lexer_positions_are_exact() {
    let tokens = lex("let x\n= 12;");
    let places: Vec<(u32, u32, u32, u32)> = tokens
        .tokens
        .iter()
        .map(|t| (t.start_line, t.start_col, t.end_line, t.end_col))
        .collect();
    assert_eq!(
        places,
        vec![
            (1, 1, 1, 3),
            (1, 5, 1, 5),
            (2, 1, 2, 1),
            (2, 3, 2, 3),
            (2, 4, 2, 4),
            (2, 5, 2, 5),
            (2, 6, 2, 6),
        ]
    );
    assert_eq!(tokens.tokens[0].lexeme, vec![b'l']);
    assert_eq!(tokens.tokens[6].kind, TokenKind::EOF);
    assert_eq!(tokens.tokens[6].lexeme, Vec::<u8>::new());
}

#[test]
fn lexer_string_literal_keeps_its_text() {
    let tokens = lex("\"Hello, World\" \"");
    assert_eq!(tokens.len(), 3);
    assert_eq!(tokens.tokens[0].kind, TokenKind::StringLiteral);
    assert_eq!(tokens.tokens[0].lexeme, b"Hello, World".to_vec());
    assert_eq!((tokens.tokens[0].start_col, tokens.tokens[0].end_col), (1, 14));
    assert_eq!(tokens.tokens[1].kind, TokenKind::Quote);
    assert_eq!(tokens.tokens[2].kind, TokenKind::EOF);
}

#[test]
fn lexer_empty_input_is_one_end_marker() {
    let tokens = lex("");
    assert_eq!(test_lex(""), vec![TokenKind::EOF]);
    assert_eq!((tokens.tokens[0].start_line, tokens.tokens[0].start_col), (1, 1));
    assert!(tokens.is_done());
    assert!(!tokens.is_empty());
}

#[test]
fn lexer_length_counts_tokens_and_one_end_marker() {
    let tokens = lex("a b\tc\n1 + [2].x");
    assert_eq!(tokens.len(), 11);
    let ends = tokens.tokens.iter().filter(|t| t.kind == TokenKind::EOF).count();
    assert_eq!(ends, 1);
    assert!(tokens.tokens.iter().all(|t| t.kind != TokenKind::WhiteSpace));
    assert_eq!(tokens.tokens.last().map(|t| t.kind), Some(TokenKind::EOF));
}

#[test]
fn token_new_and_kind() {
    let mut t = Token::new();
    assert_eq!(t.get_kind(), TokenKind::Other);
    assert_eq!(t.lexeme, Vec::<u8>::new());
    t.set_kind(TokenKind::Comma);
    assert_eq!(t.get_kind(), TokenKind::Comma);
    assert_eq!(t.clone(), t);
}

#[test]
fn tokens_take_and_split() {
    let tokens = lex("abc");
    assert_eq!(tokens.len(), 4);
    assert_eq!(tokens.input_len(), 4);
    let first = tokens.take(2);
    assert_eq!(first.len(), 2);
    assert_eq!(tokens.take(9).len(), 4);
    let (left, right) = tokens.take_split(1);
    assert_eq!(left.tokens, tokens.tokens[..1].to_vec());
    assert_eq!(right.tokens, tokens.tokens[1..].to_vec());
    let mut built = Tokens::new();
    assert!(built.is_empty());
    assert!(built.is_done());
    built.push(tokens.tokens[0].clone());
    assert_eq!(built, Tokens::from(vec![tokens.tokens[0].clone()]));
    assert!(!built.is_done());
}

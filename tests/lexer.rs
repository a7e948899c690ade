use basic_lexer::error::Error;
use basic_lexer::lexer::{run, Lexer};
use basic_lexer::position::Position;
use basic_lexer::token::{Token, TokenType};

fn kinds_and_values(tokens: &[Token]) -> Vec<(TokenType, Option<String>)> {
    tokens.iter().map(|t| (t.type_, t.value.clone())).collect()
}

fn num(kind: TokenType, text: &str) -> (TokenType, Option<String>) {
    (kind, Some(text.to_string()))
}

fn op(kind: TokenType) -> (TokenType, Option<String>) {
    (kind, None)
}

#[test]
fn whitespace_only_gives_no_tokens() {
    for text in ["", " ", "   ", "\t\n \r", "\u{3000}\u{A0} \u{2028}"] {
        let (tokens, error) = run("ws", text);
        assert!(tokens.is_empty(), "{:?}", text);
        assert!(error.is_none(), "{:?}", text);
    }
}

#[test]
fn integer_is_one_token() {
    let (tokens, error) = run("n", "42");
    assert!(error.is_none());
    assert_eq!(kinds_and_values(&tokens), vec![num(TokenType::INT, "42")]);
}

#[test]
fn float_is_one_token() {
    let (tokens, error) = run("n", "3.14");
    assert!(error.is_none());
    assert_eq!(kinds_and_values(&tokens), vec![num(TokenType::FLOAT, "3.14")]);
}

#[test]
fn trailing_point_stays_in_float() {
    let (tokens, error) = run("n", "5.");
    assert!(error.is_none());
    assert_eq!(kinds_and_values(&tokens), vec![num(TokenType::FLOAT, "5.")]);
}

#[test]
fn each_operator_is_one_token() {
    let cases = [
        ("+", TokenType::PLUS),
        ("-", TokenType::MINUS),
        ("*", TokenType::MUL),
        ("/", TokenType::DIV),
        ("(", TokenType::LPAREN),
        (")", TokenType::RPAREN),
    ];
    for (text, kind) in cases {
        let (tokens, error) = run("op", text);
        assert!(error.is_none());
        assert_eq!(kinds_and_values(&tokens), vec![op(kind)]);
        assert_eq!(tokens[0].pos_start.idx, 0);
        assert_eq!(tokens[0].pos_end.idx, 1);
    }
}

#[test]
fn illegal_character_is_reported() {
    let (tokens, error) = run("bad", "@");
    assert!(tokens.is_empty());
    let error = error.unwrap();
    assert_eq!(error.error_name, "IllegalCharacter");
    assert_eq!(error.details, "'@'");
    assert!(error.details.contains('@'));
    assert_eq!(error.pos_start.idx, 0);
    assert_eq!(error.pos_end.idx, 1);
}

#[test]
fn illegal_character_discards_earlier_tokens() {
    let (tokens, error) = run("bad", "1 + 2 $ 3");
    assert!(tokens.is_empty());
    let error = error.unwrap();
    assert_eq!(error.details, "'$'");
    assert_eq!(error.pos_start.idx, 6);
    assert_eq!(error.pos_end.idx, 7);
    assert_eq!(error.pos_start.col, 6);
}

#[test]
fn leading_point_is_illegal() {
    let (tokens, error) = run("bad", ".5");
    assert!(tokens.is_empty());
    let error = error.unwrap();
    assert_eq!(error.details, "'.'");
    assert_eq!(error.pos_start.idx, 0);
}

#[test]
fn second_point_ends_number_and_is_illegal() {
    let (tokens, error) = run("bad", "1.2.3");
    assert!(tokens.is_empty());
    let error = error.unwrap();
    assert_eq!(error.details, "'.'");
    assert_eq!(error.pos_start.idx, 3);
    assert_eq!(error.pos_end.idx, 4);
}

#[test]
fn first_character_is_not_skipped() {
    let (tokens, error) = run("n", "7");
    assert!(error.is_none());
    assert_eq!(kinds_and_values(&tokens), vec![num(TokenType::INT, "7")]);
    assert_eq!(tokens[0].pos_start.idx, 0);
    assert_eq!(tokens[0].pos_start.col, 0);
}

#[test]
fn spans_are_in_order() {
    let (tokens, error) = run("example", "12+(3.5 * 40)/ 6");
    assert!(error.is_none());
    assert_eq!(tokens.len(), 9);
    for t in &tokens {
        assert!(t.pos_start.idx < t.pos_end.idx);
    }
    for w in tokens.windows(2) {
        assert!(w[0].pos_end.idx <= w[1].pos_start.idx);
    }
    assert_eq!(tokens[0].pos_end.idx, 2);
    assert_eq!(tokens[1].pos_start.idx, 2);
}

#[test]
fn line_and_column_after_line_break() {
    let (tokens, error) = run("lines", "1\n22");
    assert!(error.is_none());
    assert_eq!(
        kinds_and_values(&tokens),
        vec![num(TokenType::INT, "1"), num(TokenType::INT, "22")]
    );
    assert_eq!(tokens[1].pos_start.ln, 1);
    assert_eq!(tokens[1].pos_start.col, 0);
    assert_eq!(tokens[1].pos_start.idx, 2);
    assert_eq!(tokens[1].pos_end.ln, 1);
    assert_eq!(tokens[1].pos_end.col, 2);
    assert_eq!(tokens[1].pos_start.fn_name, "lines");
    assert_eq!(tokens[1].pos_start.ftxt, "1\n22");
}

#[test]
fn end_to_end_expression() {
    let (tokens, error) = run("example", "3.14 + 2 * (6 - 4.5)");
    assert!(error.is_none());
    assert_eq!(
        kinds_and_values(&tokens),
        vec![
            num(TokenType::FLOAT, "3.14"),
            op(TokenType::PLUS),
            num(TokenType::INT, "2"),
            op(TokenType::MUL),
            op(TokenType::LPAREN),
            num(TokenType::INT, "6"),
            op(TokenType::MINUS),
            num(TokenType::FLOAT, "4.5"),
            op(TokenType::RPAREN),
        ]
    );
}

#[test]
fn error_text_names_source_and_line() {
    let (_, error) = run("example", "1 +\n\n 2 # 3");
    let error = error.unwrap();
    assert_eq!(error.pos_start.ln, 2);
    assert_eq!(error.pos_start.col, 3);
    assert_eq!(
        error.as_string(),
        "IllegalCharacter: '#'\nFile example, line 3"
    );
}

#[test]
fn error_text_with_two_digit_line() {
    let text = format!("{}x", "\n".repeat(11));
    let (_, error) = run("deep", &text);
    assert_eq!(
        error.unwrap().as_string(),
        "IllegalCharacter: 'x'\nFile deep, line 12"
    );
}

#[test]
fn error_new_keeps_fields() {
    let start = Position::new(4, 1, 2, "f", "ab\ncd?");
    let end = Position::new(5, 1, 3, "f", "ab\ncd?");
    let error = Error::new(start, end, "IllegalCharacter", "'?'");
    assert_eq!(error.pos_start.idx, 4);
    assert_eq!(error.pos_end.idx, 5);
    assert_eq!(error.as_string(), "IllegalCharacter: '?'\nFile f, line 2");
}

#[test]
fn position_advance_counts_columns_and_lines() {
    let mut p = Position::new(0, 0, 0, "f", "a\nb");
    p.advance(Some('a'));
    assert_eq!((p.idx, p.ln, p.col), (1, 0, 1));
    p.advance(Some('\n'));
    assert_eq!((p.idx, p.ln, p.col), (2, 1, 0));
    p.advance(Some('b'));
    assert_eq!((p.idx, p.ln, p.col), (3, 1, 1));
    p.advance(None);
    assert_eq!((p.idx, p.ln, p.col), (4, 1, 2));
}

#[test]
fn position_copy_is_independent() {
    let mut p = Position::new(3, 1, 0, "src", "12\n4");
    let snapshot = p.copy();
    p.advance(Some('4'));
    assert_eq!((snapshot.idx, snapshot.ln, snapshot.col), (3, 1, 0));
    assert_eq!(snapshot.fn_name, "src");
    assert_eq!(snapshot.ftxt, "12\n4");
    assert_eq!((p.idx, p.ln, p.col), (4, 1, 1));
}

#[test]
fn token_new_keeps_fields() {
    let t = Token::new(
        TokenType::INT,
        Some("9".to_string()),
        Position::new(0, 0, 0, "f", "9"),
        Position::new(1, 0, 1, "f", "9"),
    );
    assert_eq!(t.type_, TokenType::INT);
    assert_eq!(t.value.as_deref(), Some("9"));
    assert_eq!(t.pos_end.idx, 1);
}

#[test]
fn lexer_starts_on_first_character() {
    let lexer = Lexer::new("f", "x1");
    assert_eq!(lexer.current_char, Some('x'));
    assert_eq!(lexer.pos.idx, 0);
    let empty = Lexer::new("f", "");
    assert_eq!(empty.current_char, None);
}

#[test]
fn lexer_advance_and_make_number() {
    let mut lexer = Lexer::new("f", "10.5.+");
    let token = lexer.make_number().unwrap();
    assert_eq!(token.type_, TokenType::FLOAT);
    assert_eq!(token.value.as_deref(), Some("10.5"));
    assert_eq!(lexer.pos.idx, 4);
    assert_eq!(lexer.current_char, Some('.'));
    lexer.advance();
    assert_eq!(lexer.current_char, Some('+'));
    let (tokens, error) = lexer.make_tokens();
    assert!(error.is_none());
    assert_eq!(kinds_and_values(&tokens), vec![op(TokenType::PLUS)]);
}

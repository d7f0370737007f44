use lexer::{interpret, strip_carriage_returns, Regexes, Token, TokenType};

fn tok(kind: TokenType, line: usize, col: usize) -> Token {
    Token::new(kind, line, col)
}

#[test]
pub fn comments() {
    let tokens = interpret(
"
//קומנט
123
//456
",
        &Regexes::default()
    );
    let mut iter = tokens.into_iter();
    assert_eq!(iter.next(), Some(Token::new(TokenType::Integer("123".into()), 3, 1)));
}

#[test]
pub fn numbers() {
    let tokens = interpret("123 456 789", &Regexes::default());
    let mut iter = tokens.into_iter();
    assert_eq!(iter.next(), Some(Token::new(TokenType::Integer("123".into()), 1, 1)));
    assert_eq!(iter.next(), Some(Token::new(TokenType::Integer("456".into()), 1, 5)));
    assert_eq!(iter.next(), Some(Token::new(TokenType::Integer("789".into()), 1, 9)));

    let tokens = interpret("0x123 3.14 0b1010", &Regexes::default());
    let mut iter = tokens.into_iter();
    assert_eq!(iter.next(), Some(Token::new(TokenType::Integer("0x123".into()), 1, 1)));
    assert_eq!(iter.next(), Some(Token::new(TokenType::Decimal("3".into(), "14".into()), 1, 7)));
    assert_eq!(iter.next(), Some(Token::new(TokenType::Integer("0b1010".into()), 1, 12)));
}

#[test]
pub fn strings() {
    let tokens = interpret(
r#"
"שלום, עולם!"
"גרשיים בתוך גרשיים -> \" <- גרשיים בתוך גרשיים!"
"בקסלש -> \\ <- בקסלש"
"#,
        &Regexes::default()
    );

    let mut iter = tokens.into_iter();
    assert_eq!(iter.next(), Some(Token::new(TokenType::String(r#""שלום, עולם!""#.into()), 2, 1)));
    assert_eq!(iter.next(), Some(Token::new(TokenType::String(r#""גרשיים בתוך גרשיים -> \" <- גרשיים בתוך גרשיים!""#.into()), 3, 1)));
    assert_eq!(iter.next(), Some(Token::new(TokenType::String(r#""בקסלש -> \\ <- בקסלש""#.into()), 4, 1)));
}

#[test]
pub fn identifiers() {
    let tokens = interpret(
r#"
שלום, מה שלומך?
"#, &Regexes::default());

    let mut iter = tokens.into_iter();
    assert_eq!(iter.next(), Some(Token::new(TokenType::Identifier("שלום".into()), 2, 1)));
    assert_eq!(iter.next(), Some(Token::new(TokenType::Divider(",".into()), 2, 5)));
    assert_eq!(iter.next(), Some(Token::new(TokenType::Identifier("מה".into()), 2, 7)));
    assert_eq!(iter.next(), Some(Token::new(TokenType::Identifier("שלומך".into()), 2, 10)));
    assert_eq!(iter.next(), Some(Token::new(TokenType::Divider("?".into()), 2, 15)));
}

#[test]
fn decimal_wins_over_integer() {
    let tokens = interpret("12.5", &Regexes::default());
    assert_eq!(tokens, vec![tok(TokenType::Decimal("12".into(), "5".into()), 1, 1)]);
}

#[test]
fn decimal_with_trailing_point() {
    let tokens = interpret("12. 7", &Regexes::default());
    assert_eq!(
        tokens,
        vec![
            tok(TokenType::Decimal("12".into(), "".into()), 1, 1),
            tok(TokenType::Integer("7".into()), 1, 5),
        ]
    );
}

#[test]
fn string_literal_kept_verbatim() {
    let tokens = interpret(r#""a\"b""#, &Regexes::default());
    assert_eq!(tokens, vec![tok(TokenType::String(r#""a\"b""#.into()), 1, 1)]);
}

#[test]
fn unterminated_string_is_a_divider() {
    let tokens = interpret("\"abc", &Regexes::default());
    assert_eq!(
        tokens,
        vec![
            tok(TokenType::Divider("\"".into()), 1, 1),
            tok(TokenType::Identifier("abc".into()), 1, 2),
        ]
    );
}

#[test]
fn comment_counts_one_line() {
    let tokens = interpret("//comment\n123", &Regexes::default());
    assert_eq!(tokens, vec![tok(TokenType::Integer("123".into()), 2, 1)]);
    let tokens = interpret("x //comment", &Regexes::default());
    assert_eq!(tokens, vec![tok(TokenType::Identifier("x".into()), 1, 1)]);
}

#[test]
fn columns_count_characters_not_bytes() {
    let tokens = interpret("é, ü ñ?", &Regexes::default());
    assert_eq!(
        tokens,
        vec![
            tok(TokenType::Identifier("é".into()), 1, 1),
            tok(TokenType::Divider(",".into()), 1, 2),
            tok(TokenType::Identifier("ü".into()), 1, 4),
            tok(TokenType::Identifier("ñ".into()), 1, 6),
            tok(TokenType::Divider("?".into()), 1, 7),
        ]
    );
}

#[test]
fn whitespace_moves_lines_and_columns() {
    let tokens = interpret("a\n\t  b\n\nc", &Regexes::default());
    assert_eq!(
        tokens,
        vec![
            tok(TokenType::Identifier("a".into()), 1, 1),
            tok(TokenType::Identifier("b".into()), 2, 4),
            tok(TokenType::Identifier("c".into()), 4, 1),
        ]
    );
}

#[test]
fn carriage_returns_are_dropped() {
    let tokens = interpret("a\r\nb", &Regexes::default());
    assert_eq!(
        tokens,
        vec![
            tok(TokenType::Identifier("a".into()), 1, 1),
            tok(TokenType::Identifier("b".into()), 2, 1),
        ]
    );
    assert_eq!(strip_carriage_returns("a\r\nb\r"), "a\nb");
    assert_eq!(strip_carriage_returns("שלום"), "שלום");
}

#[test]
fn operators_take_the_longest_form() {
    let tokens = interpret("a+=b&&=c||d==e!f%g", &Regexes::default());
    let kinds: Vec<TokenType> = tokens.into_iter().map(|t| t.token_type).collect();
    assert_eq!(
        kinds,
        vec![
            TokenType::Identifier("a".into()),
            TokenType::Operator("+=".into()),
            TokenType::Identifier("b".into()),
            TokenType::Operator("&&=".into()),
            TokenType::Identifier("c".into()),
            TokenType::Operator("||".into()),
            TokenType::Identifier("d".into()),
            TokenType::Operator("==".into()),
            TokenType::Identifier("e".into()),
            TokenType::Operator("!".into()),
            TokenType::Identifier("f".into()),
            TokenType::Operator("%".into()),
            TokenType::Identifier("g".into()),
        ]
    );
}

#[test]
fn single_equals_and_pipe() {
    let tokens = interpret("= |", &Regexes::default());
    assert_eq!(
        tokens,
        vec![tok(TokenType::Divider("=".into()), 1, 1), tok(TokenType::pipe(), 1, 3)]
    );
}

#[test]
fn char_literals() {
    let tokens = interpret(r"'a' '\n' '\\' ''", &Regexes::default());
    assert_eq!(
        tokens,
        vec![
            tok(TokenType::Char("'a'".into()), 1, 1),
            tok(TokenType::Char(r"'\n'".into()), 1, 5),
            tok(TokenType::Char(r"'\\'".into()), 1, 10),
            tok(TokenType::Divider("'".into()), 1, 15),
            tok(TokenType::Divider("'".into()), 1, 16),
        ]
    );
}

#[test]
fn integer_radixes() {
    let tokens = interpret("0o17 0h1F 0D99 0b2", &Regexes::default());
    assert_eq!(
        tokens,
        vec![
            tok(TokenType::Integer("0o17".into()), 1, 1),
            tok(TokenType::Integer("0h1F".into()), 1, 6),
            tok(TokenType::Integer("0D99".into()), 1, 11),
            tok(TokenType::Integer("0".into()), 1, 16),
            tok(TokenType::Identifier("b2".into()), 1, 17),
        ]
    );
}

#[test]
fn control_character_is_an_identifier() {
    let tokens = interpret("\u{1}+", &Regexes::default());
    assert_eq!(
        tokens,
        vec![
            tok(TokenType::Identifier("\u{1}".into()), 1, 1),
            tok(TokenType::Operator("+".into()), 1, 2),
        ]
    );
}

#[test]
fn empty_and_blank_sources() {
    assert_eq!(interpret("", &Regexes::default()), vec![]);
    assert_eq!(interpret(" \n\t// only a comment", &Regexes::default()), vec![]);
}

#[test]
fn scanning_twice_gives_the_same_tokens() {
    let regexes = Regexes::default();
    let source = "x = 0x1F; // note\ny += 2.5";
    assert_eq!(interpret(source, &regexes), interpret(source, &regexes));
}

#[test]
fn no_token_shows_trivia() {
    let tokens = interpret("a // b\n  c\t\"//\" d", &Regexes::default());
    for t in &tokens {
        let text = t.token_type.text();
        assert!(!text.trim().is_empty());
        if !matches!(t.token_type, TokenType::String(_)) {
            assert!(!text.contains("//"));
        }
    }
    assert_eq!(tokens.len(), 4);
}

#[test]
fn positions_never_go_backwards() {
    let tokens = interpret("a b\n  c // x\nd\n\n e f", &Regexes::default());
    for pair in tokens.windows(2) {
        assert!((pair[0].line, pair[0].col) <= (pair[1].line, pair[1].col));
    }
    assert_eq!(tokens.len(), 6);
}

#[test]
fn decimal_text_joins_parts() {
    assert_eq!(TokenType::Decimal("3".into(), "14".into()).text(), "3.14");
    assert_eq!(TokenType::Identifier("שלום".into()).text(), "שלום");
}

#[test]
fn named_dividers() {
    assert_eq!(TokenType::open_parentheses(), TokenType::Divider("(".into()));
    assert_eq!(TokenType::close_parentheses(), TokenType::Divider(")".into()));
    assert_eq!(TokenType::open_square_brackets(), TokenType::Divider("[".into()));
    assert_eq!(TokenType::close_square_brackets(), TokenType::Divider("]".into()));
    assert_eq!(TokenType::open_brackets(), TokenType::Divider("{".into()));
    assert_eq!(TokenType::close_brackets(), TokenType::Divider("}".into()));
    assert_eq!(TokenType::open_arrow_brackets(), TokenType::Divider("<".into()));
    assert_eq!(TokenType::close_arrow_brackets(), TokenType::Divider(">".into()));
    assert_eq!(TokenType::question_mark(), TokenType::Divider("?".into()));
    assert_eq!(TokenType::pipe(), TokenType::Operator("|".into()));
}

#[test]
fn placeholder_token() {
    assert_eq!(Token::temp(), Token::new(TokenType::Identifier("".into()), 0, 0));
}

use scriptlang::lexer::{LexErrorKind, Lexer};
use scriptlang::token::{keyword_of, keywords, Token, TokenKind};

fn lex(src: &str) -> Vec<Token> {
    Lexer::new(src).parse().unwrap()
}

fn kinds(tokens: &[Token]) -> Vec<TokenKind> {
    tokens.iter().map(|t| t.kind).collect()
}

fn texts(tokens: &[Token]) -> Vec<&str> {
    tokens.iter().map(|t| t.text.as_str()).collect()
}

fn places(tokens: &[Token]) -> Vec<(usize, usize)> {
    tokens.iter().map(|t| (t.ln, t.col)).collect()
}

#[test]
fn cols_linenums() {
    let src = "1 3 5  8\n\r1 3 5  8";
    let mut l = Lexer::new(src);
    let res = l.parse();
    let tokens = res.unwrap();
    assert_eq!(
        places(&tokens),
        vec![(1, 1), (1, 3), (1, 5), (1, 8), (2, 1), (2, 3), (2, 5), (2, 8), (2, 9)]
    );
}

#[test]
fn lexer_test_cols_linenums() {
    let src = "1 3 5  8\n\r1 3 5  8";
    let mut l = Lexer::new(src);
    let res = l.parse();
    let tokens = res.unwrap();
    assert_eq!(texts(&tokens), vec!["1", "3", "5", "8", "1", "3", "5", "8", ""]);
    assert_eq!(tokens.last().unwrap().kind, TokenKind::EOF);
}

#[test]
fn test_easy() {
    let src = " + -     /\n++";
    let mut l = Lexer::new(src);
    let res = l.parse();
    let tokens = res.unwrap();
    assert_eq!(
        kinds(&tokens),
        vec![
            TokenKind::Plus,
            TokenKind::Minus,
            TokenKind::Slash,
            TokenKind::Plus,
            TokenKind::Plus,
            TokenKind::EOF
        ]
    );
}

#[test]
fn lexer_test_test_easy() {
    let src = " + -     /\n++";
    let mut l = Lexer::new(src);
    let res = l.parse();
    let tokens = res.unwrap();
    assert_eq!(places(&tokens), vec![(1, 2), (1, 4), (1, 10), (2, 1), (2, 2), (2, 3)]);
}

#[test]
fn string() {
    let src = r#"bobby boi   "#;
    let mut l = Lexer::new(src);
    let res = l.parse();
    let tokens = res.unwrap();
    assert_eq!(
        kinds(&tokens),
        vec![TokenKind::Identifier, TokenKind::Identifier, TokenKind::EOF]
    );
    assert_eq!(texts(&tokens), vec!["bobby", "boi", ""]);
}

#[test]
fn lexer_test_string() {
    let src = r#"bobby boi   "#;
    let mut l = Lexer::new(src);
    let res = l.parse();
    let tokens = res.unwrap();
    assert_eq!(places(&tokens), vec![(1, 1), (1, 7), (1, 13)]);
}

#[test]
fn numbers() {
    let src = r#"3.0    69 0"#;
    let mut l = Lexer::new(src);
    let res = l.parse();
    let tokens = res.unwrap();
    assert_eq!(
        kinds(&tokens),
        vec![TokenKind::Float, TokenKind::Integer, TokenKind::Integer, TokenKind::EOF]
    );
    assert_eq!(texts(&tokens), vec!["3.0", "69", "0", ""]);
}

#[test]
fn lexer_test_numbers() {
    let src = r#"3.0    69 0"#;
    let mut l = Lexer::new(src);
    let res = l.parse();
    let tokens = res.unwrap();
    assert_eq!(places(&tokens), vec![(1, 1), (1, 8), (1, 11), (1, 12)]);
}

#[test]
fn combined_ops() {
    let src = r#"= == < <= > >= ! !="#;
    let mut l = Lexer::new(src);
    let res = l.parse();
    let tokens = res.unwrap();
    assert_eq!(
        kinds(&tokens),
        vec![
            TokenKind::Assign,
            TokenKind::Equals,
            TokenKind::LessThan,
            TokenKind::LessEquals,
            TokenKind::GreaterThan,
            TokenKind::GreaterEquals,
            TokenKind::Bang,
            TokenKind::NotEquals,
            TokenKind::EOF
        ]
    );
}

#[test]
fn lexer_test_combined_ops() {
    let src = r#"= == < <= > >= ! !="#;
    let mut l = Lexer::new(src);
    let res = l.parse();
    let tokens = res.unwrap();
    assert_eq!(texts(&tokens), vec!["=", "==", "<", "<=", ">", ">=", "!", "!=", ""]);
    assert_eq!(
        places(&tokens),
        vec![(1, 1), (1, 3), (1, 6), (1, 8), (1, 11), (1, 13), (1, 16), (1, 18), (1, 20)]
    );
}

#[test]
fn long() {
    let src = r#"var x  = 10

    fn add(x, y) {
      return x + y
    }
    
    while x < 10 {
      x = add(x, 2)
      while x < 100 {
        x = add(x, 2)
      }
    }
    
    print("here")"#;
    let mut l = Lexer::new(src);
    let res = l.parse();
    let tokens = res.unwrap();
    assert_eq!(tokens.len(), 50);
    assert_eq!(
        kinds(&tokens[..4]),
        vec![TokenKind::Var, TokenKind::Identifier, TokenKind::Assign, TokenKind::Integer]
    );
    assert_eq!(tokens[4].kind, TokenKind::Fn);
    assert_eq!((tokens[4].ln, tokens[4].col), (3, 5));
    let here = &tokens[47];
    assert_eq!(here.kind, TokenKind::String);
    assert_eq!(here.text, "here");
    assert_eq!((here.ln, here.col), (14, 11));
    assert_eq!(tokens[49].kind, TokenKind::EOF);
    assert_eq!((tokens[49].ln, tokens[49].col), (14, 18));
}

#[test]
fn lexing_again_adds_another_end_of_input() {
    let mut l = Lexer::new("a");
    let first = l.parse().unwrap();
    assert_eq!(kinds(&first), vec![TokenKind::Identifier, TokenKind::EOF]);
    let second = l.parse().unwrap();
    assert_eq!(kinds(&second), vec![TokenKind::Identifier, TokenKind::EOF, TokenKind::EOF]);
}

#[test]
fn keywords_and_identifiers() {
    let tokens = lex("var fn while true false return variable _x x_y");
    assert_eq!(
        kinds(&tokens),
        vec![
            TokenKind::Var,
            TokenKind::Fn,
            TokenKind::While,
            TokenKind::True,
            TokenKind::False,
            TokenKind::Return,
            TokenKind::Identifier,
            TokenKind::Identifier,
            TokenKind::Identifier,
            TokenKind::EOF
        ]
    );
    assert_eq!(tokens[6].text, "variable");
    assert_eq!(tokens[7].text, "_x");
    assert_eq!(tokens[8].text, "x_y");
}

#[test]
fn keyword_table() {
    let table = keywords();
    let expected = vec![
        ("var", TokenKind::Var),
        ("fn", TokenKind::Fn),
        ("while", TokenKind::While),
        ("true", TokenKind::True),
        ("false", TokenKind::False),
        ("return", TokenKind::Return),
    ];
    assert_eq!(table.len(), expected.len());
    for (entry, (text, kind)) in table.iter().zip(expected) {
        assert_eq!(entry.0, text);
        assert_eq!(entry.1, kind);
        assert_eq!(keyword_of(&entry.0), Some(kind));
    }
    assert_eq!(keyword_of(&"vars".to_string()), None);
    assert_eq!(keyword_of(&"".to_string()), None);
}

#[test]
fn digits_do_not_continue_an_identifier() {
    let tokens = lex("x1");
    assert_eq!(kinds(&tokens), vec![TokenKind::Identifier, TokenKind::Integer, TokenKind::EOF]);
    assert_eq!(texts(&tokens), vec!["x", "1", ""]);
}

#[test]
fn alphabetic_characters_continue_an_identifier() {
    let tokens = lex("caf\u{e9} x");
    assert_eq!(texts(&tokens), vec!["caf\u{e9}", "x", ""]);
    assert_eq!(places(&tokens), vec![(1, 1), (1, 6), (1, 7)]);
    let err = Lexer::new("a\u{20ac}").parse().unwrap_err();
    assert_eq!(err.kind, LexErrorKind::UnknownSymbol('\u{20ac}'));
    let tokens = lex("\u{e9}t\u{e9}");
    assert_eq!(kinds(&tokens), vec![TokenKind::Identifier, TokenKind::EOF]);
    assert_eq!(tokens[0].text, "\u{e9}t\u{e9}");
}

#[test]
fn punctuation() {
    let tokens = lex("+-*/{}(),;.");
    assert_eq!(
        kinds(&tokens),
        vec![
            TokenKind::Plus,
            TokenKind::Minus,
            TokenKind::Star,
            TokenKind::Slash,
            TokenKind::Lbrace,
            TokenKind::Rbrace,
            TokenKind::Lparen,
            TokenKind::Rparen,
            TokenKind::Comma,
            TokenKind::Semicolon,
            TokenKind::Dot,
            TokenKind::EOF
        ]
    );
}

#[test]
fn number_forms() {
    let tokens = lex("12 3. 4.5.6 .7");
    assert_eq!(
        kinds(&tokens),
        vec![
            TokenKind::Integer,
            TokenKind::Float,
            TokenKind::Float,
            TokenKind::Dot,
            TokenKind::Integer,
            TokenKind::Dot,
            TokenKind::Integer,
            TokenKind::EOF
        ]
    );
    assert_eq!(texts(&tokens), vec!["12", "3.", "4.5", ".", "6", ".", "7", ""]);
}

#[test]
fn string_literals_lose_their_quotes_and_keep_their_columns() {
    let tokens = lex(r#"a "b c" d """#);
    assert_eq!(
        kinds(&tokens),
        vec![
            TokenKind::Identifier,
            TokenKind::String,
            TokenKind::Identifier,
            TokenKind::String,
            TokenKind::EOF
        ]
    );
    assert_eq!(texts(&tokens), vec!["a", "b c", "d", "", ""]);
    assert_eq!(places(&tokens), vec![(1, 1), (1, 3), (1, 9), (1, 11), (1, 13)]);
}

#[test]
fn escaped_quote_does_not_end_a_string() {
    let tokens = lex(r#""a\"b" c"#);
    assert_eq!(texts(&tokens), vec![r#"a\"b"#, "c", ""]);
    assert_eq!(places(&tokens), vec![(1, 1), (1, 8), (1, 9)]);
    let tokens = lex(r#""a\\" c"#);
    assert_eq!(texts(&tokens), vec![r#"a\\"#, "c", ""]);
}

#[test]
fn characters_inside_a_string_count_one_column_each() {
    let tokens = lex("\"a\tb\nc\" d");
    assert_eq!(texts(&tokens), vec!["a\tb\nc", "d", ""]);
    assert_eq!(places(&tokens), vec![(1, 1), (1, 9), (1, 10)]);
}

#[test]
fn unterminated_string() {
    let err = Lexer::new(r#"x "abc"#).parse().unwrap_err();
    assert_eq!(err.kind, LexErrorKind::UnterminatedString("abc".to_string()));
    assert_eq!((err.ln, err.col), (1, 6));
    let err = Lexer::new(r#""a"#).parse().unwrap_err();
    assert_eq!((err.ln, err.col), (1, 2));
    let err = Lexer::new("\"").parse().unwrap_err();
    assert_eq!(err.kind, LexErrorKind::UnterminatedString(String::new()));
    assert_eq!((err.ln, err.col), (1, 2));
    let err = Lexer::new(r#""ab\"#).parse().unwrap_err();
    assert_eq!(err.kind, LexErrorKind::UnterminatedString(r#"ab\"#.to_string()));
}

#[test]
fn unknown_symbol_is_reported_past_the_symbol() {
    let err = Lexer::new("a #").parse().unwrap_err();
    assert_eq!(err.kind, LexErrorKind::UnknownSymbol('#'));
    assert_eq!((err.ln, err.col), (1, 4));
    let err = Lexer::new("a\n\n  @").parse().unwrap_err();
    assert_eq!(err.kind, LexErrorKind::UnknownSymbol('@'));
    assert_eq!((err.ln, err.col), (3, 4));
}

#[test]
fn tab_counts_four_columns() {
    let tokens = lex("\ta\t\tb");
    assert_eq!(places(&tokens), vec![(1, 5), (1, 14), (1, 15)]);
}

#[test]
fn carriage_return_resets_the_column_only() {
    let tokens = lex("ab\rc\r\nd");
    assert_eq!(places(&tokens), vec![(1, 1), (1, 1), (2, 1), (2, 2)]);
}

#[test]
fn empty_source_gives_end_of_input() {
    let tokens = lex("");
    assert_eq!(kinds(&tokens), vec![TokenKind::EOF]);
    assert_eq!(places(&tokens), vec![(1, 1)]);
    assert_eq!(tokens[0].text, "");
}

#[test]
fn token_texts_give_back_the_significant_content() {
    let src = "var x = -10.5;\n\twhile x <= 3 { print(\"a b\", x) }";
    let joined: String = lex(src).iter().map(|t| t.text.as_str()).collect();
    assert_eq!(joined, "varx=-10.5;whilex<=3{print(a b,x)}");
}

use scriptlang::ast::{Expression, Statement};
use scriptlang::grammar::{ParseError, ParseErrorKind, Precedence};
use scriptlang::host::{NumberReply, NumberRequest};
use scriptlang::interpreter::Interpreter;
use scriptlang::lexer::Lexer;
use scriptlang::parser::Parser;
use scriptlang::token::{Token, TokenKind};

fn host(request: NumberRequest) -> NumberReply {
    match request {
        NumberRequest::Parse(text) => match text.parse::<f64>() {
            Ok(v) => NumberReply::Number(v.to_bits()),
            Err(_) => NumberReply::Invalid,
        },
        NumberRequest::Add(a, b) => {
            NumberReply::Number((f64::from_bits(a) + f64::from_bits(b)).to_bits())
        }
        NumberRequest::Subtract(a, b) => {
            NumberReply::Number((f64::from_bits(a) - f64::from_bits(b)).to_bits())
        }
        NumberRequest::Equal(a, b) => NumberReply::Truth(f64::from_bits(a) == f64::from_bits(b)),
        NumberRequest::Less(a, b) => NumberReply::Truth(f64::from_bits(a) < f64::from_bits(b)),
        NumberRequest::Format(a) => NumberReply::Text(f64::from_bits(a).to_string()),
    }
}

fn parse(src: &str) -> Result<Vec<Statement>, ParseError> {
    let toks = Lexer::new(src).parse().unwrap();
    let program = Parser::new(toks).parse()?;
    Ok(program.into_iter().map(|(statement, _)| statement).collect())
}

fn show(e: &Expression) -> String {
    match e {
        Expression::Bool(b) => b.to_string(),
        Expression::Number(text) => text.clone(),
        Expression::Str(text) => format!("{:?}", text),
        Expression::Identifier(name) => name.clone(),
        Expression::Assign(target, value) => format!("({} = {})", show(target), show(value)),
        Expression::Call { name, args } => {
            let args: Vec<String> = args.iter().map(show).collect();
            format!("{}({})", name, args.join(", "))
        }
        Expression::BinOp(left, op, right) => {
            format!("({} {:?} {})", show(left), op, show(right))
        }
    }
}

fn show_statement(s: &Statement) -> String {
    match s {
        Statement::Return(e) => format!("return {}", show(e)),
        Statement::Expression(e) => show(e),
        Statement::FunctionDeclaration { name, params, body } => {
            format!("fn {}({}) {}", name, params.join(", "), show_block(body))
        }
        Statement::VarDeclaration { name, value } => format!("var {} = {}", name, show(value)),
        Statement::While { condition, body } => {
            format!("while {} {}", show(condition), show_block(body))
        }
        Statement::Block(body) => show_block(body),
    }
}

fn show_block(body: &[Statement]) -> String {
    let items: Vec<String> = body.iter().map(show_statement).collect();
    format!("{{ {} }}", items.join("; "))
}

fn shown(src: &str) -> Vec<String> {
    parse(src).unwrap().iter().map(show_statement).collect()
}

#[test]
fn prefix() {
    let src = r"
  var x = -1
  ";

    let toks = Lexer::new(src).parse().unwrap();
    let ast = Parser::new(toks).parse().unwrap();
    assert_eq!(ast.len(), 1);
    match &ast[0].0 {
        Statement::VarDeclaration { name, value } => {
            assert_eq!(name, "x");
            assert!(matches!(value, Expression::Number(text) if text == "-1"));
        }
        other => panic!("unexpected statement {:?}", other),
    }
}

#[test]
fn parser_test_prefix() {
    let src = r"
  var x = -10000
  println(x)
  while x < -5 {
    x = x +1
  }
  println(x)
  ";

    let toks = Lexer::new(src).parse().unwrap();
    let ast = Parser::new(toks).parse().unwrap();
    let mut i = Interpreter::new(ast, host);
    i.run().unwrap();
    assert_eq!(i.stdout, "-10000\n-5\n");
}

#[test]
fn binary_operators_group_by_precedence() {
    assert_eq!(shown("1 + 2 * 3"), vec!["(1 Plus (2 Star 3))"]);
    assert_eq!(shown("1 * 2 + 3"), vec!["((1 Star 2) Plus 3)"]);
    assert_eq!(shown("1 / 2 - 3"), vec!["((1 Slash 2) Minus 3)"]);
    assert_eq!(shown("a == b + 1"), vec!["(a Equals (b Plus 1))"]);
    assert_eq!(shown("a < b == c"), vec!["(a LessThan (b Equals c))"]);
    assert_eq!(shown("a != b >= c"), vec!["((a NotEquals b) GreaterEquals c)"]);
}

#[test]
fn binary_operators_of_one_level_group_to_the_left() {
    assert_eq!(shown("1 - 2 - 3"), vec!["((1 Minus 2) Minus 3)"]);
    assert_eq!(shown("1 - 2 + 3"), vec!["((1 Minus 2) Plus 3)"]);
}

#[test]
fn assignment_groups_to_the_right() {
    assert_eq!(shown("a = b = 1 + 2"), vec!["(a = (b = (1 Plus 2)))"]);
}

#[test]
fn parentheses_group() {
    assert_eq!(shown("(1 + 2) * 3"), vec!["((1 Plus 2) Star 3)"]);
    assert_eq!(shown("((1))"), vec!["1"]);
}

#[test]
fn unclosed_parenthesis_is_an_error() {
    let error = parse("(1 + 2 3").unwrap_err();
    assert_eq!(
        error.kind,
        ParseErrorKind::Expected { expected: TokenKind::Rparen, found: TokenKind::Integer }
    );
    assert_eq!((error.ln, error.col), (1, 8));
}

#[test]
fn calls_take_arguments_with_or_without_commas() {
    assert_eq!(shown("f(1, 2)"), vec!["f(1, 2)"]);
    assert_eq!(shown("f(1 2)"), vec!["f(1, 2)"]);
    assert_eq!(shown("f()"), vec!["f()"]);
    assert_eq!(shown("f(g(1), 2 + 3)"), vec!["f(g(1), (2 Plus 3))"]);
    assert_eq!(shown("1 + f(2)"), vec!["(1 Plus f(2))"]);
}

#[test]
fn call_on_something_else_than_a_name_is_an_error() {
    let error = parse("1(2)").unwrap_err();
    assert_eq!(error.kind, ParseErrorKind::CallOnNonIdentifier);
    let error = parse("f(1)(2)").unwrap_err();
    assert_eq!(error.kind, ParseErrorKind::CallOnNonIdentifier);
}

#[test]
fn semicolon_after_an_expression_is_dropped() {
    assert_eq!(shown("a = 1; b = 2;"), vec!["(a = 1)", "(b = 2)"]);
    assert_eq!(shown(";;a;;"), vec!["a"]);
}

#[test]
fn literals() {
    assert_eq!(shown(r#"1 2.5 "s" true false x"#), vec!["1", "2.5", "\"s\"", "true", "false", "x"]);
    assert_eq!(shown("-2.5"), vec!["-2.5"]);
    assert_eq!(shown("1 -2"), vec!["(1 Minus 2)"]);
}

#[test]
fn minus_before_something_else_than_a_number_is_an_error() {
    let error = parse("var x = -y").unwrap_err();
    assert_eq!(error.kind, ParseErrorKind::ExpectedExpression { found: TokenKind::Minus });
    assert_eq!((error.ln, error.col), (1, 9));
}

#[test]
fn var_declaration() {
    assert_eq!(shown("var x = 1 + 2"), vec!["var x = (1 Plus 2)"]);
    let error = parse("var 1 = 2").unwrap_err();
    assert_eq!(
        error.kind,
        ParseErrorKind::Expected { expected: TokenKind::Identifier, found: TokenKind::Integer }
    );
    assert_eq!((error.ln, error.col), (1, 5));
    let error = parse("var x 2").unwrap_err();
    assert_eq!(
        error.kind,
        ParseErrorKind::Expected { expected: TokenKind::Assign, found: TokenKind::Integer }
    );
}

#[test]
fn function_declaration() {
    assert_eq!(
        shown("fn add(x, y) { return x + y }"),
        vec!["fn add(x, y) { return (x Plus y) }"]
    );
    assert_eq!(shown("fn f() { }"), vec!["fn f() {  }"]);
}

#[test]
fn parameter_list_tolerates_leading_and_trailing_comma() {
    assert_eq!(shown("fn f(, x) { }"), vec!["fn f(x) {  }"]);
    assert_eq!(shown("fn f(x,) { }"), vec!["fn f(x) {  }"]);
    assert_eq!(shown("fn f(x y) { }"), vec!["fn f(x, y) {  }"]);
}

#[test]
fn parameter_list_rejects_other_tokens() {
    let error = parse("fn f(1) { }").unwrap_err();
    assert_eq!(
        error.kind,
        ParseErrorKind::Expected { expected: TokenKind::Identifier, found: TokenKind::Integer }
    );
    let error = parse("fn f(x, 1) { }").unwrap_err();
    assert_eq!(
        error.kind,
        ParseErrorKind::ExpectedNext { expected: TokenKind::Identifier, found: TokenKind::Integer }
    );
    assert_eq!((error.ln, error.col), (1, 7));
    let error = parse("fn f(x").unwrap_err();
    assert_eq!(
        error.kind,
        ParseErrorKind::Expected { expected: TokenKind::Identifier, found: TokenKind::EOF }
    );
}

#[test]
fn while_and_blocks() {
    assert_eq!(
        shown("while x < 10 { x = x + 1 { var y = 1 } }"),
        vec!["while (x LessThan 10) { (x = (x Plus 1)); { var y = 1 } }"]
    );
    let error = parse("while x < 10 x = 1").unwrap_err();
    assert_eq!(
        error.kind,
        ParseErrorKind::Expected { expected: TokenKind::Lbrace, found: TokenKind::Identifier }
    );
}

#[test]
fn unclosed_block_is_an_error() {
    let error = parse("{ a").unwrap_err();
    assert_eq!(error.kind, ParseErrorKind::ExpectedExpression { found: TokenKind::EOF });
}

#[test]
fn return_is_a_statement_of_blocks_only() {
    assert_eq!(shown("{ return 1 }"), vec!["{ return 1 }"]);
    let error = parse("return 1").unwrap_err();
    assert_eq!(error.kind, ParseErrorKind::ExpectedExpression { found: TokenKind::Return });
}

#[test]
fn function_is_a_top_level_statement_only() {
    let error = parse("{ fn f() { } }").unwrap_err();
    assert_eq!(error.kind, ParseErrorKind::ExpectedExpression { found: TokenKind::Fn });
}

#[test]
fn each_statement_is_paired_with_its_first_token() {
    let toks = Lexer::new("var a = 1\n  f(a)").parse().unwrap();
    let program = Parser::new(toks).parse().unwrap();
    assert_eq!(program.len(), 2);
    assert_eq!(program[0].1.kind, TokenKind::Var);
    assert_eq!((program[0].1.ln, program[0].1.col), (1, 1));
    assert_eq!(program[1].1.text, "f");
    assert_eq!((program[1].1.ln, program[1].1.col), (2, 3));
}

#[test]
fn comma_as_the_last_token_of_all_is_past_the_end() {
    let token = |kind: TokenKind, text: &str, col: usize| Token {
        kind,
        text: text.to_string(),
        ln: 2,
        col,
    };
    let tokens = vec![
        token(TokenKind::Fn, "fn", 1),
        token(TokenKind::Identifier, "f", 4),
        token(TokenKind::Lparen, "(", 5),
        token(TokenKind::Comma, ",", 6),
    ];
    let error = Parser::new(tokens).parse().unwrap_err();
    assert_eq!(error.kind, ParseErrorKind::PastEnd);
    assert_eq!((error.ln, error.col), (2, 6));
}

#[test]
fn past_the_last_token_the_end_of_input_is_read() {
    let tokens = vec![Token { kind: TokenKind::Integer, text: "7".to_string(), ln: 3, col: 4 }];
    let program = Parser::new(tokens).parse().unwrap();
    assert_eq!(program.len(), 1);
    assert!(matches!(&program[0].0, Statement::Expression(Expression::Number(t)) if t == "7"));
    let program = Parser::new(Vec::new()).parse().unwrap();
    assert!(program.is_empty());
    let tokens = vec![Token { kind: TokenKind::Plus, text: "+".to_string(), ln: 3, col: 4 }];
    let error = Parser::new(tokens).parse().unwrap_err();
    assert_eq!(error.kind, ParseErrorKind::ExpectedExpression { found: TokenKind::Plus });
    assert_eq!((error.ln, error.col), (3, 4));
    let tokens = vec![Token { kind: TokenKind::Lbrace, text: "{".to_string(), ln: 3, col: 4 }];
    let error = Parser::new(tokens).parse().unwrap_err();
    assert_eq!(error.kind, ParseErrorKind::ExpectedExpression { found: TokenKind::EOF });
    assert_eq!((error.ln, error.col), (3, 4));
}

#[test]
fn precedence_of_tokens() {
    let of = |kind: TokenKind| {
        Precedence::of_token(&Token { kind, text: String::new(), ln: 1, col: 1 })
    };
    assert_eq!(of(TokenKind::Lparen), Precedence::Call);
    assert_eq!(of(TokenKind::Star), Precedence::Product);
    assert_eq!(of(TokenKind::Slash), Precedence::Product);
    assert_eq!(of(TokenKind::Plus), Precedence::Sum);
    assert_eq!(of(TokenKind::Minus), Precedence::Sum);
    assert_eq!(of(TokenKind::Equals), Precedence::Equals);
    assert_eq!(of(TokenKind::NotEquals), Precedence::Equals);
    assert_eq!(of(TokenKind::LessThan), Precedence::LessThanGreaterThan);
    assert_eq!(of(TokenKind::GreaterEquals), Precedence::LessThanGreaterThan);
    assert_eq!(of(TokenKind::Assign), Precedence::Assign);
    assert_eq!(of(TokenKind::Semicolon), Precedence::Statement);
    assert_eq!(of(TokenKind::Identifier), Precedence::Iota);
    let ranks: Vec<u8> = [
        Precedence::Iota,
        Precedence::Statement,
        Precedence::Assign,
        Precedence::LessThanGreaterThan,
        Precedence::Equals,
        Precedence::Sum,
        Precedence::Product,
        Precedence::Call,
    ]
    .iter()
    .map(|p| p.rank())
    .collect();
    assert_eq!(ranks, vec![0, 1, 2, 3, 4, 5, 6, 7]);
}

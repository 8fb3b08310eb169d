use scriptlang::ast::{clone_names, duplicate_expressions, duplicate_statements, Expression, Statement};
use scriptlang::object::{FunctionDef, NativeFunctionCallback, NativeFunctionDef, Object};
use scriptlang::token::{Token, TokenKind};

fn sample() -> Statement {
    Statement::FunctionDeclaration {
        name: "f".to_string(),
        params: vec!["a".to_string(), "b".to_string()],
        body: vec![
            Statement::VarDeclaration {
                name: "x".to_string(),
                value: Expression::BinOp(
                    Box::new(Expression::Identifier("a".to_string())),
                    TokenKind::Plus,
                    Box::new(Expression::Number("1.5".to_string())),
                ),
            },
            Statement::While {
                condition: Expression::Bool(true),
                body: vec![Statement::Block(vec![Statement::Return(Expression::Call {
                    name: "g".to_string(),
                    args: vec![
                        Expression::Str("s".to_string()),
                        Expression::Assign(
                            Box::new(Expression::Identifier("x".to_string())),
                            Box::new(Expression::Bool(false)),
                        ),
                    ],
                })])],
            },
            Statement::Expression(Expression::Identifier("b".to_string())),
        ],
    }
}

#[test]
fn copy_of_a_statement_is_the_statement() {
    let statement = sample();
    let expected = format!("{:?}", statement);
    assert_eq!(format!("{:?}", statement.duplicate()), expected);
    assert_eq!(format!("{:?}", statement.clone()), expected);
    let list = vec![sample(), Statement::Block(Vec::new())];
    assert_eq!(format!("{:?}", duplicate_statements(&list)), format!("{:?}", list));
}

#[test]
fn copy_of_an_expression_is_the_expression() {
    let list = vec![
        Expression::Number("-2".to_string()),
        Expression::Call { name: "f".to_string(), args: vec![Expression::Bool(true)] },
    ];
    assert_eq!(format!("{:?}", duplicate_expressions(&list)), format!("{:?}", list));
    assert_eq!(format!("{:?}", list[1].duplicate()), format!("{:?}", list[1]));
    assert_eq!(format!("{:?}", list[1].clone()), format!("{:?}", list[1]));
    let names = vec!["a".to_string(), "bc".to_string()];
    assert_eq!(clone_names(&names), names);
}

#[test]
fn copy_of_a_value_is_the_value() {
    let values = vec![
        Object::Bool(true),
        Object::Str("text".to_string()),
        Object::Number(42),
        Object::Unit,
        Object::NativeFunction(Box::new(NativeFunctionDef {
            name: "print".to_string(),
            callback: NativeFunctionCallback::Print,
        })),
        Object::Function(Box::new(FunctionDef {
            name: "f".to_string(),
            params: vec!["a".to_string()],
            body: vec![sample()],
        })),
    ];
    for value in &values {
        assert_eq!(format!("{:?}", value.clone()), format!("{:?}", value));
    }
}

#[test]
fn copy_of_a_token_is_the_token() {
    let token = Token { kind: TokenKind::String, text: "a b".to_string(), ln: 3, col: 9 };
    assert_eq!(token.clone(), token);
}

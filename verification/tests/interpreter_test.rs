use scriptlang::host::{NumberReply, NumberRequest};
use scriptlang::interpreter::{
    binary_outcome, literal_outcome, numeric_request_of, render_outcome, run_source, Failure,
    Interpreter, RuntimeError, RuntimeErrorKind,
};
use scriptlang::object::Object;
use scriptlang::token::TokenKind;
use scriptlang::lexer::Lexer;
use scriptlang::parser::Parser;

/// The arithmetic of 64-bit floating-point numbers.
fn host(request: NumberRequest) -> NumberReply {
    match request {
        NumberRequest::Parse(text) => match text.parse::<f64>() {
            Ok(v) => NumberReply::Number(v.to_bits()),
            Err(_) => NumberReply::Invalid,
        },
        NumberRequest::Add(a, b) => {
            NumberReply::Number((f64::from_bits(a) + f64::from_bits(b)).to_bits())
        }
        NumberRequest::Subtract(a, b) => {
            NumberReply::Number((f64::from_bits(a) - f64::from_bits(b)).to_bits())
        }
        NumberRequest::Equal(a, b) => NumberReply::Truth(f64::from_bits(a) == f64::from_bits(b)),
        NumberRequest::Less(a, b) => NumberReply::Truth(f64::from_bits(a) < f64::from_bits(b)),
        NumberRequest::Format(a) => NumberReply::Text(f64::from_bits(a).to_string()),
    }
}

fn run(src: &str) -> (Result<(), RuntimeError>, String) {
    let mut l = Lexer::new(src);
    let mut p = Parser::new(l.parse().unwrap());
    let res = p.parse().unwrap();
    let mut i = Interpreter::new(res, host);
    let result = i.run();
    (result, i.stdout)
}

fn output(src: &str) -> String {
    let (result, stdout) = run(src);
    result.unwrap();
    stdout
}

#[test]
fn function_scope() {
    let src = r#"
    var x = 1
    fn add(x, y) {
      x = x + y
      return x
    }
    var _ = add(x, 1)
    println(x)
  "#;
    let mut l = Lexer::new(src);
    let _toks = l.parse();
    let mut p = Parser::new(l.parse().unwrap());
    let res = p.parse().unwrap();
    let mut i = Interpreter::new(res, host);
    i.run().unwrap();
    assert_eq!(i.stdout, "1\n".to_string())
}

#[test]
fn blocks() {
    let src = r#"
    var x = 5
    {
      var x = 3
      {
        var y = 3
        print(x)
        x = 10
      }
      
    }
    print(x)
  "#;
    let mut l = Lexer::new(src);
    let _toks = l.parse();
    let mut p = Parser::new(l.parse().unwrap());
    let res = p.parse().unwrap();
    let mut i = Interpreter::new(res, host);
    i.run().unwrap();
    assert_eq!(i.stdout, "35".to_string());
}

#[test]
fn interpreter_test_blocks() {
    let src = r#"
    var x = 5
    {
      var x = 3
      {
        var y = 3
        print(x)
        x = 10
      }
      
    }
    print(x)
  "#;
    let mut l = Lexer::new(src);
    let _toks = l.parse();
    let mut p = Parser::new(l.parse().unwrap());
    let res = p.parse().unwrap();
    let mut i = Interpreter::new(res, host);
    i.run().unwrap();
}

#[test]
fn error_tests() {
    let src = r#"
    var x = 10
    println(x)

    fn add(x, y) {
      return x + y
    }

  while x < 10 {
    {
      x = add(x, 2)
    }
  }

  print("here")
  "#;
    let mut l = Lexer::new(src);
    let _toks = l.parse();
    let mut p = Parser::new(l.parse().unwrap());
    let res = p.parse().unwrap();
    let mut i = Interpreter::new(res, host);
    i.run().unwrap();
    assert_eq!(i.stdout, "10\nhere".to_string());
}

#[test]
fn interpreter_test_error_tests() {
    let src = r#"
    var x = 10
    println(x)

    fn add(x, y) {
      return x + y
    }

  while x < 10 {
    {
      x = add(x, 2)
    }
  }

  print("here")
  "#;
    let mut l = Lexer::new(src);
    let _toks = l.parse();
    let mut p = Parser::new(l.parse().unwrap());
    let res = p.parse().unwrap();
    let mut i = Interpreter::new(res, host);
    i.run().unwrap();
}

#[test]
fn interpreter_test_scope() {
    let src = r"
  var x = 1
  while x < 10 {
    x = x + 1
    while x < 4 {
      x = x + 11
    }
  }
  println(x)
";
    let mut l = Lexer::new(src);
    let _toks = l.parse();
    let mut p = Parser::new(l.parse().unwrap());
    let res = p.parse().unwrap();
    let mut i = Interpreter::new(res, host);
    i.run().unwrap();
    assert_eq!(i.stdout, "13\n".to_string())
}

#[test]
fn scope() {
    let src = r#"
    var x = 0
    var i = 0
    while x < 100 {
      x = x + 1
      var c = true
      c = false
      while c == false {
        c = true
        i = i + 1
      }
    }
    println(i)
  "#;
    let mut l = Lexer::new(src);
    let _toks = l.parse();
    let mut p = Parser::new(l.parse().unwrap());
    let res = p.parse().unwrap();
    let mut i = Interpreter::new(res, host);
    i.run().unwrap();
    assert_eq!(i.stdout, "100\n".to_string())
}

#[test]
fn parameter_shadows_outer_variable() {
    let src = "var x = 1; fn add(x, y) { x = x + y; return x } var _ = add(x, 1); println(x)";
    assert_eq!(output(src), "1\n");
}

#[test]
fn nested_block_shadowing_does_not_leak() {
    let src = "var x = 5 { var x = 3 { var y = 3 } } print(x)";
    assert_eq!(output(src), "5");
}

#[test]
fn nested_loops_change_outer_variable() {
    let src = "var x = 1; while x < 10 { x = x + 1; while x < 4 { x = x + 11 } }; println(x)";
    assert_eq!(output(src), "13\n");
}

#[test]
fn undeclared_function_is_an_error() {
    let (result, stdout) = run("foo()");
    let error = result.unwrap_err();
    match error.kind {
        RuntimeErrorKind::UndefinedFunction(name) => assert_eq!(name, "foo"),
        other => panic!("unexpected error {:?}", other),
    }
    assert_eq!((error.ln, error.col), (1, 1));
    assert_eq!(stdout, "");
}

#[test]
fn negative_literal() {
    let src = "var x = -10000; println(x)";
    assert!(output(src).starts_with("-10000\n"));
}

#[test]
fn arithmetic_and_comparison_follow_the_host() {
    assert_eq!(output("print(1 + 2)"), "3");
    assert_eq!(output("print(1.5 - 2)"), "-0.5");
    assert_eq!(output("print(0.1 + 0.2 == 0.3)"), "false");
    assert_eq!(output("print(1 == 1.0)"), "true");
    assert_eq!(output("print(1 < 2)"), "true");
    assert_eq!(output("print(2 < 1)"), "false");
    assert_eq!(output("print(true == true)"), "true");
    assert_eq!(output("print(true == false)"), "false");
}

#[test]
fn println_joins_arguments_and_ends_the_line() {
    assert_eq!(output(r#"println("a", 1, true, "b")"#), "a1trueb\n");
    assert_eq!(output(r#"print("a") print("b")"#), "ab");
}

#[test]
fn variable_declared_in_block_is_invisible_after_it() {
    let (result, stdout) = run("{ var y = 1 print(y) } print(y)");
    match result.unwrap_err().kind {
        RuntimeErrorKind::UndefinedIdentifier(name) => assert_eq!(name, "y"),
        other => panic!("unexpected error {:?}", other),
    }
    assert_eq!(stdout, "1");
}

#[test]
fn variable_declared_in_loop_is_invisible_after_it() {
    let (result, _) = run("var x = 0 while x < 1 { var y = 1 x = x + 1 } print(y)");
    match result.unwrap_err().kind {
        RuntimeErrorKind::UndefinedIdentifier(name) => assert_eq!(name, "y"),
        other => panic!("unexpected error {:?}", other),
    }
}

#[test]
fn assignment_changes_the_nearest_binding() {
    assert_eq!(output("var x = 1 { x = 2 } print(x)"), "2");
    assert_eq!(output("var x = 1 { var x = 5 x = 2 print(x) } print(x)"), "21");
}

#[test]
fn assignment_to_undeclared_name_fails() {
    let (result, _) = run("x = 1");
    match result.unwrap_err().kind {
        RuntimeErrorKind::UndeclaredAssignment(name) => assert_eq!(name, "x"),
        other => panic!("unexpected error {:?}", other),
    }
    let (result, _) = run("{ var x = 1 } x = 2");
    assert!(matches!(result.unwrap_err().kind, RuntimeErrorKind::UndeclaredAssignment(_)));
}

#[test]
fn assignment_to_non_identifier_fails() {
    let (result, _) = run("1 = 2");
    assert!(matches!(result.unwrap_err().kind, RuntimeErrorKind::NotAnIdentifier));
}

#[test]
fn return_inside_loop_ends_the_call() {
    let src = r#"
    fn first(limit) {
      var i = 0
      while i < limit {
        i = i + 1
        while true == true {
          return i
        }
        print("never")
      }
      print("never")
      return 100
    }
    print(first(5))
    "#;
    assert_eq!(output(src), "1");
}

#[test]
fn return_inside_block_ends_the_call() {
    let src = "fn f() { { return 1 } return 2 } var r = f(0)";
    let (result, _) = run(src);
    assert!(matches!(
        result.unwrap_err().kind,
        RuntimeErrorKind::ArityMismatch { args: 1, params: 0 }
    ));
    assert_eq!(output("fn f(a) { { return 1 } return 2 } print(f(0))"), "1");
}

#[test]
fn function_without_return_gives_unit() {
    let (result, _) = run("fn f(a) { a = 1 } print(f(0))");
    assert!(matches!(result.unwrap_err().kind, RuntimeErrorKind::Unprintable));
}

#[test]
fn arity_mismatch_reports_both_counts() {
    let (result, _) = run("fn f(a, b) { return a } f(1)");
    assert!(matches!(
        result.unwrap_err().kind,
        RuntimeErrorKind::ArityMismatch { args: 1, params: 2 }
    ));
}

#[test]
fn native_call_needs_an_argument() {
    let (result, stdout) = run("print()");
    match result.unwrap_err().kind {
        RuntimeErrorKind::NoArguments(name) => assert_eq!(name, "print"),
        other => panic!("unexpected error {:?}", other),
    }
    assert_eq!(stdout, "");
}

#[test]
fn calling_a_value_that_is_no_function_fails() {
    let (result, _) = run("var x = 1 x(2)");
    match result.unwrap_err().kind {
        RuntimeErrorKind::NotAFunction(name) => assert_eq!(name, "x"),
        other => panic!("unexpected error {:?}", other),
    }
}

#[test]
fn undefined_identifier_is_named() {
    let (result, _) = run("var a = 1\nprint(b)");
    let error = result.unwrap_err();
    match error.kind {
        RuntimeErrorKind::UndefinedIdentifier(name) => assert_eq!(name, "b"),
        other => panic!("unexpected error {:?}", other),
    }
    assert_eq!((error.ln, error.col), (2, 1));
}

#[test]
fn unsupported_operation_names_operator_and_operands() {
    let (result, _) = run(r#"var a = 1 + "x""#);
    match result.unwrap_err().kind {
        RuntimeErrorKind::UnsupportedOperation { op, left, right } => {
            assert_eq!(op, scriptlang::token::TokenKind::Plus);
            assert!(matches!(left, scriptlang::object::Object::Number(_)));
            assert!(matches!(right, scriptlang::object::Object::Str(_)));
        }
        other => panic!("unexpected error {:?}", other),
    }
    let (result, _) = run("var a = 2 * 3");
    assert!(matches!(result.unwrap_err().kind, RuntimeErrorKind::UnsupportedOperation { .. }));
}

#[test]
fn loop_condition_must_be_boolean() {
    let (result, _) = run("while 1 { }");
    assert!(matches!(result.unwrap_err().kind, RuntimeErrorKind::NotABoolean));
}

#[test]
fn output_before_an_error_stays() {
    let (result, stdout) = run("print(1) print(nope) print(2)");
    assert!(result.is_err());
    assert_eq!(stdout, "1");
}

#[test]
fn scope_stack_is_back_at_the_global_frame_after_an_error() {
    let mut l = Lexer::new("{ { print(nope) } }");
    let mut p = Parser::new(l.parse().unwrap());
    let mut i = Interpreter::new(p.parse().unwrap(), host);
    assert!(i.run().is_err());
    let name = "print".to_string();
    assert_eq!(i.env.contains(&name), Some(0));
}

#[test]
fn empty_program_runs() {
    assert_eq!(output(""), "");
}

#[test]
fn functions_call_themselves() {
    let src = r#"
    fn sum(n) {
      while n == 0 {
        return 0
      }
      return n + sum(n - 1)
    }
    print(sum(10))
    "#;
    assert_eq!(output(src), "55");
}

#[test]
fn function_body_sees_global_names() {
    assert_eq!(output("var g = 5 fn f(a) { return a + g } print(f(1))"), "6");
    assert_eq!(output("var g = 5 fn f(a) { g = a } var u = f(1) print(g)"), "1");
}

#[test]
fn function_body_sees_the_frames_of_its_caller() {
    assert_eq!(output("fn f(a) { return y } { var y = 3 print(f(0)) }"), "3");
}

#[test]
fn function_is_looked_up_at_the_call() {
    assert_eq!(output("fn f(a) { return 1 } fn f(a) { return 2 } print(f(0))"), "2");
}

#[test]
fn arguments_are_evaluated_before_the_name_is_resolved() {
    let (result, stdout) = run("nope(print(1))");
    assert!(matches!(result.unwrap_err().kind, RuntimeErrorKind::UndefinedFunction(_)));
    assert_eq!(stdout, "1");
    let (result, stdout) = run(r#"var t = 1 nope(t = 2, print("x"))"#);
    assert!(matches!(result.unwrap_err().kind, RuntimeErrorKind::UndefinedFunction(_)));
    assert_eq!(stdout, "x");
}

#[test]
fn operands_are_evaluated_left_first() {
    let src = r#"
    fn say(text, value) {
      print(text)
      return value
    }
    var r = say("l", 1) + say("r", 2)
    print(r)
    "#;
    assert_eq!(output(src), "lr3");
}

#[test]
fn returned_value_at_top_level_is_dropped() {
    assert_eq!(output(r#"{ return 1 print("no") } print("yes")"#), "yes");
    assert_eq!(output(r#"while true == true { return 1 } print("yes")"#), "yes");
}

#[test]
fn assignment_has_no_value() {
    let (result, _) = run("var b = 0 var a = (b = 2) print(b) print(a)");
    assert!(matches!(result.unwrap_err().kind, RuntimeErrorKind::Unprintable));
    assert_eq!(run("var b = 0 var a = (b = 2) print(b) print(a)").1, "2");
}

#[test]
fn strings_do_not_compare() {
    let (result, _) = run(r#"var a = "x" == "x""#);
    assert!(matches!(result.unwrap_err().kind, RuntimeErrorKind::UnsupportedOperation { .. }));
    let (result, _) = run("var a = true + true");
    assert!(matches!(result.unwrap_err().kind, RuntimeErrorKind::UnsupportedOperation { .. }));
    let (result, _) = run("var a = 1 == true");
    assert!(matches!(result.unwrap_err().kind, RuntimeErrorKind::UnsupportedOperation { .. }));
}

#[test]
fn declaration_in_loop_body_lives_through_the_rounds() {
    assert_eq!(output("var i = 0 while i < 3 { var c = i i = i + 1 print(c) }"), "012");
}

#[test]
fn errors_carry_the_position_of_the_top_level_statement() {
    let (result, _) = run("var a = 1\n  {\n    {\n      print(nope)\n    }\n  }");
    let error = result.unwrap_err();
    assert_eq!((error.ln, error.col), (2, 3));
}

#[test]
fn run_continues_after_the_statement_that_failed() {
    let mut l = Lexer::new("print(1) print(nope) print(2)");
    let mut p = Parser::new(l.parse().unwrap());
    let mut i = Interpreter::new(p.parse().unwrap(), host);
    assert!(i.run().is_err());
    assert_eq!(i.stdout, "1");
    assert!(i.run().is_ok());
    assert_eq!(i.stdout, "12");
    assert!(i.run().is_ok());
    assert_eq!(i.stdout, "12");
}

#[test]
fn bounded_run_ends_endless_loop() {
    let mut l = Lexer::new(r#"print("a") while true == true { } print("b")"#);
    let mut p = Parser::new(l.parse().unwrap());
    let mut i = Interpreter::new(p.parse().unwrap(), host);
    let error = i.run_bounded(1000).unwrap_err();
    assert!(matches!(error.kind, RuntimeErrorKind::Exhausted));
    assert_eq!((error.ln, error.col), (1, 12));
    assert_eq!(i.stdout, "a");
    assert_eq!(i.env.contains(&"print".to_string()), Some(0));
}

#[test]
fn bounded_run_ends_endless_recursion() {
    let mut l = Lexer::new("fn f(a) { return f(a) } f(1)");
    let mut p = Parser::new(l.parse().unwrap());
    let mut i = Interpreter::new(p.parse().unwrap(), host);
    let error = i.run_bounded(200).unwrap_err();
    assert!(matches!(error.kind, RuntimeErrorKind::Exhausted));
}

#[test]
fn bounded_run_with_enough_fuel_is_the_run() {
    let src = "var x = 1; while x < 10 { x = x + 1; while x < 4 { x = x + 11 } }; println(x)";
    let mut l = Lexer::new(src);
    let mut p = Parser::new(l.parse().unwrap());
    let mut i = Interpreter::new(p.parse().unwrap(), host);
    i.run_bounded(20).unwrap();
    assert_eq!(i.stdout, "13\n");
    let mut l = Lexer::new("print(1 + 2)");
    let mut p = Parser::new(l.parse().unwrap());
    let mut i = Interpreter::new(p.parse().unwrap(), host);
    assert!(matches!(i.run_bounded(3).unwrap_err().kind, RuntimeErrorKind::Exhausted));
    let mut l = Lexer::new("print(1 + 2)");
    let mut p = Parser::new(l.parse().unwrap());
    let mut i = Interpreter::new(p.parse().unwrap(), host);
    i.run_bounded(4).unwrap();
    assert_eq!(i.stdout, "3");
}

#[test]
fn literal_that_is_no_number_fails() {
    let tokens = vec![scriptlang::token::Token {
        kind: TokenKind::Integer,
        text: "1x".to_string(),
        ln: 4,
        col: 2,
    }];
    let mut p = Parser::new(tokens);
    let mut i = Interpreter::new(p.parse().unwrap(), host);
    let error = i.run().unwrap_err();
    match error.kind {
        RuntimeErrorKind::InvalidNumber(text) => assert_eq!(text, "1x"),
        other => panic!("unexpected error {:?}", other),
    }
    assert_eq!((error.ln, error.col), (4, 2));
}

/// A host that answers every question with a text.
fn confused_host(_request: NumberRequest) -> NumberReply {
    NumberReply::Text("?".to_string())
}

/// A host that answers every question with a number.
fn numbering_host(_request: NumberRequest) -> NumberReply {
    NumberReply::Number(0)
}

#[test]
fn answer_that_does_not_fit_the_question_fails() {
    let run_with = |src: &str, confused: bool| {
        let mut l = Lexer::new(src);
        let mut p = Parser::new(l.parse().unwrap());
        let program = p.parse().unwrap();
        if confused {
            Interpreter::new(program, confused_host).run()
        } else {
            Interpreter::new(program, numbering_host).run()
        }
    };
    assert!(matches!(run_with("var a = 1", true).unwrap_err().kind, RuntimeErrorKind::BadReply));
    assert!(run_with("var a = 1", false).is_ok());
    assert!(run_with("var a = 1 + 2", false).is_ok());
    assert!(matches!(
        run_with("var a = 1 < 2", false).unwrap_err().kind,
        RuntimeErrorKind::BadReply
    ));
    assert!(matches!(
        run_with("var a = 1 == 2", false).unwrap_err().kind,
        RuntimeErrorKind::BadReply
    ));
    assert!(matches!(run_with("print(1)", false).unwrap_err().kind, RuntimeErrorKind::BadReply));
}

#[test]
fn numeric_requests() {
    assert!(matches!(numeric_request_of(TokenKind::Plus, 1, 2), Some(NumberRequest::Add(1, 2))));
    assert!(matches!(
        numeric_request_of(TokenKind::Minus, 1, 2),
        Some(NumberRequest::Subtract(1, 2))
    ));
    assert!(matches!(
        numeric_request_of(TokenKind::Equals, 1, 2),
        Some(NumberRequest::Equal(1, 2))
    ));
    assert!(matches!(
        numeric_request_of(TokenKind::LessThan, 1, 2),
        Some(NumberRequest::Less(1, 2))
    ));
    assert!(numeric_request_of(TokenKind::Star, 1, 2).is_none());
    assert!(numeric_request_of(TokenKind::GreaterThan, 1, 2).is_none());
}

#[test]
fn binary_outcomes() {
    let sum = binary_outcome(
        Object::Number(1),
        TokenKind::Plus,
        Object::Number(2),
        Some(NumberReply::Number(7)),
    );
    assert!(matches!(sum, Ok(Object::Number(7))));
    let less = binary_outcome(
        Object::Number(1),
        TokenKind::LessThan,
        Object::Number(2),
        Some(NumberReply::Truth(true)),
    );
    assert!(matches!(less, Ok(Object::Bool(true))));
    let bad = binary_outcome(
        Object::Number(1),
        TokenKind::Plus,
        Object::Number(2),
        Some(NumberReply::Truth(true)),
    );
    assert!(matches!(bad, Err(RuntimeErrorKind::BadReply)));
    let same = binary_outcome(Object::Bool(true), TokenKind::Equals, Object::Bool(true), None);
    assert!(matches!(same, Ok(Object::Bool(true))));
    let differ = binary_outcome(Object::Bool(true), TokenKind::Equals, Object::Bool(false), None);
    assert!(matches!(differ, Ok(Object::Bool(false))));
    let unsupported = binary_outcome(Object::Number(1), TokenKind::Star, Object::Number(2), None);
    assert!(matches!(
        unsupported,
        Err(RuntimeErrorKind::UnsupportedOperation { op: TokenKind::Star, .. })
    ));
    let mixed = binary_outcome(Object::Bool(true), TokenKind::Equals, Object::Number(2), None);
    assert!(matches!(mixed, Err(RuntimeErrorKind::UnsupportedOperation { .. })));
}

#[test]
fn literal_and_render_outcomes() {
    let text = "12".to_string();
    assert!(matches!(literal_outcome(&text, NumberReply::Number(9)), Ok(Object::Number(9))));
    assert!(matches!(
        literal_outcome(&text, NumberReply::Invalid),
        Err(RuntimeErrorKind::InvalidNumber(t)) if t == "12"
    ));
    assert!(matches!(
        literal_outcome(&text, NumberReply::Truth(true)),
        Err(RuntimeErrorKind::BadReply)
    ));
    assert_eq!(render_outcome(&Object::Bool(true), None).unwrap(), "true");
    assert_eq!(render_outcome(&Object::Bool(false), None).unwrap(), "false");
    assert_eq!(render_outcome(&Object::Str("s".to_string()), None).unwrap(), "s");
    assert_eq!(
        render_outcome(&Object::Number(1), Some(NumberReply::Text("one".to_string()))).unwrap(),
        "one"
    );
    assert!(matches!(
        render_outcome(&Object::Number(1), Some(NumberReply::Number(1))),
        Err(RuntimeErrorKind::BadReply)
    ));
    assert!(matches!(render_outcome(&Object::Unit, None), Err(RuntimeErrorKind::Unprintable)));
}

#[test]
fn source_runs_from_text_to_output() {
    let (result, stdout) = run_source("var x = 2 println(x + 1)", host);
    assert!(result.is_ok());
    assert_eq!(stdout, "3\n");
    let (result, stdout) = run_source("var x = #", host);
    assert!(matches!(result, Err(Failure::Lex(_))));
    assert_eq!(stdout, "");
    let (result, stdout) = run_source("print(1) var = 2", host);
    assert!(matches!(result, Err(Failure::Parse(_))));
    assert_eq!(stdout, "");
    let (result, stdout) = run_source("print(1) print(y)", host);
    assert!(matches!(result, Err(Failure::Runtime(_))));
    assert_eq!(stdout, "1");
}

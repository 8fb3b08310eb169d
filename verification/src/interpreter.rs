//! The interpreter: walks a program, evaluating statements for effect and
//! expressions for value.

use vstd::prelude::*;
use vstd::string::StringExecFns;
use crate::ast::{
    Expression, Program, Statement, StatementView, clone_names, duplicate_statements,
    expressions_view, lemma_expressions_view, lemma_statements_view, names_view, program_view,
    statements_view,
};
use crate::context::Context;
use crate::host::{
    Arithmetic, NumberReply, NumberReplyView, NumberRequest, arithmetic_of, ask, is_arithmetic,
};
use crate::object::{FunctionDef, NativeFunctionCallback, Object, ObjectView, objects_view};
use crate::semantics::{
    Flow, Machine, RuntimeErrorKindView, RuntimeErrorView, bind_parameters, binary, binary_result,
    call, call_native, eval_arguments, eval_expression, exec_statement, exec_statements,
    exec_while, initial_machine, literal_result, numeric_request, render_all, render_result,
    run_end, run_from,
};
use crate::grammar::{ParseError, program};
use crate::lexemes::{LexErrorView, lex, origin, scan};
use crate::lexer::{LexError, Lexer};
use crate::parser::Parser;
use crate::stdlib::get_lib;
use crate::token::{Token, TokenKind, TokenView};

verus! {

/// Why a run failed.
#[derive(Debug)]
pub enum RuntimeErrorKind {
    /// An identifier that no frame binds.
    UndefinedIdentifier(String),
    /// A binary operation that the two values do not support.
    UnsupportedOperation { op: TokenKind, left: Object, right: Object },
    /// A call of a native function without arguments.
    NoArguments(String),
    /// A call with another number of arguments than the function has
    /// parameters.
    ArityMismatch { args: usize, params: usize },
    /// A call of a name that is bound to something else than a function.
    NotAFunction(String),
    /// A call of a name that no frame binds.
    UndefinedFunction(String),
    /// A loop condition whose value is not a boolean.
    NotABoolean,
    /// An assignment to a name that was never declared.
    UndeclaredAssignment(String),
    /// An assignment to something else than an identifier.
    NotAnIdentifier,
    /// A numeric literal that denotes no number.
    InvalidNumber(String),
    /// An answer of the host arithmetic that does not fit the question.
    BadReply,
    /// A value without a string form was printed.
    Unprintable,
    /// Calls, blocks or expressions nest too deeply, or a loop runs too long.
    Exhausted,
}

/// A failure of a run, with the line and column of the top-level statement
/// that it occurred in.
#[derive(Debug)]
pub struct RuntimeError {
    pub kind: RuntimeErrorKind,
    pub ln: usize,
    pub col: usize,
}

impl View for RuntimeErrorKind {
    type V = RuntimeErrorKindView;

    open spec fn view(&self) -> RuntimeErrorKindView {
        match self {
            RuntimeErrorKind::UndefinedIdentifier(name) => RuntimeErrorKindView::UndefinedIdentifier(
                name@,
            ),
            RuntimeErrorKind::UnsupportedOperation {
                op,
                left,
                right,
            } => RuntimeErrorKindView::UnsupportedOperation { op: *op, left: left@, right: right@ },
            RuntimeErrorKind::NoArguments(name) => RuntimeErrorKindView::NoArguments(name@),
            RuntimeErrorKind::ArityMismatch { args, params } => RuntimeErrorKindView::ArityMismatch {
                args: *args as nat,
                params: *params as nat,
            },
            RuntimeErrorKind::NotAFunction(name) => RuntimeErrorKindView::NotAFunction(name@),
            RuntimeErrorKind::UndefinedFunction(name) => RuntimeErrorKindView::UndefinedFunction(
                name@,
            ),
            RuntimeErrorKind::NotABoolean => RuntimeErrorKindView::NotABoolean,
            RuntimeErrorKind::UndeclaredAssignment(
                name,
            ) => RuntimeErrorKindView::UndeclaredAssignment(name@),
            RuntimeErrorKind::NotAnIdentifier => RuntimeErrorKindView::NotAnIdentifier,
            RuntimeErrorKind::InvalidNumber(text) => RuntimeErrorKindView::InvalidNumber(text@),
            RuntimeErrorKind::BadReply => RuntimeErrorKindView::BadReply,
            RuntimeErrorKind::Unprintable => RuntimeErrorKindView::Unprintable,
            RuntimeErrorKind::Exhausted => RuntimeErrorKindView::Exhausted,
        }
    }
}

impl View for RuntimeError {
    type V = RuntimeErrorView;

    open spec fn view(&self) -> RuntimeErrorView {
        RuntimeErrorView { kind: self.kind@, ln: self.ln as int, col: self.col as int }
    }
}

/// The view of a host reply that may be absent.
pub open spec fn reply_view(reply: Option<NumberReply>) -> Option<NumberReplyView> {
    match reply {
        Some(reply) => Some(reply@),
        None => None,
    }
}

/// The view of an evaluation's result, before it has a position.
pub open spec fn outcome_view(result: Result<Object, RuntimeErrorKind>) -> Result<
    ObjectView,
    RuntimeErrorKindView,
> {
    match result {
        Ok(value) => Ok(value@),
        Err(kind) => Err(kind@),
    }
}

/// The view of a rendering's result.
pub open spec fn text_view(result: Result<String, RuntimeErrorKind>) -> Result<
    Seq<char>,
    RuntimeErrorKindView,
> {
    match result {
        Ok(text) => Ok(text@),
        Err(kind) => Err(kind@),
    }
}

/// The view of an evaluation's result.
pub open spec fn value_view(result: Result<Object, RuntimeError>) -> Result<
    ObjectView,
    RuntimeErrorKindView,
> {
    match result {
        Ok(value) => Ok(value@),
        Err(error) => Err(error.kind@),
    }
}

/// The view of the result of evaluating a list of arguments.
pub open spec fn values_view(result: Result<Vec<Object>, RuntimeError>) -> Result<
    Seq<ObjectView>,
    RuntimeErrorKindView,
> {
    match result {
        Ok(values) => Ok(objects_view(values@)),
        Err(error) => Err(error.kind@),
    }
}

/// The view of a statement's result.
pub open spec fn flow_view(result: Result<Option<Object>, RuntimeError>) -> Flow {
    match result {
        Ok(None) => Flow::Normal,
        Ok(Some(value)) => Flow::Returned(value@),
        Err(error) => Flow::Failed(error.kind@),
    }
}

/// The view of a run's result.
pub open spec fn run_view(result: Result<(), RuntimeError>) -> Result<(), RuntimeErrorView> {
    match result {
        Ok(()) => Ok(()),
        Err(error) => Err(error@),
    }
}

/// The question that a binary operation on two numbers puts to the host.
pub fn numeric_request_of(op: TokenKind, left: u64, right: u64) -> (request: Option<NumberRequest>)
    ensures
        match request {
            Some(request) => numeric_request(op, left, right) == Some(request@),
            None => numeric_request(op, left, right) is None,
        },
{
    match op {
        TokenKind::Plus => Some(NumberRequest::Add(left, right)),
        TokenKind::Minus => Some(NumberRequest::Subtract(left, right)),
        TokenKind::Equals => Some(NumberRequest::Equal(left, right)),
        TokenKind::LessThan => Some(NumberRequest::Less(left, right)),
        _ => None,
    }
}

/// The value of the numeric literal `text`, given the host's reply to it.
pub fn literal_outcome(text: &String, reply: NumberReply) -> (result: Result<
    Object,
    RuntimeErrorKind,
>)
    ensures
        outcome_view(result) == literal_result(text@, reply@),
{
    match reply {
        NumberReply::Number(bits) => Ok(Object::Number(bits)),
        NumberReply::Invalid => Err(RuntimeErrorKind::InvalidNumber(text.clone())),
        _ => Err(RuntimeErrorKind::BadReply),
    }
}

/// The value of a binary operation, given the host's reply where both
/// operands are numbers and the operator is one that numbers support.
pub fn binary_outcome(left: Object, op: TokenKind, right: Object, reply: Option<NumberReply>) -> (result:
    Result<Object, RuntimeErrorKind>)
    ensures
        outcome_view(result) == binary_result(left@, op, right@, reply_view(reply)),
{
    let numbers = match (&left, &right) {
        (Object::Number(_), Object::Number(_)) => true,
        _ => false,
    };
    if numbers {
        match (op, reply) {
            (TokenKind::Plus, Some(NumberReply::Number(bits))) => Ok(Object::Number(bits)),
            (TokenKind::Plus, Some(_)) => Err(RuntimeErrorKind::BadReply),
            (TokenKind::Minus, Some(NumberReply::Number(bits))) => Ok(Object::Number(bits)),
            (TokenKind::Minus, Some(_)) => Err(RuntimeErrorKind::BadReply),
            (TokenKind::Equals, Some(NumberReply::Truth(b))) => Ok(Object::Bool(b)),
            (TokenKind::Equals, Some(_)) => Err(RuntimeErrorKind::BadReply),
            (TokenKind::LessThan, Some(NumberReply::Truth(b))) => Ok(Object::Bool(b)),
            (TokenKind::LessThan, Some(_)) => Err(RuntimeErrorKind::BadReply),
            _ => Err(RuntimeErrorKind::UnsupportedOperation { op: op, left: left, right: right }),
        }
    } else {
        let truths = match (&left, &right) {
            (Object::Bool(l), Object::Bool(r)) => Some(*l == *r),
            _ => None,
        };
        match (op, truths) {
            (TokenKind::Equals, Some(same)) => Ok(Object::Bool(same)),
            _ => Err(RuntimeErrorKind::UnsupportedOperation { op: op, left: left, right: right }),
        }
    }
}

/// The string form of a value, given the host's reply where the value is a
/// number.
pub fn render_outcome(value: &Object, reply: Option<NumberReply>) -> (result: Result<
    String,
    RuntimeErrorKind,
>)
    ensures
        text_view(result) == render_result(value@, reply_view(reply)),
{
    match value {
        Object::Bool(b) => {
            if *b {
                Ok(String::from_str("true"))
            } else {
                Ok(String::from_str("false"))
            }
        },
        Object::Str(text) => Ok(text.clone()),
        Object::Number(_) => match reply {
            Some(NumberReply::Text(text)) => Ok(text),
            _ => Err(RuntimeErrorKind::BadReply),
        },
        _ => Err(RuntimeErrorKind::Unprintable),
    }
}

/// The fuel of `run`: the bound on how deeply calls, blocks and expressions
/// may nest in a top-level statement, and on how often a loop may run.
pub const FUEL: u64 = 0xffff_ffff_ffff_ffff;

/// An interpreter for one program, with the host arithmetic that it
/// computes numbers by.
pub struct Interpreter<H: Fn(NumberRequest) -> NumberReply> {
    curtok: Token,
    ast: Program,
    next: usize,
    pub env: Context,
    pub stdout: String,
    host: H,
}

impl<H: Fn(NumberRequest) -> NumberReply> Interpreter<H> {
    /// The arithmetic of the host.
    pub closed spec fn arithmetic(&self) -> Arithmetic {
        arithmetic_of(self.host)
    }

    /// The scope stack and the output.
    pub closed spec fn machine(&self) -> Machine {
        Machine { frames: self.env@, stdout: self.stdout@ }
    }

    /// The program.
    pub closed spec fn program(&self) -> Seq<(StatementView, TokenView)> {
        program_view(self.ast@)
    }

    /// The index of the next top-level statement to run.
    pub closed spec fn position(&self) -> nat {
        self.next as nat
    }

    /// The scope stack is well formed and the host is an arithmetic.
    pub closed spec fn wf(&self) -> bool {
        &&& self.env.wf()
        &&& is_arithmetic(self.host)
        &&& self.next <= self.ast.len()
    }

    /// Nothing but the scope stack and the output differs from `before`.
    spec fn continues(&self, before: &Self) -> bool {
        &&& self.host == before.host
        &&& self.ast == before.ast
        &&& self.next == before.next
        &&& self.curtok == before.curtok
    }

    /// The position that errors are reported at.
    spec fn reports_at(&self, error: RuntimeError) -> bool {
        error.ln == self.curtok.ln && error.col == self.curtok.col
    }

    /// An interpreter for `ast`, whose global frame holds the native
    /// functions.
    pub fn new(ast: Program, host: H) -> (interpreter: Self)
        requires
            is_arithmetic(host),
        ensures
            interpreter.wf(),
            interpreter.arithmetic() == arithmetic_of(host),
            interpreter.program() == program_view(ast@),
            interpreter.position() == 0,
            interpreter.machine() == initial_machine(),
    {
        let curtok = if ast.len() > 0 {
            ast[0].1.clone()
        } else {
            Token { kind: TokenKind::EOF, text: String::new(), ln: 1, col: 1 }
        };
        Interpreter {
            curtok: curtok,
            ast: ast,
            next: 0,
            env: Context::from(get_lib()),
            stdout: String::new(),
            host: host,
        }
    }

    /// Runs the top-level statements that have not run yet, in order, up to
    /// the first that fails.
    pub fn run(&mut self) -> (result: Result<(), RuntimeError>)
        requires
            old(self).wf(),
        ensures
            final(self).wf(),
            final(self).arithmetic() == old(self).arithmetic(),
            final(self).program() == old(self).program(),
            final(self).machine().frames.len() == old(self).machine().frames.len(),
            (run_view(result), final(self).machine()) == run_from(
                old(self).arithmetic(),
                old(self).program(),
                old(self).position(),
                old(self).machine(),
                FUEL as nat,
            ),
            final(self).position() == run_end(
                old(self).arithmetic(),
                old(self).program(),
                old(self).position(),
                old(self).machine(),
                FUEL as nat,
            ),
    {
        self.run_bounded(FUEL)
    }

    /// Runs as `run` does, with `fuel` as the bound on each top-level
    /// statement: on how deeply its calls, blocks and expressions nest, and on
    /// how often each of its loops runs.
    pub fn run_bounded(&mut self, fuel: u64) -> (result: Result<(), RuntimeError>)
        requires
            old(self).wf(),
        ensures
            final(self).wf(),
            final(self).arithmetic() == old(self).arithmetic(),
            final(self).program() == old(self).program(),
            final(self).machine().frames.len() == old(self).machine().frames.len(),
            (run_view(result), final(self).machine()) == run_from(
                old(self).arithmetic(),
                old(self).program(),
                old(self).position(),
                old(self).machine(),
                fuel as nat,
            ),
            final(self).position() == run_end(
                old(self).arithmetic(),
                old(self).program(),
                old(self).position(),
                old(self).machine(),
                fuel as nat,
            ),
    {
        let ghost end = run_end(
            old(self).arithmetic(),
            old(self).program(),
            old(self).position(),
            old(self).machine(),
            fuel as nat,
        );
        let ghost goal = run_from(
            old(self).arithmetic(),
            old(self).program(),
            old(self).position(),
            old(self).machine(),
            fuel as nat,
        );
        while self.next < self.ast.len()
            invariant
                self.wf(),
                self.host == old(self).host,
                self.ast == old(self).ast,
                self.env@.len() == old(self).env@.len(),
                goal == run_from(
                    old(self).arithmetic(),
                    old(self).program(),
                    old(self).position(),
                    old(self).machine(),
                    fuel as nat,
                ),
                run_from(
                    self.arithmetic(),
                    self.program(),
                    self.next as nat,
                    self.machine(),
                    fuel as nat,
                ) == goal,
                end == run_end(
                    old(self).arithmetic(),
                    old(self).program(),
                    old(self).position(),
                    old(self).machine(),
                    fuel as nat,
                ),
                run_end(
                    self.arithmetic(),
                    self.program(),
                    self.next as nat,
                    self.machine(),
                    fuel as nat,
                ) == end,
            decreases self.ast.len() - self.next,
        {
            let matching_token = self.ast[self.next].1.clone();
            let statement = self.ast[self.next].0.duplicate();
            self.next += 1;
            self.curtok = matching_token;
            match self.run_statement(&statement, fuel) {
                Ok(_) => {},
                Err(error) => {
                    return Err(error);
                },
            }
        }
        Ok(())
    }

    /// Runs the statements of a body in order, up to the first that returns
    /// or fails.
    fn run_statements(&mut self, statements: &Vec<Statement>, fuel: u64) -> (result: Result<
        Option<Object>,
        RuntimeError,
    >)
        requires
            old(self).wf(),
        ensures
            final(self).wf(),
            final(self).continues(old(self)),
            final(self).env@.len() == old(self).env@.len(),
            (flow_view(result), final(self).machine()) == exec_statements(
                old(self).arithmetic(),
                statements_view(statements@),
                0,
                old(self).machine(),
                fuel as nat,
            ),
            result matches Err(error) ==> old(self).reports_at(error),
        decreases fuel, 1nat,
    {
        let ghost a = self.arithmetic();
        let ghost body = statements_view(statements@);
        let ghost goal = exec_statements(a, body, 0, self.machine(), fuel as nat);
        proof {
            lemma_statements_view(statements@);
        }
        let mut i: usize = 0;
        while i < statements.len()
            invariant
                i <= statements.len(),
                self.wf(),
                self.continues(old(self)),
                self.env@.len() == old(self).env@.len(),
                a == old(self).arithmetic(),
                body == statements_view(statements@),
                body.len() == statements.len(),
                forall|j: int| 0 <= j < statements.len() ==> (#[trigger] body[j]) == statements@[j]@,
                goal == exec_statements(a, body, 0, old(self).machine(), fuel as nat),
                exec_statements(a, body, i as nat, self.machine(), fuel as nat) == goal,
            decreases statements.len() - i,
        {
            match self.run_statement(&statements[i], fuel) {
                Ok(Some(retval)) => {
                    return Ok(Some(retval));
                },
                Ok(None) => {},
                Err(error) => {
                    return Err(error);
                },
            }
            i += 1;
        }
        Ok(None)
    }

    /// Runs one statement. The result holds the value of a `return` that the
    /// statement met.
    fn run_statement(&mut self, statement: &Statement, fuel: u64) -> (result: Result<
        Option<Object>,
        RuntimeError,
    >)
        requires
            old(self).wf(),
        ensures
            final(self).wf(),
            final(self).continues(old(self)),
            final(self).env@.len() == old(self).env@.len(),
            (flow_view(result), final(self).machine()) == exec_statement(
                old(self).arithmetic(),
                statement@,
                old(self).machine(),
                fuel as nat,
            ),
            result matches Err(error) ==> old(self).reports_at(error),
        decreases fuel, 0nat,
    {
        if fuel == 0 {
            return Err(self.error(RuntimeErrorKind::Exhausted));
        }
        proof {
            self.env.lemma_depth();
        }
        match statement {
            Statement::Expression(expr) => {
                match self.run_expression(expr, fuel - 1) {
                    Ok(_) => Ok(None),
                    Err(error) => Err(error),
                }
            },
            Statement::VarDeclaration { name, value } => {
                match self.run_var(name, value, fuel - 1) {
                    Ok(()) => Ok(None),
                    Err(error) => Err(error),
                }
            },
            Statement::FunctionDeclaration { name, params, body } => {
                self.env.insert(
                    name.clone(),
                    Object::Function(
                        Box::new(
                            FunctionDef {
                                name: name.clone(),
                                params: clone_names(params),
                                body: duplicate_statements(body),
                            },
                        ),
                    ),
                );
                Ok(None)
            },
            Statement::While { condition, body } => {
                self.env.enter_scope();
                let result = self.run_while(condition, body, fuel - 1);
                self.env.exit_scope();
                result
            },
            Statement::Return(expr) => {
                match self.run_expression(expr, fuel - 1) {
                    Ok(value) => Ok(Some(value)),
                    Err(error) => Err(error),
                }
            },
            Statement::Block(block) => {
                self.env.enter_scope();
                let result = self.run_statements(block, fuel - 1);
                self.env.exit_scope();
                result
            },
        }
    }

    /// Runs a loop in the frame that was pushed for it.
    fn run_while(&mut self, condition: &Expression, body: &Vec<Statement>, fuel: u64) -> (result:
        Result<Option<Object>, RuntimeError>)
        requires
            old(self).wf(),
        ensures
            final(self).wf(),
            final(self).continues(old(self)),
            final(self).env@.len() == old(self).env@.len(),
            (flow_view(result), final(self).machine()) == exec_while(
                old(self).arithmetic(),
                condition@,
                statements_view(body@),
                old(self).machine(),
                fuel as nat,
            ),
            result matches Err(error) ==> old(self).reports_at(error),
        decreases fuel, 0nat,
    {
        let ghost a = self.arithmetic();
        let ghost goal = exec_while(
            a,
            condition@,
            statements_view(body@),
            self.machine(),
            fuel as nat,
        );
        let mut remaining: u64 = fuel;
        loop
            invariant
                remaining <= fuel,
                self.wf(),
                self.continues(old(self)),
                self.env@.len() == old(self).env@.len(),
                a == old(self).arithmetic(),
                goal == exec_while(
                    a,
                    condition@,
                    statements_view(body@),
                    old(self).machine(),
                    fuel as nat,
                ),
                exec_while(a, condition@, statements_view(body@), self.machine(), remaining as nat)
                    == goal,
            decreases remaining,
        {
            if remaining == 0 {
                return Err(self.error(RuntimeErrorKind::Exhausted));
            }
            remaining -= 1;
            let cond = match self.run_expression(condition, remaining) {
                Ok(Object::Bool(cond)) => cond,
                Ok(_) => {
                    return Err(self.error(RuntimeErrorKind::NotABoolean));
                },
                Err(error) => {
                    return Err(error);
                },
            };
            if cond == false {
                return Ok(None);
            }
            match self.run_statements(body, remaining) {
                Ok(Some(retval)) => {
                    return Ok(Some(retval));
                },
                Ok(None) => {},
                Err(error) => {
                    return Err(error);
                },
            }
        }
    }

    /// Evaluates an expression.
    fn run_expression(&mut self, expression: &Expression, fuel: u64) -> (result: Result<
        Object,
        RuntimeError,
    >)
        requires
            old(self).wf(),
        ensures
            final(self).wf(),
            final(self).continues(old(self)),
            final(self).env@.len() == old(self).env@.len(),
            (value_view(result), final(self).machine()) == eval_expression(
                old(self).arithmetic(),
                expression@,
                old(self).machine(),
                fuel as nat,
            ),
            result matches Err(error) ==> old(self).reports_at(error),
        decreases fuel, 0nat,
    {
        if fuel == 0 {
            return Err(self.error(RuntimeErrorKind::Exhausted));
        }
        match expression {
            // Literals
            Expression::Number(text) => {
                let reply = ask(&self.host, NumberRequest::Parse(text.clone()));
                self.located(literal_outcome(text, reply))
            },
            Expression::Str(v) => Ok(Object::Str(v.clone())),
            Expression::Bool(v) => Ok(Object::Bool(*v)),
            // Binary operation
            Expression::BinOp(left, op, right) => {
                let left = match self.run_expression(left, fuel - 1) {
                    Ok(value) => value,
                    Err(error) => {
                        return Err(error);
                    },
                };
                let right = match self.run_expression(right, fuel - 1) {
                    Ok(value) => value,
                    Err(error) => {
                        return Err(error);
                    },
                };
                self.run_binary(left, *op, right)
            },
            Expression::Call { name, args } => {
                let processed_args = match self.run_arguments(args, fuel - 1) {
                    Ok(values) => values,
                    Err(error) => {
                        return Err(error);
                    },
                };
                self.run_function(name, processed_args, fuel - 1)
            },
            Expression::Identifier(name) => {
                match self.env.get(name) {
                    Some(val) => Ok(val.clone()),
                    None => Err(self.error(RuntimeErrorKind::UndefinedIdentifier(name.clone()))),
                }
            },
            Expression::Assign(name, value) => self.run_assign(name, value, fuel - 1),
        }
    }

    /// Evaluates the arguments of a call from left to right.
    fn run_arguments(&mut self, args: &Vec<Expression>, fuel: u64) -> (result: Result<
        Vec<Object>,
        RuntimeError,
    >)
        requires
            old(self).wf(),
        ensures
            final(self).wf(),
            final(self).continues(old(self)),
            final(self).env@.len() == old(self).env@.len(),
            (values_view(result), final(self).machine()) == eval_arguments(
                old(self).arithmetic(),
                expressions_view(args@),
                0,
                Seq::empty(),
                old(self).machine(),
                fuel as nat,
            ),
            result matches Err(error) ==> old(self).reports_at(error),
        decreases fuel, 1nat,
    {
        let ghost a = self.arithmetic();
        let ghost views = expressions_view(args@);
        let ghost goal = eval_arguments(a, views, 0, Seq::empty(), self.machine(), fuel as nat);
        proof {
            lemma_expressions_view(args@);
        }
        let mut processed_args: Vec<Object> = Vec::new();
        let mut i: usize = 0;
        assert(objects_view(processed_args@) =~= Seq::<ObjectView>::empty());
        while i < args.len()
            invariant
                i <= args.len(),
                self.wf(),
                self.continues(old(self)),
                self.env@.len() == old(self).env@.len(),
                a == old(self).arithmetic(),
                views == expressions_view(args@),
                views.len() == args.len(),
                forall|j: int| 0 <= j < args.len() ==> (#[trigger] views[j]) == args@[j]@,
                goal == eval_arguments(
                    a,
                    views,
                    0,
                    Seq::empty(),
                    old(self).machine(),
                    fuel as nat,
                ),
                eval_arguments(
                    a,
                    views,
                    i as nat,
                    objects_view(processed_args@),
                    self.machine(),
                    fuel as nat,
                ) == goal,
            decreases args.len() - i,
        {
            let ghost before = processed_args@;
            match self.run_expression(&args[i], fuel) {
                Ok(value) => {
                    processed_args.push(value);
                    assert(objects_view(processed_args@) =~= objects_view(before).push(value@));
                },
                Err(error) => {
                    return Err(error);
                },
            }
            i += 1;
        }
        Ok(processed_args)
    }

    /// Applies a binary operator to two values.
    fn run_binary(&mut self, left: Object, op: TokenKind, right: Object) -> (result: Result<
        Object,
        RuntimeError,
    >)
        requires
            old(self).wf(),
        ensures
            final(self).wf(),
            final(self).continues(old(self)),
            final(self).env@ == old(self).env@,
            final(self).stdout@ == old(self).stdout@,
            value_view(result) == binary(old(self).arithmetic(), left@, op, right@),
            result matches Err(error) ==> old(self).reports_at(error),
    {
        let request = match (&left, &right) {
            (Object::Number(l), Object::Number(r)) => numeric_request_of(op, *l, *r),
            _ => None,
        };
        let reply = match request {
            Some(request) => Some(ask(&self.host, request)),
            None => None,
        };
        self.located(binary_outcome(left, op, right, reply))
    }

    /// Calls the function that `name` is bound to.
    fn run_function(&mut self, name: &String, args: Vec<Object>, fuel: u64) -> (result: Result<
        Object,
        RuntimeError,
    >)
        requires
            old(self).wf(),
        ensures
            final(self).wf(),
            final(self).continues(old(self)),
            final(self).env@.len() == old(self).env@.len(),
            (value_view(result), final(self).machine()) == call(
                old(self).arithmetic(),
                name@,
                objects_view(args@),
                old(self).machine(),
                fuel as nat,
            ),
            result matches Err(error) ==> old(self).reports_at(error),
        decreases fuel, 0nat,
    {
        if fuel == 0 {
            return Err(self.error(RuntimeErrorKind::Exhausted));
        }
        proof {
            self.env.lemma_depth();
        }
        let v = match self.env.get(name) {
            Some(value) => value.clone(),
            None => {
                return Err(self.error(RuntimeErrorKind::UndefinedFunction(name.clone())));
            },
        };
        match v {
            Object::NativeFunction(f) => {
                if args.len() < 1 {
                    return Err(self.error(RuntimeErrorKind::NoArguments(name.clone())));
                }
                self.run_native(f.callback, &args)
            },
            Object::Function(f) => {
                if f.params.len() != args.len() {
                    return Err(
                        self.error(
                            RuntimeErrorKind::ArityMismatch {
                                args: args.len(),
                                params: f.params.len(),
                            },
                        ),
                    );
                }
                self.env.enter_scope();

                let ghost entered = self.env@;
                let mut i: usize = 0;
                while i < f.params.len()
                    invariant
                        i <= f.params.len(),
                        f.params.len() == args.len(),
                        self.wf(),
                        self.continues(old(self)),
                        self.stdout@ == old(self).stdout@,
                        self.env@.len() == old(self).env@.len() + 1,
                        bind_parameters(
                            self.env@,
                            names_view(f.params@),
                            objects_view(args@),
                            i as nat,
                        ) == bind_parameters(
                            entered,
                            names_view(f.params@),
                            objects_view(args@),
                            0,
                        ),
                    decreases f.params.len() - i,
                {
                    self.env.insert(f.params[i].clone(), args[i].clone());
                    i += 1;
                }

                let result = match self.run_statements(&f.body, fuel - 1) {
                    Ok(Some(retval)) => Ok(retval),
                    Ok(None) => Ok(Object::Unit),
                    Err(error) => Err(error),
                };

                self.env.exit_scope();

                result
            },
            _ => Err(self.error(RuntimeErrorKind::NotAFunction(name.clone()))),
        }
    }

    /// Calls a native function: adds the string forms of the arguments to
    /// the output.
    fn run_native(&mut self, callback: NativeFunctionCallback, args: &Vec<Object>) -> (result:
        Result<Object, RuntimeError>)
        requires
            old(self).wf(),
        ensures
            final(self).wf(),
            final(self).continues(old(self)),
            final(self).env@ == old(self).env@,
            (value_view(result), final(self).machine()) == call_native(
                old(self).arithmetic(),
                callback,
                objects_view(args@),
                old(self).machine(),
            ),
            result matches Err(error) ==> old(self).reports_at(error),
    {
        let ghost a = self.arithmetic();
        let ghost values = objects_view(args@);
        let mut output = String::new();
        let mut i: usize = 0;
        while i < args.len()
            invariant
                i <= args.len(),
                self.wf(),
                self.continues(old(self)),
                self.env@ == old(self).env@,
                self.stdout@ == old(self).stdout@,
                a == old(self).arithmetic(),
                values == objects_view(args@),
                render_all(a, values, i as nat, output@) == render_all(a, values, 0, Seq::empty()),
            decreases args.len() - i,
        {
            let reply = match &args[i] {
                Object::Number(bits) => Some(ask(&self.host, NumberRequest::Format(*bits))),
                _ => None,
            };
            match render_outcome(&args[i], reply) {
                Ok(text) => {
                    output.append(text.as_str());
                },
                Err(kind) => {
                    return Err(self.error(kind));
                },
            }
            i += 1;
        }
        self.stdout.append(output.as_str());
        match callback {
            NativeFunctionCallback::Print => {},
            NativeFunctionCallback::Println => {
                self.stdout.append("\n");
            },
        }
        Ok(Object::Unit)
    }

    /// Declares a variable in the innermost frame, with the value of an
    /// expression.
    fn run_var(&mut self, name: &String, value: &Expression, fuel: u64) -> (result: Result<
        (),
        RuntimeError,
    >)
        requires
            old(self).wf(),
        ensures
            final(self).wf(),
            final(self).continues(old(self)),
            final(self).env@.len() == old(self).env@.len(),
            ({
                let (v, m) = eval_expression(
                    old(self).arithmetic(),
                    value@,
                    old(self).machine(),
                    fuel as nat,
                );
                match result {
                    Ok(()) => v is Ok && final(self).machine() == m.declare(name@, v->Ok_0),
                    Err(error) => v == Err::<ObjectView, RuntimeErrorKindView>(error.kind@)
                        && final(self).machine() == m,
                }
            }),
            result matches Err(error) ==> old(self).reports_at(error),
        decreases fuel, 1nat,
    {
        let right = match self.run_expression(value, fuel) {
            Ok(value) => value,
            Err(error) => {
                return Err(error);
            },
        };
        self.env.insert(name.clone(), right);
        Ok(())
    }

    /// Assigns the value of an expression to the innermost binding of a name.
    fn run_assign(&mut self, name: &Expression, value: &Expression, fuel: u64) -> (result: Result<
        Object,
        RuntimeError,
    >)
        requires
            old(self).wf(),
        ensures
            final(self).wf(),
            final(self).continues(old(self)),
            final(self).env@.len() == old(self).env@.len(),
            ({
                let (v, m) = eval_expression(
                    old(self).arithmetic(),
                    value@,
                    old(self).machine(),
                    fuel as nat,
                );
                (value_view(result), final(self).machine()) == match v {
                    Ok(v) => crate::semantics::assign(name@, v, m),
                    Err(kind) => (Err(kind), m),
                }
            }),
            result matches Err(error) ==> old(self).reports_at(error),
        decreases fuel, 1nat,
    {
        let new_value = match self.run_expression(value, fuel) {
            Ok(value) => value,
            Err(error) => {
                return Err(error);
            },
        };

        match name {
            Expression::Identifier(name) => {
                match self.env.contains(name) {
                    Some(index) => {
                        self.env.insert_at(name.clone(), new_value, index);
                        Ok(Object::Unit)
                    },
                    None => Err(self.error(RuntimeErrorKind::UndeclaredAssignment(name.clone()))),
                }
            },
            _ => Err(self.error(RuntimeErrorKind::NotAnIdentifier)),
        }
    }

    /// Gives a failure the position that errors are reported at.
    fn located(&self, result: Result<Object, RuntimeErrorKind>) -> (located: Result<
        Object,
        RuntimeError,
    >)
        ensures
            value_view(located) == outcome_view(result),
            located matches Err(error) ==> self.reports_at(error),
    {
        match result {
            Ok(value) => Ok(value),
            Err(kind) => Err(self.error(kind)),
        }
    }

    /// An error of kind `kind` at the position of the top-level statement
    /// that is running.
    fn error(&self, kind: RuntimeErrorKind) -> (error: RuntimeError)
        ensures
            error.kind == kind,
            self.reports_at(error),
    {
        RuntimeError { kind: kind, ln: self.curtok.ln, col: self.curtok.col }
    }
}

/// Why a source text did not run to its end.
#[derive(Debug)]
pub enum Failure {
    Lex(LexError),
    Parse(ParseError),
    Runtime(RuntimeError),
}

pub ghost enum FailureView {
    Lex(LexErrorView),
    Parse(ParseError),
    Runtime(RuntimeErrorView),
}

impl View for Failure {
    type V = FailureView;

    open spec fn view(&self) -> FailureView {
        match self {
            Failure::Lex(error) => FailureView::Lex(error@),
            Failure::Parse(error) => FailureView::Parse(*error),
            Failure::Runtime(error) => FailureView::Runtime(error@),
        }
    }
}

/// What a source text does when it is run: how the run ends, and what it
/// writes. The text is lexed, then parsed, then run; the first stage that
/// fails ends it.
pub open spec fn interpret(a: Arithmetic, source: Seq<char>) -> (
    Result<(), FailureView>,
    Seq<char>,
) {
    match lex(source) {
        Err(error) => (Err(FailureView::Lex(error)), Seq::empty()),
        Ok(tokens) => match program(tokens, 0, Seq::empty()) {
            Err(error) => (Err(FailureView::Parse(error)), Seq::empty()),
            Ok(nodes) => {
                let (result, m) = run_from(a, nodes, 0, initial_machine(), FUEL as nat);
                (
                    match result {
                        Ok(()) => Ok(()),
                        Err(error) => Err(FailureView::Runtime(error)),
                    },
                    m.stdout,
                )
            },
        },
    }
}

/// The view of how a run of a source text ended.
pub open spec fn ended_view(result: Result<(), Failure>) -> Result<(), FailureView> {
    match result {
        Ok(()) => Ok(()),
        Err(failure) => Err(failure@),
    }
}

/// Lexes, parses and runs a source text. Gives how the run ended, and what
/// it wrote up to then.
pub fn run_source<H: Fn(NumberRequest) -> NumberReply>(source_text: &str, host: H) -> (outcome: (
    Result<(), Failure>,
    String,
))
    requires
        is_arithmetic(host),
        4 * source_text@.len() + 1 <= usize::MAX,
    ensures
        (ended_view(outcome.0), outcome.1@) == interpret(arithmetic_of(host), source_text@),
{
    let mut lexer = Lexer::new(source_text);
    let tokens = match lexer.parse() {
        Ok(tokens) => tokens,
        Err(error) => {
            return (Err(Failure::Lex(error)), String::new());
        },
    };
    proof {
        let lexed = scan(source_text@, origin());
        assert(Seq::<TokenView>::empty() + lexed->Ok_0 =~= lexed->Ok_0);
    }
    let mut parser = Parser::new(tokens);
    let nodes = match parser.parse() {
        Ok(nodes) => nodes,
        Err(error) => {
            return (Err(Failure::Parse(error)), String::new());
        },
    };
    let mut interpreter = Interpreter::new(nodes, host);
    let result = interpreter.run();
    match result {
        Ok(()) => (Ok(()), interpreter.stdout),
        Err(error) => (Err(Failure::Runtime(error)), interpreter.stdout),
    }
}

} // verus!

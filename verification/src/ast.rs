//! The abstract syntax tree: statements and expressions, with their
//! mathematical views.

use vstd::prelude::*;
use crate::token::{Token, TokenKind, TokenView};

verus! {

/// A statement paired with the token that introduced it.
pub type AstNode = (Statement, Token);

/// A program: its top-level statements in order.
pub type Program = Vec<AstNode>;

#[derive(Debug)]
pub enum Statement {
    Return(Expression),
    Expression(Expression),
    FunctionDeclaration { name: String, params: Vec<String>, body: Vec<Statement> },
    VarDeclaration { name: String, value: Expression },
    While { condition: Expression, body: Vec<Statement> },
    Block(Vec<Statement>),
}

#[derive(Debug)]
pub enum Expression {
    Bool(bool),
    /// A numeric literal, held as it is spelled: an optional minus sign and
    /// the digits.
    Number(String),
    Str(String),
    Identifier(String),
    /// Target, then value.
    Assign(Box<Expression>, Box<Expression>),
    Call { name: String, args: Vec<Expression> },
    /// Left operand, operator, right operand.
    BinOp(Box<Expression>, TokenKind, Box<Expression>),
}

pub ghost enum StatementView {
    Return(ExpressionView),
    Expression(ExpressionView),
    FunctionDeclaration { name: Seq<char>, params: Seq<Seq<char>>, body: Seq<StatementView> },
    VarDeclaration { name: Seq<char>, value: ExpressionView },
    While { condition: ExpressionView, body: Seq<StatementView> },
    Block(Seq<StatementView>),
}

pub ghost enum ExpressionView {
    Bool(bool),
    Number(Seq<char>),
    Str(Seq<char>),
    Identifier(Seq<char>),
    Assign(Box<ExpressionView>, Box<ExpressionView>),
    Call { name: Seq<char>, args: Seq<ExpressionView> },
    BinOp(Box<ExpressionView>, TokenKind, Box<ExpressionView>),
}

/// The views of a sequence of names.
pub open spec fn names_view(names: Seq<String>) -> Seq<Seq<char>> {
    Seq::new(names.len(), |i: int| names[i]@)
}

pub open spec fn expression_view(e: Expression) -> ExpressionView
    decreases e,
{
    match e {
        Expression::Bool(b) => ExpressionView::Bool(b),
        Expression::Number(text) => ExpressionView::Number(text@),
        Expression::Str(text) => ExpressionView::Str(text@),
        Expression::Identifier(name) => ExpressionView::Identifier(name@),
        Expression::Assign(target, value) => ExpressionView::Assign(
            Box::new(expression_view(*target)),
            Box::new(expression_view(*value)),
        ),
        Expression::Call { name, args } => ExpressionView::Call {
            name: name@,
            args: expressions_view(args@),
        },
        Expression::BinOp(left, op, right) => ExpressionView::BinOp(
            Box::new(expression_view(*left)),
            op,
            Box::new(expression_view(*right)),
        ),
    }
}

/// The views of a sequence of expressions, in order.
pub open spec fn expressions_view(es: Seq<Expression>) -> Seq<ExpressionView>
    decreases es,
{
    if es.len() == 0 {
        Seq::empty()
    } else {
        expressions_view(es.drop_last()).push(expression_view(es.last()))
    }
}

pub open spec fn statement_view(s: Statement) -> StatementView
    decreases s,
{
    match s {
        Statement::Return(e) => StatementView::Return(expression_view(e)),
        Statement::Expression(e) => StatementView::Expression(expression_view(e)),
        Statement::FunctionDeclaration { name, params, body } => StatementView::FunctionDeclaration {
            name: name@,
            params: names_view(params@),
            body: statements_view(body@),
        },
        Statement::VarDeclaration { name, value } => StatementView::VarDeclaration {
            name: name@,
            value: expression_view(value),
        },
        Statement::While { condition, body } => StatementView::While {
            condition: expression_view(condition),
            body: statements_view(body@),
        },
        Statement::Block(body) => StatementView::Block(statements_view(body@)),
    }
}

/// The views of a sequence of statements, in order.
pub open spec fn statements_view(ss: Seq<Statement>) -> Seq<StatementView>
    decreases ss,
{
    if ss.len() == 0 {
        Seq::empty()
    } else {
        statements_view(ss.drop_last()).push(statement_view(ss.last()))
    }
}

impl View for Expression {
    type V = ExpressionView;

    open spec fn view(&self) -> ExpressionView {
        expression_view(*self)
    }
}

impl View for Statement {
    type V = StatementView;

    open spec fn view(&self) -> StatementView {
        statement_view(*self)
    }
}

/// The view of a program: each statement's view with its token's.
pub open spec fn program_view(program: Seq<AstNode>) -> Seq<(StatementView, TokenView)> {
    Seq::new(program.len(), |i: int| (program[i].0@, program[i].1@))
}

pub proof fn lemma_expressions_view(es: Seq<Expression>)
    ensures
        expressions_view(es).len() == es.len(),
        forall|i: int| 0 <= i < es.len() ==> (#[trigger] expressions_view(es)[i]) == es[i]@,
    decreases es.len(),
{
    if es.len() > 0 {
        lemma_expressions_view(es.drop_last());
    }
}

pub proof fn lemma_statements_view(ss: Seq<Statement>)
    ensures
        statements_view(ss).len() == ss.len(),
        forall|i: int| 0 <= i < ss.len() ==> (#[trigger] statements_view(ss)[i]) == ss[i]@,
    decreases ss.len(),
{
    if ss.len() > 0 {
        lemma_statements_view(ss.drop_last());
    }
}

/// A copy of a list of names.
pub fn clone_names(names: &Vec<String>) -> (copy: Vec<String>)
    ensures
        names_view(copy@) == names_view(names@),
{
    let mut copy: Vec<String> = Vec::new();
    let mut i: usize = 0;
    while i < names.len()
        invariant
            i <= names.len(),
            copy@ == names@.subrange(0, i as int),
        decreases names.len() - i,
    {
        copy.push(names[i].clone());
        assert(names@.subrange(0, i as int).push(names@[i as int]) =~= names@.subrange(0, i + 1));
        i += 1;
    }
    assert(names@.subrange(0, names.len() as int) =~= names@);
    copy
}

impl Expression {
    /// A copy of the expression.
    pub fn duplicate(&self) -> (copy: Expression)
        ensures
            copy@ == self@,
        decreases self,
    {
        match self {
            Expression::Bool(b) => Expression::Bool(*b),
            Expression::Number(text) => Expression::Number(text.clone()),
            Expression::Str(text) => Expression::Str(text.clone()),
            Expression::Identifier(name) => Expression::Identifier(name.clone()),
            Expression::Assign(target, value) => Expression::Assign(
                Box::new(target.duplicate()),
                Box::new(value.duplicate()),
            ),
            Expression::Call { name, args } => Expression::Call {
                name: name.clone(),
                args: duplicate_expressions(args),
            },
            Expression::BinOp(left, op, right) => Expression::BinOp(
                Box::new(left.duplicate()),
                *op,
                Box::new(right.duplicate()),
            ),
        }
    }
}

impl Statement {
    /// A copy of the statement.
    pub fn duplicate(&self) -> (copy: Statement)
        ensures
            copy@ == self@,
        decreases self,
    {
        match self {
            Statement::Return(e) => Statement::Return(e.duplicate()),
            Statement::Expression(e) => Statement::Expression(e.duplicate()),
            Statement::FunctionDeclaration { name, params, body } => Statement::FunctionDeclaration {
                name: name.clone(),
                params: clone_names(params),
                body: duplicate_statements(body),
            },
            Statement::VarDeclaration { name, value } => Statement::VarDeclaration {
                name: name.clone(),
                value: value.duplicate(),
            },
            Statement::While { condition, body } => Statement::While {
                condition: condition.duplicate(),
                body: duplicate_statements(body),
            },
            Statement::Block(body) => Statement::Block(duplicate_statements(body)),
        }
    }
}

/// A copy of a list of expressions.
pub fn duplicate_expressions(expressions: &Vec<Expression>) -> (copy: Vec<Expression>)
    ensures
        expressions_view(copy@) == expressions_view(expressions@),
    decreases expressions,
{
    let mut copy: Vec<Expression> = Vec::new();
    let mut i: usize = 0;
    while i < expressions.len()
        invariant
            i <= expressions.len(),
            expressions_view(copy@) == expressions_view(expressions@.subrange(0, i as int)),
        decreases expressions.len() - i,
    {
        let ghost before = copy@;
        copy.push(expressions[i].duplicate());
        proof {
            assert(copy@.drop_last() =~= before);
            assert(expressions@.subrange(0, i + 1).drop_last() =~= expressions@.subrange(
                0,
                i as int,
            ));
        }
        i += 1;
    }
    assert(expressions@.subrange(0, expressions.len() as int) =~= expressions@);
    copy
}

/// A copy of a list of statements.
pub fn duplicate_statements(statements: &Vec<Statement>) -> (copy: Vec<Statement>)
    ensures
        statements_view(copy@) == statements_view(statements@),
    decreases statements,
{
    let mut copy: Vec<Statement> = Vec::new();
    let mut i: usize = 0;
    while i < statements.len()
        invariant
            i <= statements.len(),
            statements_view(copy@) == statements_view(statements@.subrange(0, i as int)),
        decreases statements.len() - i,
    {
        let ghost before = copy@;
        copy.push(statements[i].duplicate());
        proof {
            assert(copy@.drop_last() =~= before);
            assert(statements@.subrange(0, i + 1).drop_last() =~= statements@.subrange(
                0,
                i as int,
            ));
        }
        i += 1;
    }
    assert(statements@.subrange(0, statements.len() as int) =~= statements@);
    copy
}

impl Clone for Expression {
    fn clone(&self) -> (copy: Self)
        ensures
            copy@ == self@,
    {
        self.duplicate()
    }
}

impl Clone for Statement {
    fn clone(&self) -> (copy: Self)
        ensures
            copy@ == self@,
    {
        self.duplicate()
    }
}

} // verus!

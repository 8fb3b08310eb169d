//! The parser: recursive descent over the tokens, with precedence climbing
//! for expressions.

use vstd::prelude::*;
use vstd::string::StringExecFns;
use crate::ast::{
    Expression, ExpressionView, Program, Statement, StatementView, expressions_view, names_view,
    program_view, statements_view,
};
use crate::grammar::{
    ParseError, ParseErrorKind, Parsed, Precedence, arguments, block, block_items, climb, error_at,
    expression, finish, function_declaration, infix_expression, is_binary_operator, is_number,
    kind_at, parameters, postfix_expression, program, return_statement, statement,
    text_at, unexpected, var_declaration, while_statement,
};
use crate::token::{Token, TokenKind, TokenView, tokens_view};

verus! {

impl Precedence {
    /// The place of the precedence in the order.
    pub fn rank(self) -> (rank: u8)
        ensures
            rank == self.level(),
    {
        match self {
            Precedence::Iota => 0,
            Precedence::Statement => 1,
            Precedence::Assign => 2,
            Precedence::LessThanGreaterThan => 3,
            Precedence::Equals => 4,
            Precedence::Sum => 5,
            Precedence::Product => 6,
            Precedence::Call => 7,
        }
    }

    /// The precedence of a token where it stands after an expression.
    pub fn of_token(tok: &Token) -> (precedence: Precedence)
        ensures
            precedence == Precedence::of_kind(tok.kind),
    {
        match tok.kind {
            TokenKind::Lparen => Precedence::Call,
            TokenKind::Slash | TokenKind::Star => Precedence::Product,
            TokenKind::Plus | TokenKind::Minus => Precedence::Sum,
            TokenKind::Equals | TokenKind::NotEquals => Precedence::Equals,
            TokenKind::LessThan
            | TokenKind::GreaterThan
            | TokenKind::LessEquals
            | TokenKind::GreaterEquals => Precedence::LessThanGreaterThan,
            TokenKind::Assign => Precedence::Assign,
            TokenKind::Semicolon => Precedence::Statement,
            _ => Precedence::Iota,
        }
    }
}

/// The view of a parsed expression that ends before the token at `end`.
pub open spec fn parsed_expression(result: Result<Expression, ParseError>, end: int) -> Parsed<
    ExpressionView,
> {
    match result {
        Ok(e) => Ok((e@, end)),
        Err(error) => Err(error),
    }
}

/// The view of a parsed statement that ends before the token at `end`.
pub open spec fn parsed_statement(result: Result<Statement, ParseError>, end: int) -> Parsed<
    StatementView,
> {
    match result {
        Ok(s) => Ok((s@, end)),
        Err(error) => Err(error),
    }
}

/// The view of a parsed block that ends before the token at `end`.
pub open spec fn parsed_block(result: Result<Vec<Statement>, ParseError>, end: int) -> Parsed<
    Seq<StatementView>,
> {
    match result {
        Ok(body) => Ok((statements_view(body@), end)),
        Err(error) => Err(error),
    }
}

/// The view of a parsed program.
pub open spec fn parsed_program(result: Result<Program, ParseError>) -> Result<
    Seq<(StatementView, TokenView)>,
    ParseError,
> {
    match result {
        Ok(nodes) => Ok(program_view(nodes@)),
        Err(error) => Err(error),
    }
}

fn binary_operator(kind: TokenKind) -> (b: bool)
    ensures
        b == is_binary_operator(kind),
{
    match kind {
        TokenKind::Slash
        | TokenKind::Star
        | TokenKind::Minus
        | TokenKind::Plus
        | TokenKind::Equals
        | TokenKind::NotEquals
        | TokenKind::LessThan
        | TokenKind::GreaterThan
        | TokenKind::GreaterEquals
        | TokenKind::LessEquals => true,
        _ => false,
    }
}

fn number(kind: TokenKind) -> (b: bool)
    ensures
        b == is_number(kind),
{
    kind == TokenKind::Integer || kind == TokenKind::Float
}

/// A parser over a sequence of tokens.
#[derive(Debug)]
pub struct Parser {
    tokens: Vec<Token>,
    pos: usize,
}

impl Parser {
    /// The tokens that the parser reads.
    pub closed spec fn stream(&self) -> Seq<TokenView> {
        tokens_view(self.tokens@)
    }

    /// The index of the current token; past the last token, the length of
    /// the stream.
    pub closed spec fn position(&self) -> int {
        self.pos as int
    }

    /// The current token is one of the stream, or the parser is past the
    /// last.
    pub closed spec fn wf(&self) -> bool {
        self.pos <= self.tokens.len()
    }

    /// A parser at the first of `tokens`.
    pub fn new(tokens: Vec<Token>) -> (parser: Self)
        ensures
            parser.wf(),
            parser.stream() == tokens_view(tokens@),
            parser.position() == 0,
    {
        Parser { tokens: tokens, pos: 0 }
    }

    /// Parses the tokens from the current one on into a program.
    pub fn parse(&mut self) -> (result: Result<Program, ParseError>)
        requires
            old(self).wf(),
        ensures
            final(self).wf(),
            final(self).stream() == old(self).stream(),
            parsed_program(result) == program(
                old(self).stream(),
                old(self).position(),
                Seq::empty(),
            ),
    {
        let mut nodes: Program = Vec::new();
        let ghost t = self.stream();
        let ghost goal = program(t, self.position(), Seq::empty());
        assert(program_view(nodes@) =~= Seq::<(StatementView, TokenView)>::empty());

        while !self.curtok_is(TokenKind::EOF)
            invariant
                self.wf(),
                self.stream() == t,
                t == old(self).stream(),
                goal == program(old(self).stream(), old(self).position(), Seq::empty()),
                program(t, self.position(), program_view(nodes@)) == goal,
            decreases self.tokens.len() - self.pos,
        {
            match self.parse_next(&mut nodes) {
                Ok(()) => {},
                Err(error) => {
                    return Err(error);
                },
            }
        }

        Ok(nodes)
    }

    /// Parses one top-level statement and adds it to `nodes`, or skips a
    /// semicolon.
    fn parse_next(&mut self, nodes: &mut Program) -> (result: Result<(), ParseError>)
        requires
            old(self).wf(),
            kind_at(old(self).stream(), old(self).position()) != TokenKind::EOF,
        ensures
            final(self).wf(),
            final(self).stream() == old(self).stream(),
            result is Ok ==> old(self).position() < final(self).position(),
            match result {
                Ok(()) => program(
                    old(self).stream(),
                    old(self).position(),
                    program_view(old(nodes)@),
                ) == program(
                    old(self).stream(),
                    final(self).position(),
                    program_view(final(nodes)@),
                ),
                Err(error) => program(
                    old(self).stream(),
                    old(self).position(),
                    program_view(old(nodes)@),
                ) == Err::<Seq<(StatementView, TokenView)>, ParseError>(error),
            },
    {
        let clone = self.curtok().clone();
        let kind = self.kind();
        let ghost before = nodes@;
        let parsed = match kind {
            TokenKind::Var => self.parse_var(),
            TokenKind::Fn => self.parse_function(),
            TokenKind::While => self.parse_while(),
            TokenKind::Lbrace => match self.parse_block() {
                Ok(body) => Ok(Statement::Block(body)),
                Err(error) => Err(error),
            },
            TokenKind::Semicolon => {
                self.next();
                return Ok(());
            },
            _ => match self.parse_expression(Precedence::Iota) {
                Ok(e) => Ok(Statement::Expression(e)),
                Err(error) => Err(error),
            },
        };
        match parsed {
            Ok(statement) => {
                nodes.push((statement, clone));
                assert(program_view(nodes@) =~= program_view(before).push(
                    (statement@, old(self).stream()[old(self).position()]),
                ));
                Ok(())
            },
            Err(error) => Err(error),
        }
    }

    /// Makes the next token the current one; past the last token, nothing
    /// changes.
    fn next(&mut self)
        requires
            old(self).wf(),
        ensures
            final(self).wf(),
            final(self).stream() == old(self).stream(),
            final(self).position() == if old(self).position() < old(self).stream().len() {
                old(self).position() + 1
            } else {
                old(self).position()
            },
            kind_at(old(self).stream(), old(self).position()) != TokenKind::EOF
                ==> final(self).position() == old(self).position() + 1,
    {
        if self.pos < self.tokens.len() {
            self.pos += 1;
        }
    }

    /// `while` expression block.
    fn parse_while(&mut self) -> (result: Result<Statement, ParseError>)
        requires
            old(self).wf(),
        ensures
            final(self).wf(),
            final(self).stream() == old(self).stream(),
            while_statement(old(self).stream(), old(self).position()) == parsed_statement(
                result,
                final(self).position(),
            ),
            result is Ok ==> old(self).position() < final(self).position(),
        decreases old(self).tokens.len() - old(self).pos, 4nat,
    {
        match self.expect_kind(TokenKind::While) {
            Ok(_) => {},
            Err(error) => {
                return Err(error);
            },
        }
        self.next();

        let condition = match self.parse_expression(Precedence::Iota) {
            Ok(e) => e,
            Err(error) => {
                return Err(error);
            },
        };

        let body = match self.parse_block() {
            Ok(body) => body,
            Err(error) => {
                return Err(error);
            },
        };

        Ok(Statement::While { condition: condition, body: body })
    }

    /// `fn` NAME `(` parameters `)` block.
    fn parse_function(&mut self) -> (result: Result<Statement, ParseError>)
        requires
            old(self).wf(),
        ensures
            final(self).wf(),
            final(self).stream() == old(self).stream(),
            function_declaration(old(self).stream(), old(self).position()) == parsed_statement(
                result,
                final(self).position(),
            ),
            result is Ok ==> old(self).position() < final(self).position(),
    {
        // expect the fn keyword
        match self.expect_kind(TokenKind::Fn) {
            Ok(_) => {},
            Err(error) => {
                return Err(error);
            },
        }
        self.next();
        // expect the name
        let iden = match self.expect_kind(TokenKind::Identifier) {
            Ok(token) => token,
            Err(error) => {
                return Err(error);
            },
        };
        self.next();
        // expect the parameters
        match self.expect_kind(TokenKind::Lparen) {
            Ok(_) => {},
            Err(error) => {
                return Err(error);
            },
        }
        self.next();

        let mut params: Vec<String> = Vec::new();
        let ghost t = self.stream();
        let ghost goal = parameters(t, self.position(), Seq::empty());
        assert(names_view(params@) =~= Seq::<Seq<char>>::empty());

        while !self.curtok_is(TokenKind::Rparen)
            invariant
                self.wf(),
                self.stream() == t,
                t == old(self).stream(),
                old(self).position() + 3 <= self.position(),
                kind_at(t, old(self).position()) == TokenKind::Fn,
                kind_at(t, old(self).position() + 1) == TokenKind::Identifier,
                kind_at(t, old(self).position() + 2) == TokenKind::Lparen,
                iden.text@ == text_at(t, old(self).position() + 1),
                goal == parameters(t, old(self).position() + 3, Seq::empty()),
                parameters(t, self.position(), names_view(params@)) == goal,
            decreases self.tokens.len() - self.pos,
        {
            if self.curtok_is(TokenKind::Comma) {
                // a comma stands before a parameter or before the closing parenthesis
                match self.expect_peek(TokenKind::Identifier) {
                    Ok(_) => {},
                    Err(error) => {
                        if !self.peek_is(TokenKind::Rparen) {
                            return Err(error);
                        }
                    },
                }
                self.next();
            } else if self.curtok_is(TokenKind::Identifier) {
                let ghost before = params@;
                params.push(self.curtok().text.clone());
                assert(names_view(params@) =~= names_view(before).push(
                    text_at(t, self.position()),
                ));
                self.next();
            } else {
                match self.expect_kind(TokenKind::Identifier) {
                    Ok(_) => {},
                    Err(error) => {
                        return Err(error);
                    },
                }
            }
        }

        // the function body follows the closing parenthesis
        self.next();

        let body = match self.parse_block() {
            Ok(body) => body,
            Err(error) => {
                return Err(error);
            },
        };

        Ok(Statement::FunctionDeclaration { name: iden.text, body: body, params: params })
    }

    /// `var` NAME `=` expression.
    fn parse_var(&mut self) -> (result: Result<Statement, ParseError>)
        requires
            old(self).wf(),
        ensures
            final(self).wf(),
            final(self).stream() == old(self).stream(),
            var_declaration(old(self).stream(), old(self).position()) == parsed_statement(
                result,
                final(self).position(),
            ),
            result is Ok ==> old(self).position() < final(self).position(),
    {
        match self.expect_kind(TokenKind::Var) {
            Ok(_) => {},
            Err(error) => {
                return Err(error);
            },
        }
        self.next();
        // expect the name
        let iden = match self.expect_kind(TokenKind::Identifier) {
            Ok(token) => token,
            Err(error) => {
                return Err(error);
            },
        };
        self.next();

        // expect the assignment
        match self.expect_kind(TokenKind::Assign) {
            Ok(_) => {},
            Err(error) => {
                return Err(error);
            },
        }
        self.next();

        let expr = match self.parse_expression(Precedence::Iota) {
            Ok(e) => e,
            Err(error) => {
                return Err(error);
            },
        };

        Ok(Statement::VarDeclaration { name: iden.text, value: expr })
    }

    /// Parses what stands between braces.
    fn parse_block(&mut self) -> (result: Result<Vec<Statement>, ParseError>)
        requires
            old(self).wf(),
        ensures
            final(self).wf(),
            final(self).stream() == old(self).stream(),
            block(old(self).stream(), old(self).position()) == parsed_block(
                result,
                final(self).position(),
            ),
            result is Ok ==> old(self).position() < final(self).position(),
        decreases old(self).tokens.len() - old(self).pos, 4nat,
    {
        match self.expect_kind(TokenKind::Lbrace) {
            Ok(_) => {},
            Err(error) => {
                return Err(error);
            },
        }
        self.next();

        let mut body: Vec<Statement> = Vec::new();
        let ghost t = self.stream();
        let ghost goal = block_items(t, self.position(), Seq::empty());

        while !self.curtok_is(TokenKind::Rbrace)
            invariant
                self.wf(),
                self.stream() == t,
                t == old(self).stream(),
                self.tokens.len() == old(self).tokens.len(),
                old(self).position() < self.position(),
                kind_at(t, old(self).position()) == TokenKind::Lbrace,
                goal == block_items(t, old(self).position() + 1, Seq::empty()),
                block_items(t, self.position(), statements_view(body@)) == goal,
            decreases self.tokens.len() - self.pos,
        {
            let ghost before = body@;
            match self.parse_statement() {
                Ok(item) => {
                    body.push(item);
                    assert(body@.drop_last() =~= before);
                },
                Err(error) => {
                    return Err(error);
                },
            }
        }

        self.next();

        Ok(body)
    }

    /// Parses one statement of a block.
    fn parse_statement(&mut self) -> (result: Result<Statement, ParseError>)
        requires
            old(self).wf(),
        ensures
            final(self).wf(),
            final(self).stream() == old(self).stream(),
            statement(old(self).stream(), old(self).position()) == parsed_statement(
                result,
                final(self).position(),
            ),
            result is Ok ==> old(self).position() < final(self).position(),
        decreases old(self).tokens.len() - old(self).pos, 5nat,
    {
        match self.kind() {
            TokenKind::Var => self.parse_var(),
            TokenKind::Return => self.parse_return(),
            TokenKind::While => self.parse_while(),
            TokenKind::Lbrace => match self.parse_block() {
                Ok(body) => Ok(Statement::Block(body)),
                Err(error) => Err(error),
            },
            _ => match self.parse_expression(Precedence::Iota) {
                Ok(e) => Ok(Statement::Expression(e)),
                Err(error) => Err(error),
            },
        }
    }

    /// `return` expression.
    fn parse_return(&mut self) -> (result: Result<Statement, ParseError>)
        requires
            old(self).wf(),
        ensures
            final(self).wf(),
            final(self).stream() == old(self).stream(),
            return_statement(old(self).stream(), old(self).position()) == parsed_statement(
                result,
                final(self).position(),
            ),
            result is Ok ==> old(self).position() < final(self).position(),
    {
        match self.expect_kind(TokenKind::Return) {
            Ok(_) => {},
            Err(error) => {
                return Err(error);
            },
        }
        self.next();

        match self.parse_expression(Precedence::Iota) {
            Ok(e) => Ok(Statement::Return(e)),
            Err(error) => Err(error),
        }
    }

    /// Parses an expression, as far as its operators bind more strongly than
    /// `precedence`. The first call has the lowest precedence; the calls for
    /// the operands of an operator have the operator's.
    fn parse_expression(&mut self, precedence: Precedence) -> (result: Result<
        Expression,
        ParseError,
    >)
        requires
            old(self).wf(),
        ensures
            final(self).wf(),
            final(self).stream() == old(self).stream(),
            expression(old(self).stream(), old(self).position(), precedence) == parsed_expression(
                result,
                final(self).position(),
            ),
            result is Ok ==> old(self).position() < final(self).position(),
        decreases old(self).tokens.len() - old(self).pos, 2nat,
    {
        let ghost t = self.stream();
        let ghost goal = expression(t, self.position(), precedence);
        let kind = self.kind();
        let mut left = if number(kind) {
            Expression::Number(self.curtok().text.clone())
        } else if kind == TokenKind::Minus {
            // a minus sign before a number belongs to the number
            let digits = match self.peek() {
                Ok(token) => token,
                Err(_) => {
                    return Err(self.error(ParseErrorKind::ExpectedExpression { found: kind }));
                },
            };
            if !number(digits.kind) {
                return Err(self.error(ParseErrorKind::ExpectedExpression { found: kind }));
            }
            self.next();
            let mut text = String::from_str("-");
            text.append(digits.text.as_str());
            Expression::Number(text)
        } else if kind == TokenKind::Identifier {
            Expression::Identifier(self.curtok().text.clone())
        } else if kind == TokenKind::Lparen {
            self.next();
            let inner = match self.parse_expression(Precedence::Iota) {
                Ok(e) => e,
                Err(error) => {
                    return Err(error);
                },
            };
            match self.expect_kind(TokenKind::Rparen) {
                Ok(_) => {},
                Err(error) => {
                    return Err(error);
                },
            }
            inner
        } else if kind == TokenKind::String {
            Expression::Str(self.curtok().text.clone())
        } else if kind == TokenKind::True {
            Expression::Bool(true)
        } else if kind == TokenKind::False {
            Expression::Bool(false)
        } else {
            return Err(self.error(ParseErrorKind::ExpectedExpression { found: kind }));
        };

        self.next();

        loop
            invariant
                self.wf(),
                self.stream() == t,
                t == old(self).stream(),
                self.tokens.len() == old(self).tokens.len(),
                old(self).position() < self.position(),
                goal == expression(old(self).stream(), old(self).position(), precedence),
                climb(t, self.position(), precedence, left@) == goal,
            ensures
                finish(t, self.position(), left@) == goal,
            decreases self.tokens.len() - self.pos,
        {
            let kind = self.kind();
            if kind == TokenKind::EOF || precedence.rank() >= Precedence::of_token(
                self.curtok(),
            ).rank() {
                break ;
            }
            if kind == TokenKind::Lparen {
                left = match self.parse_postfix_expression(left) {
                    Ok(called) => called,
                    Err(error) => {
                        return Err(error);
                    },
                };
            } else if binary_operator(kind) || kind == TokenKind::Assign {
                left = match self.parse_infix_expression(left) {
                    Ok(combined) => combined,
                    Err(error) => {
                        return Err(error);
                    },
                };
            } else {
                break ;
            }
        }

        if self.curtok_is(TokenKind::Semicolon) {
            self.next();
        }

        Ok(left)
    }

    /// Combines `left` with the expression after the operator that is the
    /// current token.
    fn parse_infix_expression(&mut self, left: Expression) -> (result: Result<
        Expression,
        ParseError,
    >)
        requires
            old(self).wf(),
            is_binary_operator(kind_at(old(self).stream(), old(self).position())) || kind_at(
                old(self).stream(),
                old(self).position(),
            ) == TokenKind::Assign,
        ensures
            final(self).wf(),
            final(self).stream() == old(self).stream(),
            infix_expression(old(self).stream(), old(self).position(), left@) == parsed_expression(
                result,
                final(self).position(),
            ),
            result is Ok ==> old(self).position() < final(self).position(),
        decreases old(self).tokens.len() - old(self).pos, 0nat,
    {
        let kind = self.kind();
        if kind == TokenKind::Assign {
            self.next();

            let right = match self.parse_expression(Precedence::Iota) {
                Ok(e) => e,
                Err(error) => {
                    return Err(error);
                },
            };

            Ok(Expression::Assign(Box::new(left), Box::new(right)))
        } else {
            let precedence = Precedence::of_token(self.curtok());

            self.next();

            let right = match self.parse_expression(precedence) {
                Ok(e) => e,
                Err(error) => {
                    return Err(error);
                },
            };

            Ok(Expression::BinOp(Box::new(left), kind, Box::new(right)))
        }
    }

    /// Parses the arguments of a call of `left`; the current token is the
    /// opening parenthesis.
    fn parse_postfix_expression(&mut self, left: Expression) -> (result: Result<
        Expression,
        ParseError,
    >)
        requires
            old(self).wf(),
            kind_at(old(self).stream(), old(self).position()) == TokenKind::Lparen,
        ensures
            final(self).wf(),
            final(self).stream() == old(self).stream(),
            postfix_expression(old(self).stream(), old(self).position(), left@)
                == parsed_expression(result, final(self).position()),
            result is Ok ==> old(self).position() < final(self).position(),
        decreases old(self).tokens.len() - old(self).pos, 0nat,
    {
        // parse a possibly delimited list
        self.next();

        let mut args: Vec<Expression> = Vec::new();
        let ghost t = self.stream();
        let ghost goal = arguments(t, self.position(), Seq::empty());

        while !self.curtok_is(TokenKind::Rparen)
            invariant
                self.wf(),
                self.stream() == t,
                t == old(self).stream(),
                self.tokens.len() == old(self).tokens.len(),
                old(self).position() < self.position(),
                kind_at(t, old(self).position()) == TokenKind::Lparen,
                goal == arguments(t, old(self).position() + 1, Seq::empty()),
                arguments(t, self.position(), expressions_view(args@)) == goal,
            decreases self.tokens.len() - self.pos,
        {
            let ghost before = args@;
            match self.parse_expression(Precedence::Iota) {
                Ok(arg) => {
                    args.push(arg);
                    assert(args@.drop_last() =~= before);
                },
                Err(error) => {
                    return Err(error);
                },
            }

            if self.kind() == TokenKind::Comma {
                self.next();
            }
        }

        self.next();

        match left {
            Expression::Identifier(v) => Ok(Expression::Call { name: v, args: args }),
            _ => Err(self.error(ParseErrorKind::CallOnNonIdentifier)),
        }
    }

    /// The current token.
    fn curtok(&self) -> (token: &Token)
        requires
            self.wf(),
            self.position() < self.stream().len(),
        ensures
            token@ == self.stream()[self.position()],
            token.kind == kind_at(self.stream(), self.position()),
            token.text@ == text_at(self.stream(), self.position()),
    {
        &self.tokens[self.pos]
    }

    /// The kind of the current token.
    fn kind(&self) -> (kind: TokenKind)
        requires
            self.wf(),
        ensures
            kind == kind_at(self.stream(), self.position()),
    {
        if self.pos < self.tokens.len() {
            self.tokens[self.pos].kind
        } else {
            TokenKind::EOF
        }
    }

    /// The token after the current one.
    fn peek(&self) -> (result: Result<Token, ParseError>)
        requires
            self.wf(),
        ensures
            match result {
                Ok(token) => {
                    &&& self.position() + 1 < self.stream().len()
                    &&& token@ == self.stream()[self.position() + 1]
                    &&& token.kind == kind_at(self.stream(), self.position() + 1)
                    &&& token.text@ == text_at(self.stream(), self.position() + 1)
                },
                Err(error) => {
                    &&& self.position() + 1 >= self.stream().len()
                    &&& error == error_at(self.stream(), self.position(), ParseErrorKind::PastEnd)
                },
            },
    {
        if self.pos < self.tokens.len() && self.pos + 1 < self.tokens.len() {
            Ok(self.tokens[self.pos + 1].clone())
        } else {
            Err(self.error(ParseErrorKind::PastEnd))
        }
    }

    /// An error of kind `kind` at the current token.
    fn error(&self, kind: ParseErrorKind) -> (error: ParseError)
        requires
            self.wf(),
        ensures
            error == error_at(self.stream(), self.position(), kind),
    {
        let len = self.tokens.len();
        if self.pos < len {
            ParseError { kind: kind, ln: self.tokens[self.pos].ln, col: self.tokens[self.pos].col }
        } else if len > 0 {
            ParseError { kind: kind, ln: self.tokens[len - 1].ln, col: self.tokens[len - 1].col }
        } else {
            ParseError { kind: kind, ln: 1, col: 1 }
        }
    }

    /// Whether there is a token after the current one and it is of kind
    /// `kind`.
    fn peek_is(&self, kind: TokenKind) -> (is: bool)
        requires
            self.wf(),
        ensures
            is == (self.position() + 1 < self.stream().len() && kind_at(
                self.stream(),
                self.position() + 1,
            ) == kind),
    {
        match self.peek() {
            Ok(token) => token.kind == kind,
            Err(_) => false,
        }
    }

    /// The token after the current one, if it is of kind `kind`.
    fn expect_peek(&self, kind: TokenKind) -> (result: Result<Token, ParseError>)
        requires
            self.wf(),
        ensures
            match result {
                Ok(token) => {
                    &&& kind_at(self.stream(), self.position() + 1) == kind
                    &&& token@ == self.stream()[self.position() + 1]
                },
                Err(error) => if self.position() + 1 < self.stream().len() {
                    &&& kind_at(self.stream(), self.position() + 1) != kind
                    &&& error == error_at(
                        self.stream(),
                        self.position(),
                        ParseErrorKind::ExpectedNext {
                            expected: kind,
                            found: kind_at(self.stream(), self.position() + 1),
                        },
                    )
                } else {
                    error == error_at(self.stream(), self.position(), ParseErrorKind::PastEnd)
                },
            },
    {
        let peek = match self.peek() {
            Ok(token) => token,
            Err(error) => {
                return Err(error);
            },
        };
        if peek.kind == kind {
            return Ok(peek);
        }
        Err(self.error(ParseErrorKind::ExpectedNext { expected: kind, found: peek.kind }))
    }

    /// The current token, if it is of kind `kind`.
    fn expect_kind(&self, kind: TokenKind) -> (result: Result<Token, ParseError>)
        requires
            self.wf(),
            kind != TokenKind::EOF,
        ensures
            match result {
                Ok(token) => {
                    &&& kind_at(self.stream(), self.position()) == kind
                    &&& token@ == self.stream()[self.position()]
                    &&& token.text@ == text_at(self.stream(), self.position())
                },
                Err(error) => {
                    &&& kind_at(self.stream(), self.position()) != kind
                    &&& error == unexpected(self.stream(), self.position(), kind)
                },
            },
    {
        if self.kind() == kind {
            Ok(self.curtok().clone())
        } else {
            Err(self.error(ParseErrorKind::Expected { expected: kind, found: self.kind() }))
        }
    }

    /// Whether the current token is of kind `kind`.
    fn curtok_is(&self, kind: TokenKind) -> (is: bool)
        requires
            self.wf(),
        ensures
            is == (kind_at(self.stream(), self.position()) == kind),
    {
        self.kind() == kind
    }
}

} // verus!

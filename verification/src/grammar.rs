//! The grammar: what a sequence of tokens parses to, as functions on
//! mathematical values.
//!
//! Each function takes the tokens and the index of the current token, and
//! gives what stands there together with the index of the token after it, or
//! the first error. Past the last token, the end of input is read.

use vstd::prelude::*;
use crate::ast::{ExpressionView, StatementView};
use crate::token::{TokenKind, TokenView};

verus! {

/// What the parser expected and did not find.
#[derive(PartialEq, Eq, Debug, Clone, Copy, Structural)]
pub enum ParseErrorKind {
    /// A token that starts no expression stands where one is needed.
    ExpectedExpression { found: TokenKind },
    /// The current token is not of the kind that the grammar asks for.
    Expected { expected: TokenKind, found: TokenKind },
    /// The token after the current one is not of the kind that the grammar
    /// asks for.
    ExpectedNext { expected: TokenKind, found: TokenKind },
    /// There is no token after the current one.
    PastEnd,
    /// A call of something else than a name.
    CallOnNonIdentifier,
}

/// A parse failure, with the line and column of the token that was current
/// when it was found.
#[derive(PartialEq, Eq, Debug, Clone, Copy, Structural)]
pub struct ParseError {
    pub kind: ParseErrorKind,
    pub ln: usize,
    pub col: usize,
}

/// How strongly an operator binds, from the weakest to the strongest.
#[derive(PartialEq, Eq, Debug, Clone, Copy, Structural)]
pub enum Precedence {
    /// The lowest and starting point of precedence.
    Iota,
    Statement,
    Assign,
    LessThanGreaterThan,
    Equals,
    Sum,
    Product,
    /// The highest precedence.
    Call,
}

impl Precedence {
    /// The place of the precedence in the order.
    pub open spec fn level(self) -> int {
        match self {
            Precedence::Iota => 0,
            Precedence::Statement => 1,
            Precedence::Assign => 2,
            Precedence::LessThanGreaterThan => 3,
            Precedence::Equals => 4,
            Precedence::Sum => 5,
            Precedence::Product => 6,
            Precedence::Call => 7,
        }
    }

    /// The precedence of a token of kind `kind` where it stands after an
    /// expression.
    pub open spec fn of_kind(kind: TokenKind) -> Precedence {
        match kind {
            TokenKind::Lparen => Precedence::Call,
            TokenKind::Slash | TokenKind::Star => Precedence::Product,
            TokenKind::Plus | TokenKind::Minus => Precedence::Sum,
            TokenKind::Equals | TokenKind::NotEquals => Precedence::Equals,
            TokenKind::LessThan
            | TokenKind::GreaterThan
            | TokenKind::LessEquals
            | TokenKind::GreaterEquals => Precedence::LessThanGreaterThan,
            TokenKind::Assign => Precedence::Assign,
            TokenKind::Semicolon => Precedence::Statement,
            _ => Precedence::Iota,
        }
    }
}

/// A value with the index of the token after it, or an error.
pub type Parsed<T> = Result<(T, int), ParseError>;

/// The kind of the token at `pos`.
pub open spec fn kind_at(t: Seq<TokenView>, pos: int) -> TokenKind {
    if 0 <= pos < t.len() {
        t[pos].kind
    } else {
        TokenKind::EOF
    }
}

/// The text of the token at `pos`.
pub open spec fn text_at(t: Seq<TokenView>, pos: int) -> Seq<char> {
    if 0 <= pos < t.len() {
        t[pos].text
    } else {
        Seq::empty()
    }
}

/// An error of kind `kind` found while the token at `pos` was current. Past
/// the last token, the last token counts as the current one.
pub open spec fn error_at(t: Seq<TokenView>, pos: int, kind: ParseErrorKind) -> ParseError {
    if 0 <= pos < t.len() {
        ParseError { kind, ln: t[pos].ln as usize, col: t[pos].col as usize }
    } else if t.len() > 0 {
        ParseError { kind, ln: t.last().ln as usize, col: t.last().col as usize }
    } else {
        ParseError { kind, ln: 1, col: 1 }
    }
}

/// The error for a token at `pos` that is not of kind `expected`.
pub open spec fn unexpected(t: Seq<TokenView>, pos: int, expected: TokenKind) -> ParseError {
    error_at(t, pos, ParseErrorKind::Expected { expected, found: kind_at(t, pos) })
}

/// `parsed`, where it went on from `pos` to a later token.
pub open spec fn forward<T>(t: Seq<TokenView>, pos: int, parsed: Parsed<T>) -> Parsed<T> {
    match parsed {
        Ok((_, next)) => if pos < next <= t.len() {
            parsed
        } else {
            Err(error_at(t, pos, ParseErrorKind::PastEnd))
        },
        Err(_) => parsed,
    }
}

/// The kinds of the binary operators.
pub open spec fn is_binary_operator(kind: TokenKind) -> bool {
    match kind {
        TokenKind::Slash
        | TokenKind::Star
        | TokenKind::Minus
        | TokenKind::Plus
        | TokenKind::Equals
        | TokenKind::NotEquals
        | TokenKind::LessThan
        | TokenKind::GreaterThan
        | TokenKind::GreaterEquals
        | TokenKind::LessEquals => true,
        _ => false,
    }
}

pub open spec fn is_number(kind: TokenKind) -> bool {
    kind == TokenKind::Integer || kind == TokenKind::Float
}

/// The end of an expression whose last token stands before `pos`: a
/// semicolon that follows it belongs to it.
pub open spec fn finish(t: Seq<TokenView>, pos: int, left: ExpressionView) -> Parsed<
    ExpressionView,
> {
    Ok(
        (
            left,
            if kind_at(t, pos) == TokenKind::Semicolon {
                pos + 1
            } else {
                pos
            },
        ),
    )
}

/// The expression that starts at `pos`, as far as its operators bind more
/// strongly than `prec`.
pub open spec fn expression(t: Seq<TokenView>, pos: int, prec: Precedence) -> Parsed<
    ExpressionView,
>
    decreases t.len() - pos, 2nat,
{
    let kind = kind_at(t, pos);
    if is_number(kind) {
        climb(t, pos + 1, prec, ExpressionView::Number(text_at(t, pos)))
    } else if kind == TokenKind::Minus && is_number(kind_at(t, pos + 1)) {
        climb(t, pos + 2, prec, ExpressionView::Number("-"@ + text_at(t, pos + 1)))
    } else if kind == TokenKind::Identifier {
        climb(t, pos + 1, prec, ExpressionView::Identifier(text_at(t, pos)))
    } else if kind == TokenKind::String {
        climb(t, pos + 1, prec, ExpressionView::Str(text_at(t, pos)))
    } else if kind == TokenKind::True {
        climb(t, pos + 1, prec, ExpressionView::Bool(true))
    } else if kind == TokenKind::False {
        climb(t, pos + 1, prec, ExpressionView::Bool(false))
    } else if kind == TokenKind::Lparen {
        match forward(t, pos, expression(t, pos + 1, Precedence::Iota)) {
            Ok((inner, close)) => if kind_at(t, close) == TokenKind::Rparen {
                climb(t, close + 1, prec, inner)
            } else {
                Err(unexpected(t, close, TokenKind::Rparen))
            },
            Err(error) => Err(error),
        }
    } else {
        Err(error_at(t, pos, ParseErrorKind::ExpectedExpression { found: kind }))
    }
}

/// The expression `left`, extended by the calls and operators that follow
/// from `pos` on and bind more strongly than `prec`.
pub open spec fn climb(t: Seq<TokenView>, pos: int, prec: Precedence, left: ExpressionView) -> Parsed<
    ExpressionView,
>
    decreases t.len() - pos, 1nat,
{
    let kind = kind_at(t, pos);
    if kind != TokenKind::EOF && prec.level() < Precedence::of_kind(kind).level() {
        if kind == TokenKind::Lparen {
            match forward(t, pos, postfix_expression(t, pos, left)) {
                Ok((called, next)) => climb(t, next, prec, called),
                Err(error) => Err(error),
            }
        } else if is_binary_operator(kind) || kind == TokenKind::Assign {
            match forward(t, pos, infix_expression(t, pos, left)) {
                Ok((combined, next)) => climb(t, next, prec, combined),
                Err(error) => Err(error),
            }
        } else {
            finish(t, pos, left)
        }
    } else {
        finish(t, pos, left)
    }
}

/// The call of `left` with the arguments in the parentheses that open at
/// `pos`. Only a name can be called.
pub open spec fn postfix_expression(t: Seq<TokenView>, pos: int, left: ExpressionView) -> Parsed<
    ExpressionView,
>
    decreases t.len() - pos, 0nat,
{
    if kind_at(t, pos) != TokenKind::Lparen {
        Err(unexpected(t, pos, TokenKind::Lparen))
    } else {
        match arguments(t, pos + 1, Seq::empty()) {
            Ok((args, next)) => match left {
                ExpressionView::Identifier(name) => Ok((ExpressionView::Call { name, args }, next)),
                _ => Err(error_at(t, next, ParseErrorKind::CallOnNonIdentifier)),
            },
            Err(error) => Err(error),
        }
    }
}

/// `left` combined with the expression after the operator at `pos`: an
/// assignment takes all that follows, a binary operator what binds more
/// strongly than itself.
pub open spec fn infix_expression(t: Seq<TokenView>, pos: int, left: ExpressionView) -> Parsed<
    ExpressionView,
>
    decreases t.len() - pos, 0nat,
{
    let kind = kind_at(t, pos);
    if kind == TokenKind::Assign {
        match expression(t, pos + 1, Precedence::Iota) {
            Ok((right, next)) => Ok(
                (ExpressionView::Assign(Box::new(left), Box::new(right)), next),
            ),
            Err(error) => Err(error),
        }
    } else if is_binary_operator(kind) {
        match expression(t, pos + 1, Precedence::of_kind(kind)) {
            Ok((right, next)) => Ok(
                (ExpressionView::BinOp(Box::new(left), kind, Box::new(right)), next),
            ),
            Err(error) => Err(error),
        }
    } else {
        Err(unexpected(t, pos, TokenKind::Assign))
    }
}

/// `done`, followed by the arguments of a call from `pos` up to the closing
/// parenthesis. A comma may follow each argument.
pub open spec fn arguments(t: Seq<TokenView>, pos: int, done: Seq<ExpressionView>) -> Parsed<
    Seq<ExpressionView>,
>
    decreases t.len() - pos, 3nat,
{
    if kind_at(t, pos) == TokenKind::Rparen {
        Ok((done, pos + 1))
    } else {
        match forward(t, pos, expression(t, pos, Precedence::Iota)) {
            Ok((arg, next)) => arguments(
                t,
                if kind_at(t, next) == TokenKind::Comma {
                    next + 1
                } else {
                    next
                },
                done.push(arg),
            ),
            Err(error) => Err(error),
        }
    }
}

/// `var` NAME `=` expression.
pub open spec fn var_declaration(t: Seq<TokenView>, pos: int) -> Parsed<StatementView> {
    if kind_at(t, pos) != TokenKind::Var {
        Err(unexpected(t, pos, TokenKind::Var))
    } else if kind_at(t, pos + 1) != TokenKind::Identifier {
        Err(unexpected(t, pos + 1, TokenKind::Identifier))
    } else if kind_at(t, pos + 2) != TokenKind::Assign {
        Err(unexpected(t, pos + 2, TokenKind::Assign))
    } else {
        match expression(t, pos + 3, Precedence::Iota) {
            Ok((value, next)) => Ok(
                (StatementView::VarDeclaration { name: text_at(t, pos + 1), value }, next),
            ),
            Err(error) => Err(error),
        }
    }
}

/// `return` expression.
pub open spec fn return_statement(t: Seq<TokenView>, pos: int) -> Parsed<StatementView> {
    if kind_at(t, pos) != TokenKind::Return {
        Err(unexpected(t, pos, TokenKind::Return))
    } else {
        match expression(t, pos + 1, Precedence::Iota) {
            Ok((value, next)) => Ok((StatementView::Return(value), next)),
            Err(error) => Err(error),
        }
    }
}

/// An expression as a statement.
pub open spec fn expression_statement(t: Seq<TokenView>, pos: int) -> Parsed<StatementView> {
    match expression(t, pos, Precedence::Iota) {
        Ok((value, next)) => Ok((StatementView::Expression(value), next)),
        Err(error) => Err(error),
    }
}

/// The statement of a block that starts at `pos`.
pub open spec fn statement(t: Seq<TokenView>, pos: int) -> Parsed<StatementView>
    decreases t.len() - pos, 5nat,
{
    let kind = kind_at(t, pos);
    if kind == TokenKind::Var {
        var_declaration(t, pos)
    } else if kind == TokenKind::Return {
        return_statement(t, pos)
    } else if kind == TokenKind::While {
        while_statement(t, pos)
    } else if kind == TokenKind::Lbrace {
        match block(t, pos) {
            Ok((body, next)) => Ok((StatementView::Block(body), next)),
            Err(error) => Err(error),
        }
    } else {
        expression_statement(t, pos)
    }
}

/// `while` expression block.
pub open spec fn while_statement(t: Seq<TokenView>, pos: int) -> Parsed<StatementView>
    decreases t.len() - pos, 4nat,
{
    if kind_at(t, pos) != TokenKind::While {
        Err(unexpected(t, pos, TokenKind::While))
    } else {
        match forward(t, pos, expression(t, pos + 1, Precedence::Iota)) {
            Ok((condition, next)) => match block(t, next) {
                Ok((body, after)) => Ok((StatementView::While { condition, body }, after)),
                Err(error) => Err(error),
            },
            Err(error) => Err(error),
        }
    }
}

/// `{` statements `}`.
pub open spec fn block(t: Seq<TokenView>, pos: int) -> Parsed<Seq<StatementView>>
    decreases t.len() - pos, 4nat,
{
    if kind_at(t, pos) != TokenKind::Lbrace {
        Err(unexpected(t, pos, TokenKind::Lbrace))
    } else {
        block_items(t, pos + 1, Seq::empty())
    }
}

/// `done`, followed by the statements of a block from `pos` up to the
/// closing brace.
pub open spec fn block_items(t: Seq<TokenView>, pos: int, done: Seq<StatementView>) -> Parsed<
    Seq<StatementView>,
>
    decreases t.len() - pos, 6nat,
{
    if kind_at(t, pos) == TokenKind::Rbrace {
        Ok((done, pos + 1))
    } else {
        match forward(t, pos, statement(t, pos)) {
            Ok((item, next)) => block_items(t, next, done.push(item)),
            Err(error) => Err(error),
        }
    }
}

/// `done`, followed by the parameters of a function from `pos` up to the
/// closing parenthesis. A comma may stand before a parameter and before the
/// closing parenthesis.
pub open spec fn parameters(t: Seq<TokenView>, pos: int, done: Seq<Seq<char>>) -> Parsed<
    Seq<Seq<char>>,
>
    decreases t.len() - pos,
{
    let kind = kind_at(t, pos);
    if kind == TokenKind::Rparen {
        Ok((done, pos + 1))
    } else if kind == TokenKind::Comma {
        let follows = kind_at(t, pos + 1);
        if follows == TokenKind::Identifier || follows == TokenKind::Rparen {
            parameters(t, pos + 1, done)
        } else if pos + 1 >= t.len() {
            Err(error_at(t, pos, ParseErrorKind::PastEnd))
        } else {
            Err(
                error_at(
                    t,
                    pos,
                    ParseErrorKind::ExpectedNext {
                        expected: TokenKind::Identifier,
                        found: follows,
                    },
                ),
            )
        }
    } else if kind == TokenKind::Identifier {
        parameters(t, pos + 1, done.push(text_at(t, pos)))
    } else {
        Err(unexpected(t, pos, TokenKind::Identifier))
    }
}

/// `fn` NAME `(` parameters `)` block.
pub open spec fn function_declaration(t: Seq<TokenView>, pos: int) -> Parsed<StatementView> {
    if kind_at(t, pos) != TokenKind::Fn {
        Err(unexpected(t, pos, TokenKind::Fn))
    } else if kind_at(t, pos + 1) != TokenKind::Identifier {
        Err(unexpected(t, pos + 1, TokenKind::Identifier))
    } else if kind_at(t, pos + 2) != TokenKind::Lparen {
        Err(unexpected(t, pos + 2, TokenKind::Lparen))
    } else {
        match parameters(t, pos + 3, Seq::empty()) {
            Ok((params, next)) => match block(t, next) {
                Ok((body, after)) => Ok(
                    (
                        StatementView::FunctionDeclaration {
                            name: text_at(t, pos + 1),
                            params,
                            body,
                        },
                        after,
                    ),
                ),
                Err(error) => Err(error),
            },
            Err(error) => Err(error),
        }
    }
}

/// The top-level statement that starts at `pos`, which is no semicolon.
pub open spec fn top_level(t: Seq<TokenView>, pos: int) -> Parsed<StatementView> {
    let kind = kind_at(t, pos);
    if kind == TokenKind::Var {
        var_declaration(t, pos)
    } else if kind == TokenKind::Fn {
        function_declaration(t, pos)
    } else if kind == TokenKind::While {
        while_statement(t, pos)
    } else if kind == TokenKind::Lbrace {
        match block(t, pos) {
            Ok((body, next)) => Ok((StatementView::Block(body), next)),
            Err(error) => Err(error),
        }
    } else {
        expression_statement(t, pos)
    }
}

/// `done`, followed by the top-level statements from `pos` up to the end of
/// input, each with the token that it starts with. Semicolons between them
/// are skipped.
pub open spec fn program(
    t: Seq<TokenView>,
    pos: int,
    done: Seq<(StatementView, TokenView)>,
) -> Result<Seq<(StatementView, TokenView)>, ParseError>
    decreases t.len() - pos,
{
    let kind = kind_at(t, pos);
    if kind == TokenKind::EOF {
        Ok(done)
    } else if kind == TokenKind::Semicolon {
        program(t, pos + 1, done)
    } else {
        match forward(t, pos, top_level(t, pos)) {
            Ok((item, next)) => program(t, next, done.push((item, t[pos]))),
            Err(error) => Err(error),
        }
    }
}


/// `parsed` went on from `pos` to a later token.
pub open spec fn advances<T>(t: Seq<TokenView>, pos: int, parsed: Parsed<T>) -> bool {
    match parsed {
        Ok((_, next)) => pos < next <= t.len(),
        Err(_) => true,
    }
}

/// An expression takes at least one token.
pub proof fn lemma_expression_advances(t: Seq<TokenView>, pos: int, prec: Precedence)
    ensures
        advances(t, pos, expression(t, pos, prec)),
    decreases t.len() - pos, 2nat,
{
    let kind = kind_at(t, pos);
    if kind == TokenKind::Minus && is_number(kind_at(t, pos + 1)) {
        lemma_climb_advances(
            t,
            pos + 2,
            prec,
            ExpressionView::Number("-"@ + text_at(t, pos + 1)),
        );
    } else if kind == TokenKind::Lparen {
        lemma_expression_advances(t, pos + 1, Precedence::Iota);
        match forward(t, pos, expression(t, pos + 1, Precedence::Iota)) {
            Ok((inner, close)) => {
                if kind_at(t, close) == TokenKind::Rparen {
                    lemma_climb_advances(t, close + 1, prec, inner);
                }
            },
            Err(_) => {},
        }
    } else if kind != TokenKind::EOF {
        let left = if is_number(kind) {
            ExpressionView::Number(text_at(t, pos))
        } else if kind == TokenKind::Identifier {
            ExpressionView::Identifier(text_at(t, pos))
        } else if kind == TokenKind::String {
            ExpressionView::Str(text_at(t, pos))
        } else {
            ExpressionView::Bool(kind == TokenKind::True)
        };
        lemma_climb_advances(t, pos + 1, prec, left);
    }
}

/// What follows an expression ends at or after the place where it starts.
pub proof fn lemma_climb_advances(
    t: Seq<TokenView>,
    pos: int,
    prec: Precedence,
    left: ExpressionView,
)
    requires
        0 <= pos <= t.len(),
    ensures
        climb(t, pos, prec, left) matches Ok((_, next)) ==> pos <= next <= t.len(),
    decreases t.len() - pos, 1nat,
{
    let kind = kind_at(t, pos);
    if kind != TokenKind::EOF && prec.level() < Precedence::of_kind(kind).level() {
        if kind == TokenKind::Lparen {
            lemma_postfix_advances(t, pos, left);
            match forward(t, pos, postfix_expression(t, pos, left)) {
                Ok((called, next)) => {
                    lemma_climb_advances(t, next, prec, called);
                },
                Err(_) => {},
            }
        } else if is_binary_operator(kind) || kind == TokenKind::Assign {
            lemma_infix_advances(t, pos, left);
            match forward(t, pos, infix_expression(t, pos, left)) {
                Ok((combined, next)) => {
                    lemma_climb_advances(t, next, prec, combined);
                },
                Err(_) => {},
            }
        }
    }
}

/// A call takes at least its parentheses.
pub proof fn lemma_postfix_advances(t: Seq<TokenView>, pos: int, left: ExpressionView)
    ensures
        advances(t, pos, postfix_expression(t, pos, left)),
    decreases t.len() - pos, 0nat,
{
    if kind_at(t, pos) == TokenKind::Lparen {
        lemma_arguments_advance(t, pos + 1, Seq::empty());
    }
}

/// An operator and its right operand take at least two tokens.
pub proof fn lemma_infix_advances(t: Seq<TokenView>, pos: int, left: ExpressionView)
    ensures
        advances(t, pos, infix_expression(t, pos, left)),
    decreases t.len() - pos, 0nat,
{
    let kind = kind_at(t, pos);
    if kind == TokenKind::Assign {
        lemma_expression_advances(t, pos + 1, Precedence::Iota);
    } else if is_binary_operator(kind) {
        lemma_expression_advances(t, pos + 1, Precedence::of_kind(kind));
    }
}

/// The arguments of a call take at least the closing parenthesis.
pub proof fn lemma_arguments_advance(t: Seq<TokenView>, pos: int, done: Seq<ExpressionView>)
    ensures
        advances(t, pos, arguments(t, pos, done)),
    decreases t.len() - pos, 3nat,
{
    if kind_at(t, pos) != TokenKind::Rparen {
        lemma_expression_advances(t, pos, Precedence::Iota);
        match forward(t, pos, expression(t, pos, Precedence::Iota)) {
            Ok((arg, next)) => {
                let after = if kind_at(t, next) == TokenKind::Comma {
                    next + 1
                } else {
                    next
                };
                lemma_arguments_advance(t, after, done.push(arg));
            },
            Err(_) => {},
        }
    }
}

/// A statement takes at least one token.
pub proof fn lemma_statement_advances(t: Seq<TokenView>, pos: int)
    ensures
        advances(t, pos, statement(t, pos)),
    decreases t.len() - pos, 5nat,
{
    let kind = kind_at(t, pos);
    if kind == TokenKind::Var {
        lemma_expression_advances(t, pos + 3, Precedence::Iota);
    } else if kind == TokenKind::Return {
        lemma_expression_advances(t, pos + 1, Precedence::Iota);
    } else if kind == TokenKind::While {
        lemma_while_advances(t, pos);
    } else if kind == TokenKind::Lbrace {
        lemma_block_advances(t, pos);
    } else {
        lemma_expression_advances(t, pos, Precedence::Iota);
    }
}

/// A loop takes at least one token.
pub proof fn lemma_while_advances(t: Seq<TokenView>, pos: int)
    ensures
        advances(t, pos, while_statement(t, pos)),
    decreases t.len() - pos, 4nat,
{
    if kind_at(t, pos) == TokenKind::While {
        lemma_expression_advances(t, pos + 1, Precedence::Iota);
        match forward(t, pos, expression(t, pos + 1, Precedence::Iota)) {
            Ok((condition, next)) => {
                lemma_block_advances(t, next);
            },
            Err(_) => {},
        }
    }
}

/// A block takes at least its braces.
pub proof fn lemma_block_advances(t: Seq<TokenView>, pos: int)
    ensures
        advances(t, pos, block(t, pos)),
    decreases t.len() - pos, 4nat,
{
    if kind_at(t, pos) == TokenKind::Lbrace {
        lemma_block_items_advance(t, pos + 1, Seq::empty());
    }
}

/// The statements of a block take at least the closing brace.
pub proof fn lemma_block_items_advance(t: Seq<TokenView>, pos: int, done: Seq<StatementView>)
    ensures
        advances(t, pos, block_items(t, pos, done)),
    decreases t.len() - pos, 6nat,
{
    if kind_at(t, pos) != TokenKind::Rbrace {
        lemma_statement_advances(t, pos);
        match forward(t, pos, statement(t, pos)) {
            Ok((item, next)) => {
                lemma_block_items_advance(t, next, done.push(item));
            },
            Err(_) => {},
        }
    }
}

/// The parameters of a function take at least the closing parenthesis.
pub proof fn lemma_parameters_advance(t: Seq<TokenView>, pos: int, done: Seq<Seq<char>>)
    ensures
        advances(t, pos, parameters(t, pos, done)),
    decreases t.len() - pos,
{
    let kind = kind_at(t, pos);
    if kind == TokenKind::Comma {
        let follows = kind_at(t, pos + 1);
        if follows == TokenKind::Identifier || follows == TokenKind::Rparen {
            lemma_parameters_advance(t, pos + 1, done);
        }
    } else if kind == TokenKind::Identifier {
        lemma_parameters_advance(t, pos + 1, done.push(text_at(t, pos)));
    }
}

/// A top-level statement takes at least one token.
pub proof fn lemma_top_level_advances(t: Seq<TokenView>, pos: int)
    ensures
        advances(t, pos, top_level(t, pos)),
{
    let kind = kind_at(t, pos);
    if kind == TokenKind::Var {
        lemma_expression_advances(t, pos + 3, Precedence::Iota);
    } else if kind == TokenKind::Fn {
        lemma_parameters_advance(t, pos + 3, Seq::empty());
        match parameters(t, pos + 3, Seq::empty()) {
            Ok((params, next)) => {
                lemma_block_advances(t, next);
            },
            Err(_) => {},
        }
    } else if kind == TokenKind::While {
        lemma_while_advances(t, pos);
    } else if kind == TokenKind::Lbrace {
        lemma_block_advances(t, pos);
    } else {
        lemma_expression_advances(t, pos, Precedence::Iota);
    }
}

/// Every part of the grammar goes forward where it succeeds. So `forward`
/// changes no result that the grammar passes to it.
pub proof fn lemma_grammar_goes_forward(
    t: Seq<TokenView>,
    pos: int,
    prec: Precedence,
    left: ExpressionView,
)
    ensures
        forward(t, pos, expression(t, pos, prec)) == expression(t, pos, prec),
        forward(t, pos, postfix_expression(t, pos, left)) == postfix_expression(t, pos, left),
        forward(t, pos, infix_expression(t, pos, left)) == infix_expression(t, pos, left),
        forward(t, pos, statement(t, pos)) == statement(t, pos),
        forward(t, pos, top_level(t, pos)) == top_level(t, pos),
{
    lemma_expression_advances(t, pos, prec);
    lemma_postfix_advances(t, pos, left);
    lemma_infix_advances(t, pos, left);
    lemma_statement_advances(t, pos);
    lemma_top_level_advances(t, pos);
}

} // verus!

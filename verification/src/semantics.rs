//! What a program means: the evaluation of expressions and the execution of
//! statements, as functions on mathematical values.
//!
//! Evaluation is bounded by `fuel`, which limits how deeply calls, blocks and
//! expressions may nest and how often a loop may run; where it runs out, the
//! outcome is the failure `Exhausted`.

use vstd::prelude::*;
use crate::ast::{ExpressionView, StatementView};
use crate::context::{ContextView, bind_at, declare, lookup, owner};
use crate::host::{Arithmetic, NumberReplyView, NumberRequestView};
use crate::object::{FunctionDefView, NativeFunctionCallback, ObjectView};
use crate::token::{TokenKind, TokenView};

verus! {

/// Why a run failed.
pub ghost enum RuntimeErrorKindView {
    UndefinedIdentifier(Seq<char>),
    UnsupportedOperation { op: TokenKind, left: ObjectView, right: ObjectView },
    NoArguments(Seq<char>),
    ArityMismatch { args: nat, params: nat },
    NotAFunction(Seq<char>),
    UndefinedFunction(Seq<char>),
    NotABoolean,
    UndeclaredAssignment(Seq<char>),
    NotAnIdentifier,
    InvalidNumber(Seq<char>),
    BadReply,
    Unprintable,
    Exhausted,
}

/// A failure with the position of the top-level statement that it occurred in.
pub ghost struct RuntimeErrorView {
    pub kind: RuntimeErrorKindView,
    pub ln: int,
    pub col: int,
}

/// The state of a run: the scope stack and the output so far.
pub ghost struct Machine {
    pub frames: ContextView,
    pub stdout: Seq<char>,
}

/// How the execution of a statement ends.
pub ghost enum Flow {
    /// It ran to its end.
    Normal,
    /// It met a `return`, with this value.
    Returned(ObjectView),
    /// It failed.
    Failed(RuntimeErrorKindView),
}

pub type Evaluated = (Result<ObjectView, RuntimeErrorKindView>, Machine);

pub type Executed = (Flow, Machine);

impl Machine {
    /// The machine with an empty frame pushed.
    pub open spec fn enter(self) -> Machine {
        Machine { frames: self.frames.push(Map::empty()), ..self }
    }

    /// The machine with its innermost frame popped.
    pub open spec fn exit(self) -> Machine {
        Machine { frames: self.frames.drop_last(), ..self }
    }

    /// The machine with `name` declared in its innermost frame.
    pub open spec fn declare(self, name: Seq<char>, value: ObjectView) -> Machine {
        Machine { frames: declare(self.frames, name, value), ..self }
    }

    /// The machine with `text` added to its output.
    pub open spec fn write(self, text: Seq<char>) -> Machine {
        Machine { stdout: self.stdout + text, ..self }
    }
}

/// The value of the numeric literal `text`, given the host's reply to it.
pub open spec fn literal_result(text: Seq<char>, reply: NumberReplyView) -> Result<
    ObjectView,
    RuntimeErrorKindView,
> {
    match reply {
        NumberReplyView::Number(bits) => Ok(ObjectView::Number(bits)),
        NumberReplyView::Invalid => Err(RuntimeErrorKindView::InvalidNumber(text)),
        _ => Err(RuntimeErrorKindView::BadReply),
    }
}

/// The number that the literal `text` denotes.
pub open spec fn number_literal(a: Arithmetic, text: Seq<char>) -> Result<
    ObjectView,
    RuntimeErrorKindView,
> {
    literal_result(text, a(NumberRequestView::Parse(text)))
}

/// The value that the host's reply to an addition or subtraction stands for.
pub open spec fn number_of(reply: NumberReplyView) -> Result<ObjectView, RuntimeErrorKindView> {
    match reply {
        NumberReplyView::Number(bits) => Ok(ObjectView::Number(bits)),
        _ => Err(RuntimeErrorKindView::BadReply),
    }
}

/// The value that the host's reply to a comparison stands for.
pub open spec fn truth_of(reply: NumberReplyView) -> Result<ObjectView, RuntimeErrorKindView> {
    match reply {
        NumberReplyView::Truth(b) => Ok(ObjectView::Bool(b)),
        _ => Err(RuntimeErrorKindView::BadReply),
    }
}

/// The question that a binary operation on two numbers puts to the host, for
/// the operators that numbers support.
pub open spec fn numeric_request(op: TokenKind, left: u64, right: u64) -> Option<
    NumberRequestView,
> {
    match op {
        TokenKind::Plus => Some(NumberRequestView::Add(left, right)),
        TokenKind::Minus => Some(NumberRequestView::Subtract(left, right)),
        TokenKind::Equals => Some(NumberRequestView::Equal(left, right)),
        TokenKind::LessThan => Some(NumberRequestView::Less(left, right)),
        _ => None,
    }
}

/// The value of a binary operation on two values, given the host's reply
/// where the operation is one on numbers.
pub open spec fn binary_result(
    left: ObjectView,
    op: TokenKind,
    right: ObjectView,
    reply: Option<NumberReplyView>,
) -> Result<ObjectView, RuntimeErrorKindView> {
    match (left, op, right, reply) {
        (ObjectView::Number(_), TokenKind::Plus, ObjectView::Number(_), Some(reply)) => number_of(
            reply,
        ),
        (ObjectView::Number(_), TokenKind::Minus, ObjectView::Number(_), Some(reply)) => number_of(
            reply,
        ),
        (ObjectView::Number(_), TokenKind::Equals, ObjectView::Number(_), Some(reply)) => truth_of(
            reply,
        ),
        (
            ObjectView::Number(_),
            TokenKind::LessThan,
            ObjectView::Number(_),
            Some(reply),
        ) => truth_of(reply),
        (ObjectView::Bool(l), TokenKind::Equals, ObjectView::Bool(r), _) => Ok(
            ObjectView::Bool(l == r),
        ),
        _ => Err(RuntimeErrorKindView::UnsupportedOperation { op, left, right }),
    }
}

/// The value of a binary operation on two values.
pub open spec fn binary(a: Arithmetic, left: ObjectView, op: TokenKind, right: ObjectView) -> Result<
    ObjectView,
    RuntimeErrorKindView,
> {
    let reply = match (left, right) {
        (ObjectView::Number(l), ObjectView::Number(r)) => match numeric_request(op, l, r) {
            Some(request) => Some(a(request)),
            None => None,
        },
        _ => None,
    };
    binary_result(left, op, right, reply)
}

/// The machine after an assignment of `value` to `target`: the innermost
/// binding of the name is overwritten in the frame that holds it.
pub open spec fn assign(target: ExpressionView, value: ObjectView, m: Machine) -> Evaluated {
    match target {
        ExpressionView::Identifier(name) => match owner(m.frames, name) {
            Some(index) => (
                Ok(ObjectView::Unit),
                Machine { frames: bind_at(m.frames, name, value, index), ..m },
            ),
            None => (Err(RuntimeErrorKindView::UndeclaredAssignment(name)), m),
        },
        _ => (Err(RuntimeErrorKindView::NotAnIdentifier), m),
    }
}

/// The string form of a value, given the host's reply where the value is a
/// number.
pub open spec fn render_result(value: ObjectView, reply: Option<NumberReplyView>) -> Result<
    Seq<char>,
    RuntimeErrorKindView,
> {
    match value {
        ObjectView::Bool(b) => Ok(
            if b {
                "true"@
            } else {
                "false"@
            },
        ),
        ObjectView::Str(text) => Ok(text),
        ObjectView::Number(_) => match reply {
            Some(NumberReplyView::Text(text)) => Ok(text),
            _ => Err(RuntimeErrorKindView::BadReply),
        },
        _ => Err(RuntimeErrorKindView::Unprintable),
    }
}

/// The string form of a value.
pub open spec fn render(a: Arithmetic, value: ObjectView) -> Result<
    Seq<char>,
    RuntimeErrorKindView,
> {
    let reply = match value {
        ObjectView::Number(bits) => Some(a(NumberRequestView::Format(bits))),
        _ => None,
    };
    render_result(value, reply)
}

/// `done`, followed by the string forms of the values from index `from` on.
pub open spec fn render_all(a: Arithmetic, values: Seq<ObjectView>, from: nat, done: Seq<char>) -> Result<
    Seq<char>,
    RuntimeErrorKindView,
>
    decreases values.len() - from,
{
    if from >= values.len() {
        Ok(done)
    } else {
        match render(a, values[from as int]) {
            Ok(text) => render_all(a, values, from + 1, done + text),
            Err(kind) => Err(kind),
        }
    }
}

/// A call of a native function: the output grows by the string forms of the
/// arguments, and by a newline for `println`.
pub open spec fn call_native(
    a: Arithmetic,
    callback: NativeFunctionCallback,
    args: Seq<ObjectView>,
    m: Machine,
) -> Evaluated {
    match render_all(a, args, 0, Seq::empty()) {
        Ok(text) => match callback {
            NativeFunctionCallback::Print => (Ok(ObjectView::Unit), m.write(text)),
            NativeFunctionCallback::Println => (
                Ok(ObjectView::Unit),
                m.write(text).write("\n"@),
            ),
        },
        Err(kind) => (Err(kind), m),
    }
}

/// The frames with the parameters from index `from` on bound to their
/// arguments in the innermost frame.
pub open spec fn bind_parameters(
    frames: ContextView,
    params: Seq<Seq<char>>,
    args: Seq<ObjectView>,
    from: nat,
) -> ContextView
    decreases params.len() - from,
{
    if from >= params.len() {
        frames
    } else {
        bind_parameters(declare(frames, params[from as int], args[from as int]), params, args, from + 1)
    }
}

/// What a function's body hands to its caller.
pub open spec fn call_result(flow: Flow) -> Result<ObjectView, RuntimeErrorKindView> {
    match flow {
        Flow::Normal => Ok(ObjectView::Unit),
        Flow::Returned(value) => Ok(value),
        Flow::Failed(kind) => Err(kind),
    }
}

/// The value of an expression and the machine after its evaluation.
pub open spec fn eval_expression(a: Arithmetic, e: ExpressionView, m: Machine, fuel: nat) -> Evaluated
    decreases fuel, 0nat,
{
    if fuel == 0 {
        (Err(RuntimeErrorKindView::Exhausted), m)
    } else {
        match e {
            ExpressionView::Bool(b) => (Ok(ObjectView::Bool(b)), m),
            ExpressionView::Number(text) => (number_literal(a, text), m),
            ExpressionView::Str(text) => (Ok(ObjectView::Str(text)), m),
            ExpressionView::Identifier(name) => match lookup(m.frames, name) {
                Some(value) => (Ok(value), m),
                None => (Err(RuntimeErrorKindView::UndefinedIdentifier(name)), m),
            },
            ExpressionView::BinOp(left, op, right) => {
                let (l, m1) = eval_expression(a, *left, m, (fuel - 1) as nat);
                match l {
                    Ok(l) => {
                        let (r, m2) = eval_expression(a, *right, m1, (fuel - 1) as nat);
                        match r {
                            Ok(r) => (binary(a, l, op, r), m2),
                            Err(kind) => (Err(kind), m2),
                        }
                    },
                    Err(kind) => (Err(kind), m1),
                }
            },
            ExpressionView::Call { name, args } => {
                let (values, m1) = eval_arguments(a, args, 0, Seq::empty(), m, (fuel - 1) as nat);
                match values {
                    Ok(values) => call(a, name, values, m1, (fuel - 1) as nat),
                    Err(kind) => (Err(kind), m1),
                }
            },
            ExpressionView::Assign(target, value) => {
                let (v, m1) = eval_expression(a, *value, m, (fuel - 1) as nat);
                match v {
                    Ok(v) => assign(*target, v, m1),
                    Err(kind) => (Err(kind), m1),
                }
            },
        }
    }
}

/// `done`, followed by the values of the arguments from index `from` on,
/// evaluated from left to right.
pub open spec fn eval_arguments(
    a: Arithmetic,
    args: Seq<ExpressionView>,
    from: nat,
    done: Seq<ObjectView>,
    m: Machine,
    fuel: nat,
) -> (Result<Seq<ObjectView>, RuntimeErrorKindView>, Machine)
    decreases fuel, args.len() - from + 1,
{
    if from >= args.len() {
        (Ok(done), m)
    } else {
        let (v, m1) = eval_expression(a, args[from as int], m, fuel);
        match v {
            Ok(v) => eval_arguments(a, args, from + 1, done.push(v), m1, fuel),
            Err(kind) => (Err(kind), m1),
        }
    }
}

/// A call of the function that `name` is bound to, with the values `args`.
pub open spec fn call(a: Arithmetic, name: Seq<char>, args: Seq<ObjectView>, m: Machine, fuel: nat) -> Evaluated
    decreases fuel, 0nat,
{
    if fuel == 0 {
        (Err(RuntimeErrorKindView::Exhausted), m)
    } else {
        match lookup(m.frames, name) {
            None => (Err(RuntimeErrorKindView::UndefinedFunction(name)), m),
            Some(ObjectView::NativeFunction(def)) => {
                if args.len() < 1 {
                    (Err(RuntimeErrorKindView::NoArguments(name)), m)
                } else {
                    call_native(a, def.callback, args, m)
                }
            },
            Some(ObjectView::Function(def)) => {
                if def.params.len() != args.len() {
                    (
                        Err(
                            RuntimeErrorKindView::ArityMismatch {
                                args: args.len(),
                                params: def.params.len(),
                            },
                        ),
                        m,
                    )
                } else {
                    let entered = Machine {
                        frames: bind_parameters(m.enter().frames, def.params, args, 0),
                        ..m
                    };
                    let (flow, left) = exec_statements(a, def.body, 0, entered, (fuel - 1) as nat);
                    (call_result(flow), left.exit())
                }
            },
            Some(_) => (Err(RuntimeErrorKindView::NotAFunction(name)), m),
        }
    }
}

/// How a statement ends, and the machine after it.
pub open spec fn exec_statement(a: Arithmetic, s: StatementView, m: Machine, fuel: nat) -> Executed
    decreases fuel, 0nat,
{
    if fuel == 0 {
        (Flow::Failed(RuntimeErrorKindView::Exhausted), m)
    } else {
        match s {
            StatementView::Expression(e) => {
                let (v, m1) = eval_expression(a, e, m, (fuel - 1) as nat);
                match v {
                    Ok(_) => (Flow::Normal, m1),
                    Err(kind) => (Flow::Failed(kind), m1),
                }
            },
            StatementView::VarDeclaration { name, value } => {
                let (v, m1) = eval_expression(a, value, m, (fuel - 1) as nat);
                match v {
                    Ok(v) => (Flow::Normal, m1.declare(name, v)),
                    Err(kind) => (Flow::Failed(kind), m1),
                }
            },
            StatementView::FunctionDeclaration { name, params, body } => (
                Flow::Normal,
                m.declare(name, ObjectView::Function(FunctionDefView { name, params, body })),
            ),
            StatementView::While { condition, body } => {
                let (flow, m1) = exec_while(a, condition, body, m.enter(), (fuel - 1) as nat);
                (flow, m1.exit())
            },
            StatementView::Return(e) => {
                let (v, m1) = eval_expression(a, e, m, (fuel - 1) as nat);
                match v {
                    Ok(v) => (Flow::Returned(v), m1),
                    Err(kind) => (Flow::Failed(kind), m1),
                }
            },
            StatementView::Block(body) => {
                let (flow, m1) = exec_statements(a, body, 0, m.enter(), (fuel - 1) as nat);
                (flow, m1.exit())
            },
        }
    }
}

/// How the statements from index `from` on end: at the first that does not
/// end normally, or after the last.
pub open spec fn exec_statements(
    a: Arithmetic,
    statements: Seq<StatementView>,
    from: nat,
    m: Machine,
    fuel: nat,
) -> Executed
    decreases fuel, statements.len() - from + 1,
{
    if from >= statements.len() {
        (Flow::Normal, m)
    } else {
        let (flow, m1) = exec_statement(a, statements[from as int], m, fuel);
        match flow {
            Flow::Normal => exec_statements(a, statements, from + 1, m1, fuel),
            _ => (flow, m1),
        }
    }
}

/// How a loop ends, in the frame that was pushed for it: when its condition
/// is false, or when its body does not end normally.
pub open spec fn exec_while(
    a: Arithmetic,
    condition: ExpressionView,
    body: Seq<StatementView>,
    m: Machine,
    fuel: nat,
) -> Executed
    decreases fuel, 0nat,
{
    if fuel == 0 {
        (Flow::Failed(RuntimeErrorKindView::Exhausted), m)
    } else {
        let (c, m1) = eval_expression(a, condition, m, (fuel - 1) as nat);
        match c {
            Ok(ObjectView::Bool(false)) => (Flow::Normal, m1),
            Ok(ObjectView::Bool(true)) => {
                let (flow, m2) = exec_statements(a, body, 0, m1, (fuel - 1) as nat);
                match flow {
                    Flow::Normal => exec_while(a, condition, body, m2, (fuel - 1) as nat),
                    _ => (flow, m2),
                }
            },
            Ok(_) => (Flow::Failed(RuntimeErrorKindView::NotABoolean), m1),
            Err(kind) => (Flow::Failed(kind), m1),
        }
    }
}

/// The outcome of the top-level statements from index `from` on: the first
/// failure, with the position of the statement that it occurred in, or
/// success after the last. A value returned at the top level is dropped.
pub open spec fn run_from(
    a: Arithmetic,
    program: Seq<(StatementView, TokenView)>,
    from: nat,
    m: Machine,
    fuel: nat,
) -> (Result<(), RuntimeErrorView>, Machine)
    decreases program.len() - from,
{
    if from >= program.len() {
        (Ok(()), m)
    } else {
        let (flow, m1) = exec_statement(a, program[from as int].0, m, fuel);
        match flow {
            Flow::Failed(kind) => (
                Err(
                    RuntimeErrorView {
                        kind,
                        ln: program[from as int].1.ln,
                        col: program[from as int].1.col,
                    },
                ),
                m1,
            ),
            _ => run_from(a, program, from + 1, m1, fuel),
        }
    }
}

/// The index of the top-level statement after the last that runs: the length
/// of the program, or the index after the statement that fails.
pub open spec fn run_end(
    a: Arithmetic,
    program: Seq<(StatementView, TokenView)>,
    from: nat,
    m: Machine,
    fuel: nat,
) -> nat
    decreases program.len() - from,
{
    if from >= program.len() {
        from
    } else {
        let (flow, m1) = exec_statement(a, program[from as int].0, m, fuel);
        match flow {
            Flow::Failed(_) => from + 1,
            _ => run_end(a, program, from + 1, m1, fuel),
        }
    }
}

/// The machine that a run starts with: the global frame holds the native
/// functions, and nothing has been written.
pub open spec fn initial_machine() -> Machine {
    Machine { frames: seq![crate::stdlib::library()], stdout: Seq::empty() }
}

} // verus!

//! Laws of the language.
//!
//! Scoping: what blocks, loops, calls, declarations and assignments do to the
//! names that a program can see. Return: a `return` ends the call that it
//! stands in. Numbers: an operation on numbers is the host's. Bounds: fuel
//! only bounds a run, and an arithmetic whose answers are in kind never
//! misleads it.

use vstd::prelude::*;
use crate::ast::{ExpressionView, StatementView};
use crate::context::{ContextView, bind_at, declare, lookup, owner};
use crate::host::{Arithmetic, NumberRequestView};
use crate::object::ObjectView;
use crate::semantics::{
    Flow, Machine, RuntimeErrorKindView, assign, bind_parameters, binary, call, eval_arguments,
    eval_expression, exec_statement, exec_statements, exec_while, number_of, render, render_all,
    truth_of,
};
use crate::token::TokenKind;

verus! {

/// The names that each frame binds, outermost frame first.
pub open spec fn names(frames: ContextView) -> Seq<Set<Seq<char>>> {
    Seq::new(frames.len(), |i: int| frames[i].dom())
}

/// The innermost frame that binds a name holds the value that the name has,
/// and no frame inside it binds the name. Where no frame binds the name, it
/// has no value.
pub proof fn lemma_owner(frames: ContextView, name: Seq<char>)
    ensures
        match owner(frames, name) {
            Some(index) => {
                &&& 0 <= index < frames.len()
                &&& frames[index].contains_key(name)
                &&& forall|j: int| index < j < frames.len() ==> !frames[j].contains_key(name)
                &&& lookup(frames, name) == Some(frames[index][name])
            },
            None => {
                &&& forall|j: int| 0 <= j < frames.len() ==> !frames[j].contains_key(name)
                &&& lookup(frames, name) is None
            },
        },
    decreases frames.len(),
{
    if frames.len() > 0 && !frames.last().contains_key(name) {
        lemma_owner(frames.drop_last(), name);
        match owner(frames, name) {
            Some(index) => {
                assert forall|j: int| index < j < frames.len() implies !frames[j].contains_key(
                    name,
                ) by {
                    if j < frames.len() - 1 {
                        assert(frames.drop_last()[j] == frames[j]);
                    }
                }
            },
            None => {
                assert forall|j: int| 0 <= j < frames.len() implies !frames[j].contains_key(
                    name,
                ) by {
                    if j < frames.len() - 1 {
                        assert(frames.drop_last()[j] == frames[j]);
                    }
                }
            },
        }
    }
}

/// A binding in frame `index` is what the name has as its value where no
/// frame inside that one binds the name.
pub proof fn lemma_lookup_bound(frames: ContextView, name: Seq<char>, index: int)
    requires
        0 <= index < frames.len(),
        frames[index].contains_key(name),
        forall|j: int| index < j < frames.len() ==> !frames[j].contains_key(name),
    ensures
        lookup(frames, name) == Some(frames[index][name]),
        owner(frames, name) == Some(index),
    decreases frames.len(),
{
    if index < frames.len() - 1 {
        assert(!frames.last().contains_key(name));
        lemma_lookup_bound(frames.drop_last(), name, index);
    }
}

/// A declaration binds the name in the innermost frame and there only: the
/// name then has the declared value, whatever an outer frame binds it to, and
/// every outer frame is as it was. So the stack is as it was once the
/// innermost frame is popped.
pub proof fn lemma_declaration_shadows(frames: ContextView, name: Seq<char>, value: ObjectView)
    requires
        frames.len() >= 1,
    ensures
        declare(frames, name, value).len() == frames.len(),
        lookup(declare(frames, name, value), name) == Some(value),
        declare(frames, name, value).drop_last() == frames.drop_last(),
        declare(frames.push(Map::empty()), name, value).drop_last() == frames,
{
    let declared = declare(frames, name, value);
    lemma_lookup_bound(declared, name, frames.len() - 1);
    assert(declared.drop_last() =~= frames.drop_last());
    let entered = frames.push(Map::empty());
    assert(declare(entered, name, value).drop_last() =~= frames);
}

/// An assignment to a name overwrites the innermost binding of the name, in
/// the frame that holds it, and changes nothing else: no frame binds a name
/// that it did not bind before. Where no frame binds the name, the assignment
/// fails and changes nothing.
pub proof fn lemma_assignment(name: Seq<char>, value: ObjectView, m: Machine)
    ensures
        match owner(m.frames, name) {
            Some(index) => {
                let (result, after) = assign(ExpressionView::Identifier(name), value, m);
                &&& result == Ok::<ObjectView, RuntimeErrorKindView>(ObjectView::Unit)
                &&& 0 <= index < m.frames.len()
                &&& m.frames[index].contains_key(name)
                &&& forall|j: int| index < j < m.frames.len() ==> !m.frames[j].contains_key(name)
                &&& after.stdout == m.stdout
                &&& after.frames == m.frames.update(index, m.frames[index].insert(name, value))
                &&& names(after.frames) == names(m.frames)
                &&& lookup(after.frames, name) == Some(value)
            },
            None => {
                &&& lookup(m.frames, name) is None
                &&& assign(ExpressionView::Identifier(name), value, m) == (
                    Err::<ObjectView, RuntimeErrorKindView>(
                        RuntimeErrorKindView::UndeclaredAssignment(name),
                    ),
                    m,
                )
            },
        },
{
    lemma_owner(m.frames, name);
    match owner(m.frames, name) {
        Some(index) => {
            let after = bind_at(m.frames, name, value, index);
            lemma_lookup_bound(after, name, index);
            lemma_bind_at_names(m.frames, name, value, index);
            assert(m.frames[index].dom().insert(name) =~= m.frames[index].dom());
            assert(names(after) =~= names(m.frames));
        },
        None => {},
    }
}

/// Binding a name in one frame adds the name to that frame, and changes the
/// names of no other frame.
pub proof fn lemma_bind_at_names(frames: ContextView, name: Seq<char>, value: ObjectView, index: int)
    requires
        0 <= index < frames.len(),
    ensures
        bind_at(frames, name, value, index).len() == frames.len(),
        names(bind_at(frames, name, value, index)) == names(frames).update(
            index,
            frames[index].dom().insert(name),
        ),
{
    assert(names(bind_at(frames, name, value, index)) =~= names(frames).update(
        index,
        frames[index].dom().insert(name),
    ));
}

/// The frames below the innermost one bind the same names in both stacks.
pub open spec fn same_outer_names(before: ContextView, after: ContextView) -> bool {
    &&& after.len() == before.len()
    &&& names(after).drop_last() == names(before).drop_last()
}

proof fn lemma_declare_outer(frames: ContextView, name: Seq<char>, value: ObjectView)
    requires
        frames.len() >= 1,
    ensures
        same_outer_names(frames, declare(frames, name, value)),
{
    lemma_bind_at_names(frames, name, value, frames.len() - 1);
    assert(names(declare(frames, name, value)).drop_last() =~= names(frames).drop_last());
}

proof fn lemma_bind_parameters_outer(
    frames: ContextView,
    params: Seq<Seq<char>>,
    args: Seq<ObjectView>,
    from: nat,
)
    requires
        frames.len() >= 1,
    ensures
        same_outer_names(frames, bind_parameters(frames, params, args, from)),
    decreases params.len() - from,
{
    if from < params.len() {
        lemma_declare_outer(frames, params[from as int], args[from as int]);
        lemma_bind_parameters_outer(
            declare(frames, params[from as int], args[from as int]),
            params,
            args,
            from + 1,
        );
    }
}

/// What was entered and then left binds the names that it bound before, where
/// in between only the frame that was pushed changed its names.
proof fn lemma_enter_exit(before: Machine, inside: Machine)
    requires
        same_outer_names(before.enter().frames, inside.frames),
    ensures
        names(inside.exit().frames) == names(before.frames),
        inside.exit().frames.len() == before.frames.len(),
{
    assert(names(before.enter().frames).drop_last() =~= names(before.frames));
    assert(names(inside.exit().frames) =~= names(inside.frames).drop_last());
}

/// The evaluation of an expression leaves every frame with the names that it
/// bound before: an expression declares nothing, and what a call declares is
/// gone when the call ends.
pub proof fn lemma_expression_keeps_names(a: Arithmetic, e: ExpressionView, m: Machine, fuel: nat)
    requires
        m.frames.len() >= 1,
    ensures
        names(eval_expression(a, e, m, fuel).1.frames) == names(m.frames),
        eval_expression(a, e, m, fuel).1.frames.len() == m.frames.len(),
    decreases fuel, 0nat,
{
    assert(forall|f: ContextView| f.len() == #[trigger] names(f).len());
    if fuel > 0 {
        match e {
            ExpressionView::BinOp(left, op, right) => {
                lemma_expression_keeps_names(a, *left, m, (fuel - 1) as nat);
                let (l, m1) = eval_expression(a, *left, m, (fuel - 1) as nat);
                if l is Ok {
                    lemma_expression_keeps_names(a, *right, m1, (fuel - 1) as nat);
                }
            },
            ExpressionView::Call { name, args } => {
                lemma_arguments_keep_names(a, args, 0, Seq::empty(), m, (fuel - 1) as nat);
                let (values, m1) = eval_arguments(a, args, 0, Seq::empty(), m, (fuel - 1) as nat);
                if values is Ok {
                    lemma_call_keeps_names(a, name, values->Ok_0, m1, (fuel - 1) as nat);
                }
            },
            ExpressionView::Assign(target, value) => {
                lemma_expression_keeps_names(a, *value, m, (fuel - 1) as nat);
                let (v, m1) = eval_expression(a, *value, m, (fuel - 1) as nat);
                if v is Ok {
                    match *target {
                        ExpressionView::Identifier(name) => {
                            lemma_assignment(name, v->Ok_0, m1);
                        },
                        _ => {},
                    }
                }
            },
            _ => {},
        }
    }
}

/// The evaluation of arguments leaves every frame with the names that it
/// bound before.
pub proof fn lemma_arguments_keep_names(
    a: Arithmetic,
    args: Seq<ExpressionView>,
    from: nat,
    done: Seq<ObjectView>,
    m: Machine,
    fuel: nat,
)
    requires
        m.frames.len() >= 1,
    ensures
        names(eval_arguments(a, args, from, done, m, fuel).1.frames) == names(m.frames),
        eval_arguments(a, args, from, done, m, fuel).1.frames.len() == m.frames.len(),
    decreases fuel, args.len() - from + 1,
{
    if from < args.len() {
        lemma_expression_keeps_names(a, args[from as int], m, fuel);
        let (v, m1) = eval_expression(a, args[from as int], m, fuel);
        assert(m1.frames.len() == names(m1.frames).len());
        if v is Ok {
            lemma_arguments_keep_names(a, args, from + 1, done.push(v->Ok_0), m1, fuel);
        }
    }
}

/// A call leaves every frame with the names that it bound before: the
/// parameters and what the body declares live in a frame of the call's own.
pub proof fn lemma_call_keeps_names(
    a: Arithmetic,
    name: Seq<char>,
    args: Seq<ObjectView>,
    m: Machine,
    fuel: nat,
)
    requires
        m.frames.len() >= 1,
    ensures
        names(call(a, name, args, m, fuel).1.frames) == names(m.frames),
        call(a, name, args, m, fuel).1.frames.len() == m.frames.len(),
    decreases fuel, 0nat,
{
    if fuel > 0 {
        match lookup(m.frames, name) {
            Some(ObjectView::Function(def)) => {
                if def.params.len() == args.len() {
                    let entered = Machine {
                        frames: bind_parameters(m.enter().frames, def.params, args, 0),
                        ..m
                    };
                    lemma_bind_parameters_outer(m.enter().frames, def.params, args, 0);
                    lemma_statements_keep_outer_names(a, def.body, 0, entered, (fuel - 1) as nat);
                    let (flow, left) = exec_statements(a, def.body, 0, entered, (fuel - 1) as nat);
                    lemma_enter_exit(m, left);
                }
            },
            _ => {},
        }
    }
}

/// A statement changes the names of the innermost frame at most: it leaves
/// every outer frame with the names that it bound before. A block or a loop
/// leaves the innermost frame so too: what is declared inside is invisible
/// once it has ended, however it ended.
pub proof fn lemma_statement_keeps_outer_names(
    a: Arithmetic,
    s: StatementView,
    m: Machine,
    fuel: nat,
)
    requires
        m.frames.len() >= 1,
    ensures
        same_outer_names(m.frames, exec_statement(a, s, m, fuel).1.frames),
        s is Block || s is While ==> names(exec_statement(a, s, m, fuel).1.frames) == names(
            m.frames,
        ),
    decreases fuel, 0nat,
{
    if fuel > 0 {
        match s {
            StatementView::Expression(e) => {
                lemma_expression_keeps_names(a, e, m, (fuel - 1) as nat);
            },
            StatementView::VarDeclaration { name, value } => {
                lemma_expression_keeps_names(a, value, m, (fuel - 1) as nat);
                let (v, m1) = eval_expression(a, value, m, (fuel - 1) as nat);
                if v is Ok {
                    lemma_declare_outer(m1.frames, name, v->Ok_0);
                }
            },
            StatementView::FunctionDeclaration { name, params, body } => {
                lemma_declare_outer(
                    m.frames,
                    name,
                    ObjectView::Function(crate::object::FunctionDefView { name, params, body }),
                );
            },
            StatementView::While { condition, body } => {
                lemma_while_keeps_outer_names(a, condition, body, m.enter(), (fuel - 1) as nat);
                let (flow, m1) = exec_while(a, condition, body, m.enter(), (fuel - 1) as nat);
                lemma_enter_exit(m, m1);
            },
            StatementView::Return(e) => {
                lemma_expression_keeps_names(a, e, m, (fuel - 1) as nat);
            },
            StatementView::Block(body) => {
                lemma_statements_keep_outer_names(a, body, 0, m.enter(), (fuel - 1) as nat);
                let (flow, m1) = exec_statements(a, body, 0, m.enter(), (fuel - 1) as nat);
                lemma_enter_exit(m, m1);
            },
        }
    }
}

/// A sequence of statements leaves every outer frame with the names that it
/// bound before.
pub proof fn lemma_statements_keep_outer_names(
    a: Arithmetic,
    statements: Seq<StatementView>,
    from: nat,
    m: Machine,
    fuel: nat,
)
    requires
        m.frames.len() >= 1,
    ensures
        same_outer_names(m.frames, exec_statements(a, statements, from, m, fuel).1.frames),
    decreases fuel, statements.len() - from + 1,
{
    if from < statements.len() {
        lemma_statement_keeps_outer_names(a, statements[from as int], m, fuel);
        let (flow, m1) = exec_statement(a, statements[from as int], m, fuel);
        if flow is Normal {
            lemma_statements_keep_outer_names(a, statements, from + 1, m1, fuel);
        }
    }
}

/// A loop leaves every frame outside its own with the names that it bound
/// before.
pub proof fn lemma_while_keeps_outer_names(
    a: Arithmetic,
    condition: ExpressionView,
    body: Seq<StatementView>,
    m: Machine,
    fuel: nat,
)
    requires
        m.frames.len() >= 1,
    ensures
        same_outer_names(m.frames, exec_while(a, condition, body, m, fuel).1.frames),
    decreases fuel, 0nat,
{
    if fuel > 0 {
        lemma_expression_keeps_names(a, condition, m, (fuel - 1) as nat);
        let (c, m1) = eval_expression(a, condition, m, (fuel - 1) as nat);
        assert(m1.frames.len() == names(m1.frames).len());
        if c == Ok::<ObjectView, RuntimeErrorKindView>(ObjectView::Bool(true)) {
            lemma_statements_keep_outer_names(a, body, 0, m1, (fuel - 1) as nat);
            let (flow, m2) = exec_statements(a, body, 0, m1, (fuel - 1) as nat);
            if flow is Normal {
                lemma_while_keeps_outer_names(a, condition, body, m2, (fuel - 1) as nat);
            }
        }
    }
}

/// A `return` skips what follows it: where a statement of a sequence
/// returns, the sequence ends there, with the returned value and in the state
/// that the statement left.
pub proof fn lemma_return_skips_the_rest(
    a: Arithmetic,
    statements: Seq<StatementView>,
    from: nat,
    m: Machine,
    fuel: nat,
)
    requires
        from < statements.len(),
        exec_statement(a, statements[from as int], m, fuel).0 is Returned,
    ensures
        exec_statements(a, statements, from, m, fuel) == exec_statement(
            a,
            statements[from as int],
            m,
            fuel,
        ),
{
}

/// A `return` in the body of a loop ends the loop, not only the round: the
/// loop gives the returned value and does not test its condition again, and
/// the frame that was pushed for the loop is popped.
pub proof fn lemma_return_leaves_loop(
    a: Arithmetic,
    condition: ExpressionView,
    body: Seq<StatementView>,
    m: Machine,
    fuel: nat,
)
    requires
        fuel >= 2,
        eval_expression(a, condition, m.enter(), (fuel - 2) as nat).0 == Ok::<
            ObjectView,
            RuntimeErrorKindView,
        >(ObjectView::Bool(true)),
        exec_statements(
            a,
            body,
            0,
            eval_expression(a, condition, m.enter(), (fuel - 2) as nat).1,
            (fuel - 2) as nat,
        ).0 is Returned,
    ensures
        ({
            let (flow, inside) = exec_statements(
                a,
                body,
                0,
                eval_expression(a, condition, m.enter(), (fuel - 2) as nat).1,
                (fuel - 2) as nat,
            );
            exec_statement(a, StatementView::While { condition, body }, m, fuel) == (
                flow,
                inside.exit(),
            )
        }),
{
    let entered = m.enter();
    assert(exec_statement(a, StatementView::While { condition, body }, m, fuel) == ({
        let (flow, m1) = exec_while(a, condition, body, entered, (fuel - 1) as nat);
        (flow, m1.exit())
    }));
}

/// A `return` ends the call that it stands in: where the body of a function
/// returns a value, the call has that value, and the frame of the call is
/// popped.
pub proof fn lemma_return_ends_call(
    a: Arithmetic,
    name: Seq<char>,
    args: Seq<ObjectView>,
    m: Machine,
    fuel: nat,
)
    requires
        fuel >= 1,
        lookup(m.frames, name) matches Some(ObjectView::Function(def)) && def.params.len()
            == args.len(),
    ensures
        ({
            let def = lookup(m.frames, name)->Some_0->Function_0;
            let entered = Machine {
                frames: bind_parameters(m.enter().frames, def.params, args, 0),
                ..m
            };
            let (flow, inside) = exec_statements(a, def.body, 0, entered, (fuel - 1) as nat);
            flow matches Flow::Returned(value) ==> call(a, name, args, m, fuel) == (
                Ok::<ObjectView, RuntimeErrorKindView>(value),
                inside.exit(),
            )
        }),
{
}

/// An operation on two numbers is the host's: the library puts one question
/// to the host, with the two operands in their order, and the value of the
/// operation is the answer.
pub proof fn lemma_numbers_follow_host(a: Arithmetic, left: u64, right: u64)
    ensures
        binary(a, ObjectView::Number(left), TokenKind::Plus, ObjectView::Number(right))
            == number_of(a(NumberRequestView::Add(left, right))),
        binary(a, ObjectView::Number(left), TokenKind::Minus, ObjectView::Number(right))
            == number_of(a(NumberRequestView::Subtract(left, right))),
        binary(a, ObjectView::Number(left), TokenKind::Equals, ObjectView::Number(right))
            == truth_of(a(NumberRequestView::Equal(left, right))),
        binary(a, ObjectView::Number(left), TokenKind::LessThan, ObjectView::Number(right))
            == truth_of(a(NumberRequestView::Less(left, right))),
{
}

/// The evaluation ran out of fuel.
pub open spec fn evaluation_exhausted<T>(result: Result<T, RuntimeErrorKindView>) -> bool {
    result matches Err(RuntimeErrorKindView::Exhausted)
}

/// The execution ran out of fuel.
pub open spec fn execution_exhausted(flow: Flow) -> bool {
    flow matches Flow::Failed(RuntimeErrorKindView::Exhausted)
}

/// Fuel only bounds an evaluation: where an expression is evaluated without
/// running out of fuel, more fuel changes nothing.
pub proof fn lemma_expression_fuel(a: Arithmetic, e: ExpressionView, m: Machine, fuel: nat, more: nat)
    requires
        fuel <= more,
        !evaluation_exhausted(eval_expression(a, e, m, fuel).0),
    ensures
        eval_expression(a, e, m, more) == eval_expression(a, e, m, fuel),
    decreases fuel, 0nat,
{
    if fuel > 0 {
        let less = (fuel - 1) as nat;
        let most = (more - 1) as nat;
        match e {
            ExpressionView::BinOp(left, op, right) => {
                lemma_expression_fuel(a, *left, m, less, most);
                let (l, m1) = eval_expression(a, *left, m, less);
                if l is Ok {
                    lemma_expression_fuel(a, *right, m1, less, most);
                }
            },
            ExpressionView::Call { name, args } => {
                lemma_arguments_fuel(a, args, 0, Seq::empty(), m, less, most);
                let (values, m1) = eval_arguments(a, args, 0, Seq::empty(), m, less);
                if values is Ok {
                    lemma_call_fuel(a, name, values->Ok_0, m1, less, most);
                }
            },
            ExpressionView::Assign(target, value) => {
                lemma_expression_fuel(a, *value, m, less, most);
            },
            _ => {},
        }
    }
}

/// More fuel changes nothing in the evaluation of arguments that did not
/// run out of fuel.
pub proof fn lemma_arguments_fuel(
    a: Arithmetic,
    args: Seq<ExpressionView>,
    from: nat,
    done: Seq<ObjectView>,
    m: Machine,
    fuel: nat,
    more: nat,
)
    requires
        fuel <= more,
        !evaluation_exhausted(eval_arguments(a, args, from, done, m, fuel).0),
    ensures
        eval_arguments(a, args, from, done, m, more) == eval_arguments(a, args, from, done, m, fuel),
    decreases fuel, args.len() - from + 1,
{
    if from < args.len() {
        lemma_expression_fuel(a, args[from as int], m, fuel, more);
        let (v, m1) = eval_expression(a, args[from as int], m, fuel);
        if v is Ok {
            lemma_arguments_fuel(a, args, from + 1, done.push(v->Ok_0), m1, fuel, more);
        }
    }
}

/// More fuel changes nothing in a call that did not run out of fuel.
pub proof fn lemma_call_fuel(
    a: Arithmetic,
    name: Seq<char>,
    args: Seq<ObjectView>,
    m: Machine,
    fuel: nat,
    more: nat,
)
    requires
        fuel <= more,
        !evaluation_exhausted(call(a, name, args, m, fuel).0),
    ensures
        call(a, name, args, m, more) == call(a, name, args, m, fuel),
    decreases fuel, 0nat,
{
    if fuel > 0 {
        match lookup(m.frames, name) {
            Some(ObjectView::Function(def)) => {
                if def.params.len() == args.len() {
                    let entered = Machine {
                        frames: bind_parameters(m.enter().frames, def.params, args, 0),
                        ..m
                    };
                    lemma_statements_fuel(
                        a,
                        def.body,
                        0,
                        entered,
                        (fuel - 1) as nat,
                        (more - 1) as nat,
                    );
                }
            },
            _ => {},
        }
    }
}

/// More fuel changes nothing in the execution of a statement that did not
/// run out of fuel.
pub proof fn lemma_statement_fuel(a: Arithmetic, s: StatementView, m: Machine, fuel: nat, more: nat)
    requires
        fuel <= more,
        !execution_exhausted(exec_statement(a, s, m, fuel).0),
    ensures
        exec_statement(a, s, m, more) == exec_statement(a, s, m, fuel),
    decreases fuel, 0nat,
{
    if fuel > 0 {
        let less = (fuel - 1) as nat;
        let most = (more - 1) as nat;
        match s {
            StatementView::Expression(e) => {
                lemma_expression_fuel(a, e, m, less, most);
            },
            StatementView::VarDeclaration { name, value } => {
                lemma_expression_fuel(a, value, m, less, most);
            },
            StatementView::FunctionDeclaration { .. } => {},
            StatementView::While { condition, body } => {
                lemma_while_fuel(a, condition, body, m.enter(), less, most);
            },
            StatementView::Return(e) => {
                lemma_expression_fuel(a, e, m, less, most);
            },
            StatementView::Block(body) => {
                lemma_statements_fuel(a, body, 0, m.enter(), less, most);
            },
        }
    }
}

/// More fuel changes nothing in the execution of statements that did not
/// run out of fuel.
pub proof fn lemma_statements_fuel(
    a: Arithmetic,
    statements: Seq<StatementView>,
    from: nat,
    m: Machine,
    fuel: nat,
    more: nat,
)
    requires
        fuel <= more,
        !execution_exhausted(exec_statements(a, statements, from, m, fuel).0),
    ensures
        exec_statements(a, statements, from, m, more) == exec_statements(
            a,
            statements,
            from,
            m,
            fuel,
        ),
    decreases fuel, statements.len() - from + 1,
{
    if from < statements.len() {
        lemma_statement_fuel(a, statements[from as int], m, fuel, more);
        let (flow, m1) = exec_statement(a, statements[from as int], m, fuel);
        if flow is Normal {
            lemma_statements_fuel(a, statements, from + 1, m1, fuel, more);
        }
    }
}

/// More fuel changes nothing in a loop that did not run out of fuel.
pub proof fn lemma_while_fuel(
    a: Arithmetic,
    condition: ExpressionView,
    body: Seq<StatementView>,
    m: Machine,
    fuel: nat,
    more: nat,
)
    requires
        fuel <= more,
        !execution_exhausted(exec_while(a, condition, body, m, fuel).0),
    ensures
        exec_while(a, condition, body, m, more) == exec_while(a, condition, body, m, fuel),
    decreases fuel, 0nat,
{
    if fuel > 0 {
        let less = (fuel - 1) as nat;
        let most = (more - 1) as nat;
        lemma_expression_fuel(a, condition, m, less, most);
        let (c, m1) = eval_expression(a, condition, m, less);
        if c == Ok::<ObjectView, RuntimeErrorKindView>(ObjectView::Bool(true)) {
            lemma_statements_fuel(a, body, 0, m1, less, most);
            let (flow, m2) = exec_statements(a, body, 0, m1, less);
            if flow is Normal {
                lemma_while_fuel(a, condition, body, m2, less, most);
            }
        }
    }
}

/// Every answer of the arithmetic is of the kind that its question asks
/// for: a number for a sum, a difference and a literal that denotes one, a
/// truth for a comparison, a text for a string form.
pub open spec fn answers_in_kind(a: Arithmetic) -> bool {
    &&& forall|text: Seq<char>|
        (#[trigger] a(NumberRequestView::Parse(text))) is Number || a(
            NumberRequestView::Parse(text),
        ) is Invalid
    &&& forall|l: u64, r: u64| (#[trigger] a(NumberRequestView::Add(l, r))) is Number
    &&& forall|l: u64, r: u64| (#[trigger] a(NumberRequestView::Subtract(l, r))) is Number
    &&& forall|l: u64, r: u64| (#[trigger] a(NumberRequestView::Equal(l, r))) is Truth
    &&& forall|l: u64, r: u64| (#[trigger] a(NumberRequestView::Less(l, r))) is Truth
    &&& forall|bits: u64| (#[trigger] a(NumberRequestView::Format(bits))) is Text
}

/// The evaluation failed on an answer that did not fit its question.
pub open spec fn evaluation_misled<T>(result: Result<T, RuntimeErrorKindView>) -> bool {
    result matches Err(RuntimeErrorKindView::BadReply)
}

/// The execution failed on an answer that did not fit its question.
pub open spec fn execution_misled(flow: Flow) -> bool {
    flow matches Flow::Failed(RuntimeErrorKindView::BadReply)
}

proof fn lemma_render_all_in_kind(a: Arithmetic, values: Seq<ObjectView>, from: nat, done: Seq<char>)
    requires
        answers_in_kind(a),
    ensures
        !evaluation_misled(render_all(a, values, from, done)),
    decreases values.len() - from,
{
    if from < values.len() {
        match render(a, values[from as int]) {
            Ok(text) => {
                lemma_render_all_in_kind(a, values, from + 1, done + text);
            },
            Err(_) => {},
        }
    }
}

/// With an arithmetic whose answers are in kind, no evaluation of an
/// expression fails on an answer.
pub proof fn lemma_expression_in_kind(a: Arithmetic, e: ExpressionView, m: Machine, fuel: nat)
    requires
        answers_in_kind(a),
    ensures
        !evaluation_misled(eval_expression(a, e, m, fuel).0),
    decreases fuel, 0nat,
{
    if fuel > 0 {
        let less = (fuel - 1) as nat;
        match e {
            ExpressionView::BinOp(left, op, right) => {
                lemma_expression_in_kind(a, *left, m, less);
                let (l, m1) = eval_expression(a, *left, m, less);
                if l is Ok {
                    lemma_expression_in_kind(a, *right, m1, less);
                }
            },
            ExpressionView::Call { name, args } => {
                lemma_arguments_in_kind(a, args, 0, Seq::empty(), m, less);
                let (values, m1) = eval_arguments(a, args, 0, Seq::empty(), m, less);
                if values is Ok {
                    lemma_call_in_kind(a, name, values->Ok_0, m1, less);
                }
            },
            ExpressionView::Assign(target, value) => {
                lemma_expression_in_kind(a, *value, m, less);
            },
            _ => {},
        }
    }
}

/// With an arithmetic whose answers are in kind, no evaluation of arguments
/// fails on an answer.
pub proof fn lemma_arguments_in_kind(
    a: Arithmetic,
    args: Seq<ExpressionView>,
    from: nat,
    done: Seq<ObjectView>,
    m: Machine,
    fuel: nat,
)
    requires
        answers_in_kind(a),
    ensures
        !evaluation_misled(eval_arguments(a, args, from, done, m, fuel).0),
    decreases fuel, args.len() - from + 1,
{
    if from < args.len() {
        lemma_expression_in_kind(a, args[from as int], m, fuel);
        let (v, m1) = eval_expression(a, args[from as int], m, fuel);
        if v is Ok {
            lemma_arguments_in_kind(a, args, from + 1, done.push(v->Ok_0), m1, fuel);
        }
    }
}

/// With an arithmetic whose answers are in kind, no call fails on an answer.
pub proof fn lemma_call_in_kind(
    a: Arithmetic,
    name: Seq<char>,
    args: Seq<ObjectView>,
    m: Machine,
    fuel: nat,
)
    requires
        answers_in_kind(a),
    ensures
        !evaluation_misled(call(a, name, args, m, fuel).0),
    decreases fuel, 0nat,
{
    if fuel > 0 {
        match lookup(m.frames, name) {
            Some(ObjectView::Function(def)) => {
                if def.params.len() == args.len() {
                    let entered = Machine {
                        frames: bind_parameters(m.enter().frames, def.params, args, 0),
                        ..m
                    };
                    lemma_statements_in_kind(a, def.body, 0, entered, (fuel - 1) as nat);
                }
            },
            Some(ObjectView::NativeFunction(def)) => {
                lemma_render_all_in_kind(a, args, 0, Seq::empty());
            },
            _ => {},
        }
    }
}

/// With an arithmetic whose answers are in kind, no statement fails on an
/// answer.
pub proof fn lemma_statement_in_kind(a: Arithmetic, s: StatementView, m: Machine, fuel: nat)
    requires
        answers_in_kind(a),
    ensures
        !execution_misled(exec_statement(a, s, m, fuel).0),
    decreases fuel, 0nat,
{
    if fuel > 0 {
        let less = (fuel - 1) as nat;
        match s {
            StatementView::Expression(e) => {
                lemma_expression_in_kind(a, e, m, less);
            },
            StatementView::VarDeclaration { name, value } => {
                lemma_expression_in_kind(a, value, m, less);
            },
            StatementView::FunctionDeclaration { .. } => {},
            StatementView::While { condition, body } => {
                lemma_while_in_kind(a, condition, body, m.enter(), less);
            },
            StatementView::Return(e) => {
                lemma_expression_in_kind(a, e, m, less);
            },
            StatementView::Block(body) => {
                lemma_statements_in_kind(a, body, 0, m.enter(), less);
            },
        }
    }
}

/// With an arithmetic whose answers are in kind, no sequence of statements
/// fails on an answer.
pub proof fn lemma_statements_in_kind(
    a: Arithmetic,
    statements: Seq<StatementView>,
    from: nat,
    m: Machine,
    fuel: nat,
)
    requires
        answers_in_kind(a),
    ensures
        !execution_misled(exec_statements(a, statements, from, m, fuel).0),
    decreases fuel, statements.len() - from + 1,
{
    if from < statements.len() {
        lemma_statement_in_kind(a, statements[from as int], m, fuel);
        let (flow, m1) = exec_statement(a, statements[from as int], m, fuel);
        if flow is Normal {
            lemma_statements_in_kind(a, statements, from + 1, m1, fuel);
        }
    }
}

/// With an arithmetic whose answers are in kind, no loop fails on an answer.
pub proof fn lemma_while_in_kind(
    a: Arithmetic,
    condition: ExpressionView,
    body: Seq<StatementView>,
    m: Machine,
    fuel: nat,
)
    requires
        answers_in_kind(a),
    ensures
        !execution_misled(exec_while(a, condition, body, m, fuel).0),
    decreases fuel, 0nat,
{
    if fuel > 0 {
        let less = (fuel - 1) as nat;
        lemma_expression_in_kind(a, condition, m, less);
        let (c, m1) = eval_expression(a, condition, m, less);
        if c == Ok::<ObjectView, RuntimeErrorKindView>(ObjectView::Bool(true)) {
            lemma_statements_in_kind(a, body, 0, m1, less);
            let (flow, m2) = exec_statements(a, body, 0, m1, less);
            if flow is Normal {
                lemma_while_in_kind(a, condition, body, m2, less);
            }
        }
    }
}

} // verus!

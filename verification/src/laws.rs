//! What holds of every run of the evaluator, proved from its transition
//! function.

use vstd::prelude::*;
use crate::ast::{ExprView, LiteralView, StatementView};
use crate::machine::{
    MachineView, assigned_text, false_text, operation_of, push_then_pop, schedule,
    strip_line_ending, true_text, truth_text,
};
use crate::number::{is_zero, numbers_equal};
use crate::protocol::{ActionView, EvalError, EventView, Operation};
use crate::task::TaskView;
use crate::tokens::TokenView;

verus! {

/// A binary operation on two literals.
pub open spec fn binary(left: LiteralView, operator: TokenView, right: LiteralView) -> ExprView {
    ExprView::Binary {
        left: Box::new(ExprView::Literal { value: left }),
        operator,
        right: Box::new(ExprView::Literal { value: right }),
    }
}

/// The two truth texts differ.
pub proof fn truth_texts_differ()
    ensures
        true_text() != false_text(),
{
    reveal_strlit("True");
    reveal_strlit("False");
    assert(true_text().len() != false_text().len());
}

/// Only a task that waits for the host looks at the event.
pub proof fn event_matters_only_to_waiting_tasks(
    machine: MachineView,
    one: EventView,
    other: EventView,
)
    requires
        machine.tasks.len() == 0 || !MachineView::waits_for_host(machine.tasks.last()),
    ensures
        machine.step(one) == machine.step(other),
{
}

/// A binary operation on two literals comes, after four transitions, to the
/// application of its operator to them.
pub proof fn binary_on_literals(
    machine: MachineView,
    left: LiteralView,
    operator: TokenView,
    right: LiteralView,
)
    ensures
        machine.push(TaskView::Evaluate(binary(left, operator, right))).idle(4).step(
            EventView::Resume,
        ) == machine.combine(operator, left, right),
{
    broadcast use push_then_pop;

    let start = machine.push(TaskView::Evaluate(binary(left, operator, right)));
    let right_expr = ExprView::Literal { value: right };
    let one = start.step(EventView::Resume).0;
    assert(start.pop() == machine);
    assert(one == machine.push(TaskView::BinaryLeft { operator, right: right_expr }).push(
        TaskView::Evaluate(ExprView::Literal { value: left }),
    ));
    let two = one.step(EventView::Resume).0;
    assert(one.pop() == machine.push(TaskView::BinaryLeft { operator, right: right_expr }));
    assert(two == machine.push(TaskView::BinaryLeft { operator, right: right_expr }).push(
        TaskView::Return(left),
    ));
    let three = two.step(EventView::Resume).0;
    assert(two.pop() == machine.push(TaskView::BinaryLeft { operator, right: right_expr }));
    assert(two.pop().pop() == machine);
    assert(three == machine.push(TaskView::BinaryRight { operator, left }).push(
        TaskView::Evaluate(right_expr),
    ));
    let four = three.step(EventView::Resume).0;
    assert(three.pop() == machine.push(TaskView::BinaryRight { operator, left }));
    assert(four == machine.push(TaskView::BinaryRight { operator, left }).push(
        TaskView::Return(right),
    ));
    assert(four.pop() == machine.push(TaskView::BinaryRight { operator, left }));
    assert(four.pop().pop() == machine);
    assert(start.idle(4) == four) by {
        reveal_with_fuel(MachineView::idle, 5);
    }
}

/// Arithmetic on two number literals: division by a zero fails; any other
/// operation is handed to the host with the two numbers, and what the host
/// computes is the value of the expression.
pub proof fn arithmetic_on_numbers(
    machine: MachineView,
    operator: TokenView,
    left: u64,
    right: u64,
    result: u64,
)
    requires
        operation_of(operator) is Some,
    ensures
        ({
            let operation = operation_of(operator)->0;
            let expr = binary(LiteralView::Number(left), operator, LiteralView::Number(right));
            let asked = machine.push(TaskView::Evaluate(expr)).idle(4).step(EventView::Resume);
            if operation == Operation::Divide && is_zero(right) {
                asked == machine.fail(EvalError::DivisionByZero)
            } else {
                &&& asked.1 == ActionView::Compute { operation, left, right }
                &&& asked.0.step(EventView::Computed(result)) == machine.yield_value(
                    LiteralView::Number(result),
                )
            }
        }),
{
    broadcast use push_then_pop;

    binary_on_literals(machine, LiteralView::Number(left), operator, LiteralView::Number(right));
}

/// Addition of two text literals: the host is asked what the left text
/// denotes and then what the right text denotes. Where both denote numbers the
/// numbers are added; otherwise the value is the left text followed by the
/// right one.
pub proof fn addition_of_texts(
    machine: MachineView,
    left: Seq<char>,
    right: Seq<char>,
    left_number: Option<u64>,
    right_number: Option<u64>,
)
    ensures
        ({
            let expr = binary(
                LiteralView::String(left),
                TokenView::OperatorAdd,
                LiteralView::String(right),
            );
            let joined = machine.yield_value(LiteralView::String(left + right));
            let first = machine.push(TaskView::Evaluate(expr)).idle(4).step(EventView::Resume);
            let second = first.0.step(EventView::Parsed(left_number));
            let third = second.0.step(EventView::Parsed(right_number));
            &&& first.1 == ActionView::Parse(left)
            &&& left_number is None ==> second == joined
            &&& left_number is Some ==> second.1 == ActionView::Parse(right)
            &&& left_number is Some && right_number is None ==> third == joined
            &&& left_number is Some && right_number is Some ==> third == machine.arithmetic(
                Operation::Add,
                left_number->0,
                right_number->0,
            )
        }),
{
    broadcast use push_then_pop;

    binary_on_literals(
        machine,
        LiteralView::String(left),
        TokenView::OperatorAdd,
        LiteralView::String(right),
    );
}

/// Subtraction, multiplication and division of two text literals: where one of
/// the texts denotes no number the program fails with a type mismatch;
/// otherwise the operation is applied to the two numbers.
pub proof fn arithmetic_on_texts(
    machine: MachineView,
    operator: TokenView,
    left: Seq<char>,
    right: Seq<char>,
    left_number: Option<u64>,
    right_number: Option<u64>,
)
    requires
        operation_of(operator) is Some,
        operation_of(operator) != Some(Operation::Add),
    ensures
        ({
            let operation = operation_of(operator)->0;
            let expr = binary(LiteralView::String(left), operator, LiteralView::String(right));
            let mismatch = machine.fail(EvalError::TypeMismatch);
            let first = machine.push(TaskView::Evaluate(expr)).idle(4).step(EventView::Resume);
            let second = first.0.step(EventView::Parsed(left_number));
            let third = second.0.step(EventView::Parsed(right_number));
            &&& first.1 == ActionView::Parse(left)
            &&& left_number is None ==> second == mismatch
            &&& left_number is Some ==> second.1 == ActionView::Parse(right)
            &&& left_number is Some && right_number is None ==> third == mismatch
            &&& left_number is Some && right_number is Some ==> third == machine.arithmetic(
                operation,
                left_number->0,
                right_number->0,
            )
        }),
{
    broadcast use push_then_pop;

    binary_on_literals(machine, LiteralView::String(left), operator, LiteralView::String(right));
}

/// Subtraction, multiplication and division of a number and a text, in either
/// order: where the text denotes no number the program fails with a type
/// mismatch; otherwise the operation is applied to the number and to the number
/// that the text denotes, in the order of the operands.
pub proof fn arithmetic_on_mixed_operands(
    machine: MachineView,
    operator: TokenView,
    number: u64,
    text: Seq<char>,
    text_number: Option<u64>,
)
    requires
        operation_of(operator) is Some,
        operation_of(operator) != Some(Operation::Add),
    ensures
        ({
            let operation = operation_of(operator)->0;
            let expr = binary(LiteralView::Number(number), operator, LiteralView::String(text));
            let asked = machine.push(TaskView::Evaluate(expr)).idle(4).step(EventView::Resume);
            &&& asked.1 == ActionView::Parse(text)
            &&& asked.0.step(EventView::Parsed(text_number)) == match text_number {
                Some(other) => machine.arithmetic(operation, number, other),
                None => machine.fail(EvalError::TypeMismatch),
            }
        }),
        ({
            let operation = operation_of(operator)->0;
            let expr = binary(LiteralView::String(text), operator, LiteralView::Number(number));
            let asked = machine.push(TaskView::Evaluate(expr)).idle(4).step(EventView::Resume);
            &&& asked.1 == ActionView::Parse(text)
            &&& asked.0.step(EventView::Parsed(text_number)) == match text_number {
                Some(other) => machine.arithmetic(operation, other, number),
                None => machine.fail(EvalError::TypeMismatch),
            }
        }),
{
    broadcast use push_then_pop;

    binary_on_literals(machine, LiteralView::Number(number), operator, LiteralView::String(text));
    binary_on_literals(machine, LiteralView::String(text), operator, LiteralView::Number(number));
}

/// A token that is no operator fails, whatever the operands.
pub proof fn missing_operator(
    machine: MachineView,
    operator: TokenView,
    left: LiteralView,
    right: LiteralView,
)
    requires
        operation_of(operator) is None,
        operator != TokenView::WEqual,
    ensures
        machine.combine(operator, left, right) == machine.fail(EvalError::MissingOperator),
{
}

/// A number joined to a text, or compared with one, is first written out by
/// the host; then the waiting task gets the decimal text.
pub proof fn number_reaches_text_task(
    machine: MachineView,
    waiting: TaskView,
    number: u64,
    rendered: Seq<char>,
)
    requires
        MachineView::waits_for_text(waiting),
    ensures
        ({
            let asked = machine.by_text(waiting, number).0.step(EventView::Resume);
            let told = asked.0.step(EventView::Rendered(rendered));
            &&& asked.1 == ActionView::Render(number)
            &&& told.0.step(EventView::Resume) == machine.receive_text(waiting, rendered)
        }),
{
    broadcast use push_then_pop;

    let start = machine.by_text(waiting, number).0;
    assert(start.pop().pop() == machine);
    let asked = start.step(EventView::Resume);
    assert(asked.0 == machine.push(waiting).push(TaskView::AwaitRender { number }));
    let told = asked.0.step(EventView::Rendered(rendered));
    assert(told.0 == machine.push(waiting).push(
        TaskView::Return(LiteralView::String(rendered)),
    ));
    assert(told.0.pop().pop() == machine);
}

/// Addition of a text and a number joins the text and the decimal text of the
/// number, in the order of the operands.
pub proof fn addition_of_text_and_number(
    machine: MachineView,
    text: Seq<char>,
    number: u64,
    rendered: Seq<char>,
)
    ensures
        ({
            let text_first = binary(
                LiteralView::String(text),
                TokenView::OperatorAdd,
                LiteralView::Number(number),
            );
            let asked = machine.push(TaskView::Evaluate(text_first)).idle(5).step(
                EventView::Resume,
            );
            let told = asked.0.step(EventView::Rendered(rendered));
            &&& asked.1 == ActionView::Render(number)
            &&& told.0.step(EventView::Resume) == machine.yield_value(
                LiteralView::String(text + rendered),
            )
        }),
        ({
            let number_first = binary(
                LiteralView::Number(number),
                TokenView::OperatorAdd,
                LiteralView::String(text),
            );
            let asked = machine.push(TaskView::Evaluate(number_first)).idle(5).step(
                EventView::Resume,
            );
            let told = asked.0.step(EventView::Rendered(rendered));
            &&& asked.1 == ActionView::Render(number)
            &&& told.0.step(EventView::Resume) == machine.yield_value(
                LiteralView::String(rendered + text),
            )
        }),
{
    let string = LiteralView::String(text);
    let value = LiteralView::Number(number);
    binary_on_literals(machine, string, TokenView::OperatorAdd, value);
    binary_on_literals(machine, value, TokenView::OperatorAdd, string);
    number_reaches_text_task(machine, TaskView::Prepend { text }, number, rendered);
    number_reaches_text_task(machine, TaskView::Append { text }, number, rendered);
    idle_once_more(machine.push(TaskView::Evaluate(binary(string, TokenView::OperatorAdd, value))), 4);
    idle_once_more(machine.push(TaskView::Evaluate(binary(value, TokenView::OperatorAdd, string))), 4);
}

/// One more idle transition.
pub proof fn idle_once_more(machine: MachineView, count: nat)
    ensures
        machine.idle(count + 1) == machine.idle(count).step(EventView::Resume).0,
    decreases count,
{
    if count > 0 {
        idle_once_more(machine.step(EventView::Resume).0, (count - 1) as nat);
    } else {
        reveal_with_fuel(MachineView::idle, 2);
    }
}

/// Equality of two numbers is numeric equality; equality of two texts is
/// equality of their characters. The value is `True` or `False`.
pub proof fn equality_of_like_operands(
    machine: MachineView,
    left_number: u64,
    right_number: u64,
    left_text: Seq<char>,
    right_text: Seq<char>,
)
    ensures
        machine.combine(
            TokenView::WEqual,
            LiteralView::Number(left_number),
            LiteralView::Number(right_number),
        ) == machine.yield_value(
            LiteralView::String(truth_text(numbers_equal(left_number, right_number))),
        ),
        machine.combine(
            TokenView::WEqual,
            LiteralView::String(left_text),
            LiteralView::String(right_text),
        ) == machine.yield_value(LiteralView::String(truth_text(left_text == right_text))),
{
}

/// Equality of a number and a text, in either order, compares the decimal text
/// of the number with the text.
pub proof fn equality_of_number_and_text(
    machine: MachineView,
    number: u64,
    text: Seq<char>,
    rendered: Seq<char>,
)
    ensures
        ({
            let number_first = binary(
                LiteralView::Number(number),
                TokenView::WEqual,
                LiteralView::String(text),
            );
            let asked = machine.push(TaskView::Evaluate(number_first)).idle(5).step(
                EventView::Resume,
            );
            let told = asked.0.step(EventView::Rendered(rendered));
            &&& asked.1 == ActionView::Render(number)
            &&& told.0.step(EventView::Resume) == machine.yield_value(
                LiteralView::String(truth_text(rendered == text)),
            )
        }),
        ({
            let text_first = binary(
                LiteralView::String(text),
                TokenView::WEqual,
                LiteralView::Number(number),
            );
            let asked = machine.push(TaskView::Evaluate(text_first)).idle(5).step(
                EventView::Resume,
            );
            let told = asked.0.step(EventView::Rendered(rendered));
            &&& asked.1 == ActionView::Render(number)
            &&& told.0.step(EventView::Resume) == machine.yield_value(
                LiteralView::String(truth_text(rendered == text)),
            )
        }),
{
    let string = LiteralView::String(text);
    let value = LiteralView::Number(number);
    binary_on_literals(machine, string, TokenView::WEqual, value);
    binary_on_literals(machine, value, TokenView::WEqual, string);
    number_reaches_text_task(machine, TaskView::EqualTo { text }, number, rendered);
    idle_once_more(machine.push(TaskView::Evaluate(binary(string, TokenView::WEqual, value))), 4);
    idle_once_more(machine.push(TaskView::Evaluate(binary(value, TokenView::WEqual, string))), 4);
}

/// A variable reads back, as a string, the text that was bound to it last.
pub proof fn bound_variable_reads_back(machine: MachineView, name: Seq<char>, text: Seq<char>)
    requires
        machine.env.len() > 0,
    ensures
        ({
            let bound = machine.bind(name, text);
            let value = LiteralView::String(text);
            &&& bound.evaluate(ExprView::Variable { name }) == bound.yield_value(value)
            &&& bound.display(ExprView::Variable { name }) == bound.yield_value(value)
        }),
{
}

/// A variable that the innermost scope does not bind cannot be read.
pub proof fn unbound_variable_fails(machine: MachineView, name: Seq<char>)
    requires
        !machine.scope().contains_key(name),
    ensures
        machine.evaluate(ExprView::Variable { name }) == machine.fail(EvalError::UnboundVariable),
        machine.display(ExprView::Variable { name }) == machine.fail(EvalError::UnboundVariable),
{
}

/// Declaring a variable with a number literal binds the decimal text of the
/// number, which the host writes: whatever is stored is text.
pub proof fn declaration_of_number_binds_text(
    machine: MachineView,
    name: Seq<char>,
    number: u64,
    rendered: Seq<char>,
)
    requires
        machine.env.len() > 0,
    ensures
        ({
            let declaration = StatementView::Var {
                name,
                init: ExprView::Literal { value: LiteralView::Number(number) },
            };
            let asked = machine.push(TaskView::Execute(declaration)).idle(2).step(
                EventView::Resume,
            );
            let told = asked.0.step(EventView::Rendered(rendered));
            let bound = told.0.step(EventView::Resume);
            &&& asked.1 == ActionView::Render(number)
            &&& bound == (machine.bind(name, rendered), ActionView::Continue)
            &&& bound.0.evaluate(ExprView::Variable { name }) == bound.0.yield_value(
                LiteralView::String(rendered),
            )
        }),
{
    broadcast use push_then_pop;

    let value = LiteralView::Number(number);
    let declaration = StatementView::Var { name, init: ExprView::Literal { value } };
    let waiting = TaskView::Bind { name };
    let start = machine.push(TaskView::Execute(declaration));
    let one = start.step(EventView::Resume).0;
    assert(one == machine.push(waiting).push(TaskView::Display(ExprView::Literal { value })));
    let two = one.step(EventView::Resume).0;
    assert(two == machine.by_text(waiting, number).0);
    assert(start.idle(2) == two) by {
        reveal_with_fuel(MachineView::idle, 3);
    }
    number_reaches_text_task(machine, waiting, number, rendered);
}

/// Declaring a variable with a text literal binds the text.
pub proof fn declaration_of_text_binds_it(machine: MachineView, name: Seq<char>, text: Seq<char>)
    requires
        machine.env.len() > 0,
    ensures
        ({
            let declaration = StatementView::Var {
                name,
                init: ExprView::Literal { value: LiteralView::String(text) },
            };
            machine.push(TaskView::Execute(declaration)).idle(2).step(EventView::Resume) == (
                machine.bind(name, text),
                ActionView::Continue,
            )
        }),
{
    broadcast use push_then_pop;

    let value = LiteralView::String(text);
    let declaration = StatementView::Var { name, init: ExprView::Literal { value } };
    let waiting = TaskView::Bind { name };
    let start = machine.push(TaskView::Execute(declaration));
    let one = start.step(EventView::Resume).0;
    assert(one == machine.push(waiting).push(TaskView::Display(ExprView::Literal { value })));
    let two = one.step(EventView::Resume).0;
    assert(two == machine.push(waiting).push(TaskView::Return(value)));
    assert(two.pop().pop() == machine);
    assert(start.idle(2) == two) by {
        reveal_with_fuel(MachineView::idle, 3);
    }
}

/// An assignment of a text literal binds the text in the innermost scope and
/// yields the marker of a finished assignment.
pub proof fn assignment_binds_and_yields_marker(
    machine: MachineView,
    name: Seq<char>,
    text: Seq<char>,
)
    requires
        machine.env.len() > 0,
    ensures
        ({
            let assignment = ExprView::Assign {
                name,
                value: Box::new(ExprView::Literal { value: LiteralView::String(text) }),
            };
            machine.push(TaskView::Evaluate(assignment)).idle(2).step(EventView::Resume)
                == machine.bind(name, text).yield_value(LiteralView::String(assigned_text()))
        }),
{
    broadcast use push_then_pop;

    let value = LiteralView::String(text);
    let assignment = ExprView::Assign { name, value: Box::new(ExprView::Literal { value }) };
    let waiting = TaskView::Assigned { name };
    let start = machine.push(TaskView::Evaluate(assignment));
    let one = start.step(EventView::Resume).0;
    assert(one == machine.push(waiting).push(TaskView::Display(ExprView::Literal { value })));
    let two = one.step(EventView::Resume).0;
    assert(two == machine.push(waiting).push(TaskView::Return(value)));
    assert(two.pop().pop() == machine);
    assert(start.idle(2) == two) by {
        reveal_with_fuel(MachineView::idle, 3);
    }
}

/// An assignment where a value is to be shown fails.
pub proof fn chained_assignment_fails(machine: MachineView, name: Seq<char>, value: ExprView)
    ensures
        machine.display(ExprView::Assign { name, value: Box::new(value) }) == machine.fail(
            EvalError::IllegalChainedAssignment,
        ),
{
}

/// Leaving a block discards its scope; every name that the block's scope binds
/// is then bound to the same text in the scope around it, whether the name was
/// bound there before or not, and every other name keeps what it had.
pub proof fn block_bindings_propagate(machine: MachineView)
    requires
        machine.env.len() >= 2,
    ensures
        ({
            let inner = machine.scope();
            let outer = machine.env[machine.env.len() - 2];
            let after = machine.leave_scope();
            &&& after.env.len() == machine.env.len() - 1
            &&& after.env.subrange(0, after.env.len() - 1) == machine.env.subrange(
                0,
                machine.env.len() - 2,
            )
            &&& forall|name: Seq<char>| #[trigger]
                inner.contains_key(name) ==> after.scope().contains_key(name)
                    && after.scope()[name] == inner[name]
            &&& forall|name: Seq<char>|
                !inner.contains_key(name) ==> (#[trigger] after.scope().contains_key(name)
                    == outer.contains_key(name))
            &&& forall|name: Seq<char>|
                !inner.contains_key(name) && outer.contains_key(name) ==> #[trigger] after.scope()[name]
                    == outer[name]
        }),
{
    let after = machine.leave_scope();
    assert(after.env.subrange(0, after.env.len() - 1) =~= machine.env.subrange(
        0,
        machine.env.len() - 2,
    ));
}

/// Binding a name inside a block and leaving the block comes to binding the
/// name outside it.
pub proof fn binding_in_block_is_visible_outside(
    machine: MachineView,
    name: Seq<char>,
    text: Seq<char>,
)
    requires
        machine.env.len() > 0,
    ensures
        machine.enter_scope().bind(name, text).leave_scope() == machine.bind(name, text),
{
    let result = machine.enter_scope().bind(name, text).leave_scope();
    assert(result.env.len() == machine.env.len());
    assert(result.scope() =~= machine.scope().insert(name, text));
    assert(result.env =~= machine.bind(name, text).env);
}

/// An assignment inside a block is visible after the block: running a block
/// that holds one assignment of a text comes to binding the name in the scope
/// around the block, whether the name was bound there or not.
pub proof fn assignment_in_block_is_visible_outside(
    machine: MachineView,
    name: Seq<char>,
    text: Seq<char>,
)
    requires
        machine.env.len() > 0,
    ensures
        ({
            let assignment = ExprView::Assign {
                name,
                value: Box::new(ExprView::Literal { value: LiteralView::String(text) }),
            };
            let nested = StatementView::Block {
                statements: seq![StatementView::Expression { expression: assignment }],
            };
            machine.push(TaskView::Execute(nested)).idle(6).step(EventView::Resume) == (
                MachineView {
                    last: Some(LiteralView::String(assigned_text())),
                    ..machine.bind(name, text)
                },
                ActionView::Continue,
            )
        }),
{
    broadcast use push_then_pop;

    let marker = LiteralView::String(assigned_text());
    let assignment = ExprView::Assign {
        name,
        value: Box::new(ExprView::Literal { value: LiteralView::String(text) }),
    };
    let statement = StatementView::Expression { expression: assignment };
    let nested = StatementView::Block { statements: seq![statement] };
    let start = machine.push(TaskView::Execute(nested));
    let inside = machine.enter_scope().push(TaskView::LeaveBlock);
    let one = start.step(EventView::Resume).0;
    assert(one == inside.push(TaskView::Execute(statement))) by {
        assert(schedule(seq![statement]) == seq![TaskView::Execute(statement)]);
        assert(machine.tasks.push(TaskView::LeaveBlock) + seq![TaskView::Execute(statement)]
            == machine.tasks.push(TaskView::LeaveBlock).push(TaskView::Execute(statement)));
    }
    let two = one.step(EventView::Resume).0;
    assert(two == inside.push(TaskView::Evaluate(assignment)));
    assignment_binds_and_yields_marker(inside, name, text);
    let five = two.idle(2).step(EventView::Resume).0;
    assert(five == inside.bind(name, text).push(TaskView::Return(marker)));
    assert(inside.bind(name, text) == machine.enter_scope().bind(name, text).push(
        TaskView::LeaveBlock,
    ));
    let six = five.step(EventView::Resume).0;
    assert(five.pop().pop() == machine.enter_scope().bind(name, text));
    assert(six == MachineView { last: Some(marker), ..inside.bind(name, text) });
    assert(six.pop() == MachineView {
        last: Some(marker),
        ..machine.enter_scope().bind(name, text)
    });
    binding_in_block_is_visible_outside(machine, name, text);
    assert(six.pop().leave_scope() == MachineView {
        last: Some(marker),
        ..machine.bind(name, text)
    });
    assert(start.idle(6) == six) by {
        reveal_with_fuel(MachineView::idle, 7);
        idle_once_more(two, 2);
    }
}

/// A scratch scope is discarded without a trace.
pub proof fn scratch_scope_leaves_no_trace(machine: MachineView, name: Seq<char>, text: Seq<char>)
    requires
        machine.env.len() > 0,
    ensures
        machine.enter_scope().bind(name, text).discard_scope() == machine,
{
    let result = machine.enter_scope().bind(name, text).discard_scope();
    assert(result.env =~= machine.env);
}

/// A branch whose condition is a literal: `True` starts the statement, `False`
/// changes nothing, and anything else fails.
pub proof fn branch_on_literal(
    machine: MachineView,
    condition: LiteralView,
    then: StatementView,
)
    ensures
        ({
            let branch = StatementView::Branch {
                condition: ExprView::Literal { value: condition },
                then: Box::new(then),
            };
            let decided = machine.push(TaskView::Execute(branch)).idle(2).step(EventView::Resume);
            if condition == LiteralView::String(true_text()) {
                decided == (machine.push(TaskView::Execute(then)), ActionView::Continue)
            } else if condition == LiteralView::String(false_text()) {
                decided == (machine, ActionView::Continue)
            } else {
                decided == machine.fail(EvalError::NonBooleanCondition)
            }
        }),
{
    broadcast use push_then_pop;

    let branch = StatementView::Branch {
        condition: ExprView::Literal { value: condition },
        then: Box::new(then),
    };
    let waiting = TaskView::Decide { then };
    let start = machine.push(TaskView::Execute(branch));
    let one = start.step(EventView::Resume).0;
    assert(one == machine.push(waiting).push(
        TaskView::Evaluate(ExprView::Literal { value: condition }),
    ));
    let two = one.step(EventView::Resume).0;
    assert(two == machine.push(waiting).push(TaskView::Return(condition)));
    assert(two.pop().pop() == machine);
    assert(start.idle(2) == two) by {
        reveal_with_fuel(MachineView::idle, 3);
    }
}

/// A number is no condition.
pub proof fn number_is_no_condition(
    machine: MachineView,
    number: u64,
    then: StatementView,
)
    ensures
        machine.decide(then, LiteralView::Number(number)) == machine.fail(
            EvalError::NonBooleanCondition,
        ),
{
}

/// `input` asks the host for a line and binds the line, without the carriage
/// returns and line feeds at its end, to its name.
pub proof fn input_binds_the_line(
    machine: MachineView,
    name: Seq<char>,
    line: Seq<char>,
    event: EventView,
)
    requires
        machine.env.len() > 0,
    ensures
        ({
            let asked = machine.push(TaskView::Execute(StatementView::Input { input: name })).step(
                event,
            );
            &&& asked.1 == ActionView::Input
            &&& asked.0.step(EventView::Line(line)) == (
                machine.bind(name, strip_line_ending(line)),
                ActionView::Continue,
            )
        }),
{
    broadcast use push_then_pop;

}

/// After `exit`, and after a failure, nothing is left to do: every further
/// transition reports the end and changes nothing.
pub proof fn nothing_runs_after_the_end(machine: MachineView, error: EvalError, event: EventView)
    ensures
        machine.execute(StatementView::Exit) == (machine.halt(), ActionView::Exit),
        machine.fail(error) == (machine.halt(), ActionView::Failed(error)),
        machine.halt().step(event) == (machine.halt(), ActionView::Finished),
        machine.halt().env == machine.env,
{
}

/// A loop starts its body and stands ready to start it again.
pub proof fn loop_repeats(machine: MachineView, body: StatementView)
    ensures
        ({
            let repeat = StatementView::Loop { body: Box::new(body) };
            machine.push(TaskView::Execute(repeat)).step(EventView::Resume) == (
                machine.push(TaskView::Execute(repeat)).push(TaskView::Execute(body)),
                ActionView::Continue,
            )
        }),
{
    broadcast use push_then_pop;

}

/// A task that waits for the host keeps waiting, and repeats what it asked
/// for, until the host reports the answer.
pub proof fn request_is_repeated(machine: MachineView, waiting: TaskView, event: EventView)
    requires
        MachineView::waits_for_host(waiting),
        !MachineView::answers(waiting, event),
    ensures
        machine.push(waiting).step(event) == (machine.push(waiting), MachineView::request(waiting)),
{
    broadcast use push_then_pop;

}

} // verus!

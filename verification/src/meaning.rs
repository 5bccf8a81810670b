//! What expressions mean, and that the evaluator computes it.
//!
//! The meaning of an expression is given in one piece, by recursion on the
//! expression, for a host whose answers are functions of what it is asked. The
//! theorems of this module say that the transitions of the evaluator, each
//! request answered by such a host, arrive at that meaning.

use vstd::prelude::*;
use crate::ast::{ExprView, LiteralView, StatementView};
use crate::machine::{
    MachineView, Outcome, Scope, assigned_text, operation_of, push_then_pop, schedule,
    truth_text,
};
use crate::number::{is_zero, numbers_equal};
use crate::protocol::{ActionView, EvalError, EventView, Operation};
use crate::task::TaskView;
use crate::tokens::TokenView;

verus! {

/// A host that answers every request by a function of the request.
pub struct Host {
    /// The number that a text denotes, if it denotes one.
    pub parse: spec_fn(Seq<char>) -> Option<u64>,
    /// The decimal text of a number.
    pub render: spec_fn(u64) -> Seq<char>,
    /// The result of an arithmetic operation.
    pub compute: spec_fn(Operation, u64, u64) -> u64,
}

/// What an evaluation comes to: a literal, or the reason of its failure.
pub type Value = Result<LiteralView, EvalError>;

impl Host {
    /// The event with which the host answers an action.
    pub open spec fn reply(self, action: ActionView) -> EventView {
        match action {
            ActionView::Parse(text) => EventView::Parsed((self.parse)(text)),
            ActionView::Render(bits) => EventView::Rendered((self.render)(bits)),
            ActionView::Compute { operation, left, right } => EventView::Computed(
                (self.compute)(operation, left, right),
            ),
            _ => EventView::Resume,
        }
    }

    /// The text of a literal: a string as it is, a number in decimal.
    pub open spec fn text(self, value: LiteralView) -> Seq<char> {
        match value {
            LiteralView::Number(bits) => (self.render)(bits),
            LiteralView::String(text) => text,
        }
    }

    /// The number of a literal: a number as it is, a string as what it denotes.
    pub open spec fn number(self, value: LiteralView) -> Option<u64> {
        match value {
            LiteralView::Number(bits) => Some(bits),
            LiteralView::String(text) => (self.parse)(text),
        }
    }

    /// An arithmetic operation on two numbers; division by a zero fails.
    pub open spec fn arithmetic(self, operation: Operation, left: u64, right: u64) -> Value {
        if operation == Operation::Divide && is_zero(right) {
            Err(EvalError::DivisionByZero)
        } else {
            Ok(LiteralView::Number((self.compute)(operation, left, right)))
        }
    }

    /// A binary operator applied to two literals.
    ///
    /// Addition adds two numbers, and two strings that both denote numbers; it
    /// joins the texts of everything else. Subtraction, multiplication and
    /// division take numbers and strings that denote numbers. Equality compares
    /// two numbers as numbers and everything else by its text, and yields
    /// `True` or `False`.
    pub open spec fn apply(self, operator: TokenView, left: LiteralView, right: LiteralView) -> Value {
        match operator {
            TokenView::OperatorAdd => match (left, right) {
                (LiteralView::Number(a), LiteralView::Number(b)) => self.arithmetic(
                    Operation::Add,
                    a,
                    b,
                ),
                (LiteralView::String(s), LiteralView::String(t)) => match (
                    (self.parse)(s),
                    (self.parse)(t),
                ) {
                    (Some(a), Some(b)) => self.arithmetic(Operation::Add, a, b),
                    _ => Ok(LiteralView::String(s + t)),
                },
                _ => Ok(LiteralView::String(self.text(left) + self.text(right))),
            },
            TokenView::OperatorSub | TokenView::OperatorMul | TokenView::OperatorDiv => match (
                self.number(left),
                self.number(right),
            ) {
                (Some(a), Some(b)) => self.arithmetic(operation_of(operator)->0, a, b),
                _ => Err(EvalError::TypeMismatch),
            },
            TokenView::WEqual => match (left, right) {
                (LiteralView::Number(a), LiteralView::Number(b)) => Ok(
                    LiteralView::String(truth_text(numbers_equal(a, b))),
                ),
                _ => Ok(LiteralView::String(truth_text(self.text(left) == self.text(right)))),
            },
            _ => Err(EvalError::MissingOperator),
        }
    }

    /// The literal of an expression in a scope, and the scope afterwards.
    ///
    /// The operands of a binary operation are evaluated left to right, in the
    /// same scope; the first failure is the failure of the operation. An
    /// assignment binds the text of what its value shows and yields a marker.
    pub open spec fn value(self, expr: ExprView, scope: Scope) -> (Value, Scope)
        decreases expr, 0nat,
    {
        match expr {
            ExprView::Literal { value } => (Ok(value), scope),
            ExprView::Variable { name } => (lookup(scope, name), scope),
            ExprView::Assign { name, value } => match self.shown(*value, scope) {
                Ok(literal) => (
                    Ok(LiteralView::String(assigned_text())),
                    scope.insert(name, self.text(literal)),
                ),
                Err(error) => (Err(error), scope),
            },
            ExprView::Binary { left, operator, right } => {
                let (first, after_left) = self.value(*left, scope);
                match first {
                    Err(error) => (Err(error), after_left),
                    Ok(left_value) => {
                        let (second, after_right) = self.value(*right, after_left);
                        match second {
                            Err(error) => (Err(error), after_right),
                            Ok(right_value) => (
                                self.apply(operator, left_value, right_value),
                                after_right,
                            ),
                        }
                    },
                }
            },
        }
    }

    /// The literal that an expression shows in a scope. The scope stays as it
    /// is: what a binary operation binds while it is shown is forgotten. An
    /// assignment shows nothing.
    pub open spec fn shown(self, expr: ExprView, scope: Scope) -> Value
        decreases expr, 1nat,
    {
        match expr {
            ExprView::Literal { value } => Ok(value),
            ExprView::Variable { name } => lookup(scope, name),
            ExprView::Assign { .. } => Err(EvalError::IllegalChainedAssignment),
            ExprView::Binary { .. } => self.value(expr, scope).0,
        }
    }

    /// The state and action after `count` transitions, each event being the
    /// answer of the host to the action before it.
    pub open spec fn run(self, from: Outcome, count: nat) -> Outcome
        decreases count,
    {
        if count == 0 {
            from
        } else {
            self.run(from.0.step(self.reply(from.1)), (count - 1) as nat)
        }
    }
}

/// The text bound to a name, as a string.
pub open spec fn lookup(scope: Scope, name: Seq<char>) -> Value {
    if scope.contains_key(name) {
        Ok(LiteralView::String(scope[name]))
    } else {
        Err(EvalError::UnboundVariable)
    }
}

/// The state with another innermost scope in place of its own.
pub open spec fn with_scope(machine: MachineView, scope: Scope) -> MachineView {
    MachineView { env: machine.env.update(machine.env.len() - 1, scope), ..machine }
}

/// Whether the outcome is the end of an evaluation that started in `machine`
/// and came to `value` with the innermost scope `scope`: on success the value
/// is on top of the tasks of `machine`, and nothing else has changed; on
/// failure nothing is left to do and the host is told why.
pub open spec fn arrives(outcome: Outcome, machine: MachineView, value: Value, scope: Scope) -> bool {
    match value {
        Ok(literal) => outcome == with_scope(machine, scope).yield_value(literal),
        Err(error) => {
            &&& outcome.1 == ActionView::Failed(error)
            &&& outcome.0.tasks.len() == 0
            &&& outcome.0.ast.len() == 0
        },
    }
}

/// Transitions add up.
pub proof fn run_adds_up(host: Host, from: Outcome, first: nat, second: nat)
    ensures
        host.run(from, first + second) == host.run(host.run(from, first), second),
    decreases first,
{
    if first > 0 {
        run_adds_up(host, from.0.step(host.reply(from.1)), (first - 1) as nat, second);
    }
}

/// One transition.
pub proof fn run_once(host: Host, from: Outcome)
    ensures
        host.run(from, 1) == from.0.step(host.reply(from.1)),
{
    reveal_with_fuel(Host::run, 2);
}

impl Host {
    /// The transitions that an arithmetic operation on two numbers takes.
    pub open spec fn arithmetic_cost(operation: Operation, right: u64) -> nat {
        if operation == Operation::Divide && is_zero(right) {
            0
        } else {
            1
        }
    }

    /// The transitions that an arithmetic operation takes once its operands are
    /// there.
    pub open spec fn numeric_cost(
        self,
        operation: Operation,
        left: LiteralView,
        right: LiteralView,
    ) -> nat {
        match (left, right) {
            (LiteralView::Number(_), LiteralView::Number(b)) => Self::arithmetic_cost(operation, b),
            (LiteralView::String(s), LiteralView::Number(b)) => match (self.parse)(s) {
                None => 1,
                Some(_) => 1 + Self::arithmetic_cost(operation, b),
            },
            (LiteralView::Number(_), LiteralView::String(t)) => match (self.parse)(t) {
                None => 1,
                Some(b) => 1 + Self::arithmetic_cost(operation, b),
            },
            (LiteralView::String(s), LiteralView::String(t)) => match (self.parse)(s) {
                None => 1,
                Some(_) => match (self.parse)(t) {
                    None => 2,
                    Some(b) => 2 + Self::arithmetic_cost(operation, b),
                },
            },
        }
    }

    /// The transitions that a binary operator takes once its operands are
    /// there.
    pub open spec fn apply_cost(self, operator: TokenView, left: LiteralView, right: LiteralView) -> nat {
        match operator {
            TokenView::OperatorAdd => if (left is Number) == (right is Number) {
                self.numeric_cost(Operation::Add, left, right)
            } else {
                3
            },
            TokenView::OperatorSub | TokenView::OperatorMul | TokenView::OperatorDiv => {
                self.numeric_cost(operation_of(operator)->0, left, right)
            },
            TokenView::WEqual => if (left is Number) == (right is Number) {
                0
            } else {
                3
            },
            _ => 0,
        }
    }
}

/// The innermost scope of a state put in its own place changes nothing.
pub proof fn with_own_scope(machine: MachineView)
    requires
        machine.env.len() > 0,
    ensures
        with_scope(machine, machine.scope()) == machine,
{
    assert(machine.env.update(machine.env.len() - 1, machine.scope()) == machine.env);
}

/// Putting a scope in place twice is putting the second one in place.
pub proof fn with_scope_twice(machine: MachineView, first: Scope, second: Scope)
    requires
        machine.env.len() > 0,
    ensures
        with_scope(with_scope(machine, first), second) == with_scope(machine, second),
        with_scope(machine, first).scope() == first,
        with_scope(machine, first).env.len() == machine.env.len(),
{
    let last = machine.env.len() - 1;
    assert(machine.env.update(last, first).update(last, second) == machine.env.update(
        last,
        second,
    ));
}

/// An arithmetic operation on two numbers arrives at its result.
pub proof fn arithmetic_arrives(
    host: Host,
    machine: MachineView,
    operation: Operation,
    left: u64,
    right: u64,
)
    requires
        machine.env.len() > 0,
    ensures
        arrives(
            host.run(
                machine.arithmetic(operation, left, right),
                Host::arithmetic_cost(operation, right),
            ),
            machine,
            host.arithmetic(operation, left, right),
            machine.scope(),
        ),
{
    broadcast use push_then_pop;

    with_own_scope(machine);
    let from = machine.arithmetic(operation, left, right);
    if !(operation == Operation::Divide && is_zero(right)) {
        run_once(host, from);
    }
}

/// A number that is handed to a task that waits for a text reaches it, in
/// three transitions, as its decimal text.
pub proof fn number_arrives_as_text(
    host: Host,
    machine: MachineView,
    waiting: TaskView,
    number: u64,
)
    requires
        MachineView::waits_for_text(waiting),
    ensures
        host.run(machine.by_text(waiting, number), 3) == machine.receive_text(
            waiting,
            (host.render)(number),
        ),
{
    broadcast use push_then_pop;

    let rendered = (host.render)(number);
    let from = machine.by_text(waiting, number);
    assert(from.0.pop().pop() == machine);
    let asked = from.0.step(EventView::Resume);
    assert(asked.0 == machine.push(waiting).push(TaskView::AwaitRender { number }));
    let told = asked.0.step(EventView::Rendered(rendered));
    assert(told.0 == machine.push(waiting).push(
        TaskView::Return(LiteralView::String(rendered)),
    ));
    assert(told.0.pop().pop() == machine);
    reveal_with_fuel(Host::run, 4);
}

/// An arithmetic operation arrives at its result, whatever its operands are.
pub proof fn numeric_arrives(
    host: Host,
    machine: MachineView,
    operation: Operation,
    left: LiteralView,
    right: LiteralView,
)
    requires
        machine.env.len() > 0,
    ensures
        arrives(
            host.run(
                machine.arithmetic_on_texts(operation, left, right),
                host.numeric_cost(operation, left, right),
            ),
            machine,
            match (host.number(left), host.number(right)) {
                (Some(a), Some(b)) => host.arithmetic(operation, a, b),
                _ => if operation == Operation::Add && left is String && right is String {
                    Ok(LiteralView::String(left->String_0 + right->String_0))
                } else {
                    Err(EvalError::TypeMismatch)
                },
            },
            machine.scope(),
        ),
{
    broadcast use push_then_pop;

    with_own_scope(machine);
    let from = machine.arithmetic_on_texts(operation, left, right);
    match (left, right) {
        (LiteralView::Number(a), LiteralView::Number(b)) => {
            arithmetic_arrives(host, machine, operation, a, b);
        },
        (LiteralView::String(s), LiteralView::Number(b)) => {
            run_once(host, from);
            match (host.parse)(s) {
                None => {},
                Some(a) => {
                    arithmetic_arrives(host, machine, operation, a, b);
                    run_adds_up(host, from, 1, Host::arithmetic_cost(operation, b));
                },
            }
        },
        (LiteralView::Number(a), LiteralView::String(t)) => {
            run_once(host, from);
            match (host.parse)(t) {
                None => {},
                Some(b) => {
                    arithmetic_arrives(host, machine, operation, a, b);
                    run_adds_up(host, from, 1, Host::arithmetic_cost(operation, b));
                },
            }
        },
        (LiteralView::String(s), LiteralView::String(t)) => {
            run_once(host, from);
            match (host.parse)(s) {
                None => {},
                Some(a) => {
                    let second = host.run(from, 1);
                    run_once(host, second);
                    run_adds_up(host, from, 1, 1);
                    match (host.parse)(t) {
                        None => {},
                        Some(b) => {
                            arithmetic_arrives(host, machine, operation, a, b);
                            run_adds_up(host, from, 2, Host::arithmetic_cost(operation, b));
                        },
                    }
                },
            }
        },
    }
}

/// A binary operator that has its operands arrives at what it means.
pub proof fn apply_arrives(
    host: Host,
    machine: MachineView,
    operator: TokenView,
    left: LiteralView,
    right: LiteralView,
)
    requires
        machine.env.len() > 0,
    ensures
        arrives(
            host.run(
                machine.combine(operator, left, right),
                host.apply_cost(operator, left, right),
            ),
            machine,
            host.apply(operator, left, right),
            machine.scope(),
        ),
{
    with_own_scope(machine);
    match operator {
        TokenView::OperatorAdd => {
            match (left, right) {
                (LiteralView::String(s), LiteralView::Number(b)) => {
                    number_arrives_as_text(host, machine, TaskView::Prepend { text: s }, b);
                },
                (LiteralView::Number(a), LiteralView::String(t)) => {
                    number_arrives_as_text(host, machine, TaskView::Append { text: t }, a);
                },
                _ => {
                    numeric_arrives(host, machine, Operation::Add, left, right);
                },
            }
        },
        TokenView::OperatorSub | TokenView::OperatorMul | TokenView::OperatorDiv => {
            numeric_arrives(host, machine, operation_of(operator)->0, left, right);
        },
        TokenView::WEqual => {
            match (left, right) {
                (LiteralView::String(s), LiteralView::Number(b)) => {
                    number_arrives_as_text(host, machine, TaskView::EqualTo { text: s }, b);
                },
                (LiteralView::Number(a), LiteralView::String(t)) => {
                    number_arrives_as_text(host, machine, TaskView::EqualTo { text: t }, a);
                },
                _ => {},
            }
        },
        _ => {},
    }
}

impl Host {
    /// The transitions that a literal takes to reach a task that waits for a
    /// text.
    pub open spec fn text_cost(value: LiteralView) -> nat {
        match value {
            LiteralView::Number(_) => 3,
            LiteralView::String(_) => 1,
        }
    }

    /// The transitions that the evaluation of an expression takes.
    pub open spec fn value_cost(self, expr: ExprView, scope: Scope) -> nat
        decreases expr, 0nat,
    {
        match expr {
            ExprView::Literal { .. } => 1,
            ExprView::Variable { .. } => 1,
            ExprView::Assign { value, .. } => 1 + self.shown_cost(*value, scope) + match self.shown(
                *value,
                scope,
            ) {
                Ok(literal) => Self::text_cost(literal),
                Err(_) => 0nat,
            },
            ExprView::Binary { left, operator, right } => {
                let (first, after_left) = self.value(*left, scope);
                1 + self.value_cost(*left, scope) + match first {
                    Err(_) => 0nat,
                    Ok(left_value) => {
                        let (second, _) = self.value(*right, after_left);
                        1nat + self.value_cost(*right, after_left) + match second {
                            Err(_) => 0nat,
                            Ok(right_value) => 1nat + self.apply_cost(
                                operator,
                                left_value,
                                right_value,
                            ),
                        }
                    },
                }
            },
        }
    }

    /// The transitions that showing an expression takes.
    pub open spec fn shown_cost(self, expr: ExprView, scope: Scope) -> nat
        decreases expr, 1nat,
    {
        match expr {
            ExprView::Binary { .. } => 1 + self.value_cost(expr, scope) + match self.value(
                expr,
                scope,
            ).0 {
                Ok(_) => 1nat,
                Err(_) => 0nat,
            },
            _ => 1,
        }
    }
}

/// The evaluator computes what an expression means.
///
/// From any state, the task of evaluating an expression comes, after the
/// transitions that the evaluation takes, to the value of the expression on
/// top of the tasks and to the scope that the evaluation leaves; nothing else
/// of the state changes. Where the meaning is a failure, the program ends with
/// that failure.
pub proof fn evaluation_arrives(
    host: Host,
    machine: MachineView,
    expr: ExprView,
    before: ActionView,
)
    requires
        machine.env.len() > 0,
    ensures
        arrives(
            host.run(
                (machine.push(TaskView::Evaluate(expr)), before),
                host.value_cost(expr, machine.scope()),
            ),
            machine,
            host.value(expr, machine.scope()).0,
            host.value(expr, machine.scope()).1,
        ),
    decreases expr, 0nat,
{
    broadcast use push_then_pop;

    let scope = machine.scope();
    let start = (machine.push(TaskView::Evaluate(expr)), before);
    let first = host.run(start, 1);
    run_once(host, start);
    with_own_scope(machine);
    match expr {
        ExprView::Literal { .. } => {},
        ExprView::Variable { .. } => {},
        ExprView::Assign { name, value } => {
            let waiting = machine.push(TaskView::Assigned { name });
            assert(first == (waiting.push(TaskView::Display(*value)), ActionView::Continue));
            presentation_arrives(host, waiting, *value, ActionView::Continue);
            let cost = host.shown_cost(*value, scope);
            let second = host.run(first, cost);
            run_adds_up(host, start, 1, cost);
            with_own_scope(waiting);
            match host.shown(*value, scope) {
                Err(_) => {},
                Ok(literal) => {
                    assert(second == waiting.yield_value(literal));
                    assert(second.0.pop().pop() == machine);
                    run_adds_up(host, start, 1 + cost, Host::text_cost(literal));
                    match literal {
                        LiteralView::String(text) => {
                            run_once(host, second);
                        },
                        LiteralView::Number(number) => {
                            assert(second == machine.by_text(
                                TaskView::Assigned { name },
                                number,
                            ));
                            number_arrives_as_text(
                                host,
                                machine,
                                TaskView::Assigned { name },
                                number,
                            );
                        },
                    }
                },
            }
        },
        ExprView::Binary { left, operator, right } => {
            let wait_left = machine.push(TaskView::BinaryLeft { operator, right: *right });
            assert(first == (wait_left.push(TaskView::Evaluate(*left)), ActionView::Continue));
            evaluation_arrives(host, wait_left, *left, ActionView::Continue);
            let left_cost = host.value_cost(*left, scope);
            let second = host.run(first, left_cost);
            run_adds_up(host, start, 1, left_cost);
            let (left_result, after_left) = host.value(*left, scope);
            match left_result {
                Err(_) => {},
                Ok(left_value) => {
                    let between = with_scope(machine, after_left);
                    assert(with_scope(wait_left, after_left) == between.push(
                        TaskView::BinaryLeft { operator, right: *right },
                    ));
                    let wait_right = between.push(
                        TaskView::BinaryRight { operator, left: left_value },
                    );
                    let third = host.run(second, 1);
                    run_once(host, second);
                    assert(second.0.pop().pop() == between);
                    assert(third == (
                        wait_right.push(TaskView::Evaluate(*right)),
                        ActionView::Continue,
                    ));
                    run_adds_up(host, start, 1 + left_cost, 1);
                    evaluation_arrives(host, wait_right, *right, ActionView::Continue);
                    let right_cost = host.value_cost(*right, after_left);
                    let fourth = host.run(third, right_cost);
                    run_adds_up(host, start, 1 + left_cost + 1, right_cost);
                    let (right_result, after_right) = host.value(*right, after_left);
                    match right_result {
                        Err(_) => {},
                        Ok(right_value) => {
                            let after = with_scope(machine, after_right);
                            with_scope_twice(machine, after_left, after_right);
                            with_scope_twice(machine, after_right, after_right);
                            assert(with_scope(between, after_right) == after);
                            assert(with_scope(wait_right, after_right) == after.push(
                                TaskView::BinaryRight { operator, left: left_value },
                            ));
                            let fifth = host.run(fourth, 1);
                            run_once(host, fourth);
                            assert(fourth.0.pop().pop() == after);
                            assert(fifth == after.combine(operator, left_value, right_value));
                            run_adds_up(host, start, 1 + left_cost + 1 + right_cost, 1);
                            apply_arrives(host, after, operator, left_value, right_value);
                            let last_cost = host.apply_cost(operator, left_value, right_value);
                            run_adds_up(
                                host,
                                start,
                                1 + left_cost + 1 + right_cost + 1,
                                last_cost,
                            );
                            assert(with_scope(after, after_right) == after);
                        },
                    }
                },
            }
        },
    }
}

/// The evaluator shows what an expression shows.
///
/// From any state, the task of showing an expression comes, after the
/// transitions that it takes, to the literal that the expression shows on top
/// of the tasks; nothing else of the state changes, its scopes included. Where
/// the expression shows nothing, the program ends with that failure.
pub proof fn presentation_arrives(
    host: Host,
    machine: MachineView,
    expr: ExprView,
    before: ActionView,
)
    requires
        machine.env.len() > 0,
    ensures
        arrives(
            host.run(
                (machine.push(TaskView::Display(expr)), before),
                host.shown_cost(expr, machine.scope()),
            ),
            machine,
            host.shown(expr, machine.scope()),
            machine.scope(),
        ),
    decreases expr, 1nat,
{
    broadcast use push_then_pop;

    let scope = machine.scope();
    let start = (machine.push(TaskView::Display(expr)), before);
    let first = host.run(start, 1);
    run_once(host, start);
    with_own_scope(machine);
    match expr {
        ExprView::Binary { .. } => {
            let scratch = machine.enter_scope().push(TaskView::DropScratch);
            assert(first == (scratch.push(TaskView::Evaluate(expr)), ActionView::Continue));
            assert(scratch.scope() == scope);
            evaluation_arrives(host, scratch, expr, ActionView::Continue);
            let cost = host.value_cost(expr, scope);
            let second = host.run(first, cost);
            run_adds_up(host, start, 1, cost);
            let (result, after) = host.value(expr, scope);
            match result {
                Err(_) => {},
                Ok(literal) => {
                    let used = with_scope(machine.enter_scope(), after);
                    assert(with_scope(scratch, after) == used.push(TaskView::DropScratch));
                    assert(second.0.pop().pop() == used);
                    assert(used.discard_scope() == machine) by {
                        assert(used.env.drop_last() == machine.env);
                    }
                    run_once(host, second);
                    run_adds_up(host, start, 1 + cost, 1);
                },
            }
        },
        _ => {},
    }
}

/// A literal that is yielded to a task that waits for a text reaches it as its
/// text.
pub proof fn literal_arrives_as_text(
    host: Host,
    machine: MachineView,
    waiting: TaskView,
    literal: LiteralView,
)
    requires
        MachineView::waits_for_text(waiting),
    ensures
        host.run(machine.push(waiting).yield_value(literal), Host::text_cost(literal))
            == machine.receive_text(waiting, host.text(literal)),
{
    broadcast use push_then_pop;

    let from = machine.push(waiting).yield_value(literal);
    assert(from.0.pop().pop() == machine);
    match literal {
        LiteralView::String(_) => {
            run_once(host, from);
        },
        LiteralView::Number(number) => {
            assert(from == machine.by_text(waiting, number));
            number_arrives_as_text(host, machine, waiting, number);
        },
    }
}

/// What showing an expression to a task that waits for a text comes to: the
/// task gets the text of what the expression shows.
pub open spec fn told(
    host: Host,
    machine: MachineView,
    waiting: TaskView,
    expr: ExprView,
    outcome: Outcome,
) -> bool {
    match host.shown(expr, machine.scope()) {
        Ok(literal) => outcome == machine.receive_text(waiting, host.text(literal)),
        Err(error) => {
            &&& outcome.1 == ActionView::Failed(error)
            &&& outcome.0.tasks.len() == 0
            &&& outcome.0.ast.len() == 0
        },
    }
}

/// The transitions that showing an expression to a task takes.
pub open spec fn telling_cost(host: Host, expr: ExprView, scope: Scope) -> nat {
    host.shown_cost(expr, scope) + match host.shown(expr, scope) {
        Ok(literal) => Host::text_cost(literal),
        Err(_) => 0nat,
    }
}

/// An expression that is shown to a task that waits for a text reaches it as
/// the text of what it shows.
pub proof fn presentation_is_told(
    host: Host,
    machine: MachineView,
    waiting: TaskView,
    expr: ExprView,
    before: ActionView,
)
    requires
        machine.env.len() > 0,
        MachineView::waits_for_text(waiting),
    ensures
        told(
            host,
            machine,
            waiting,
            expr,
            host.run(
                (machine.push(waiting).push(TaskView::Display(expr)), before),
                telling_cost(host, expr, machine.scope()),
            ),
        ),
{
    let start = (machine.push(waiting).push(TaskView::Display(expr)), before);
    let cost = host.shown_cost(expr, machine.scope());
    presentation_arrives(host, machine.push(waiting), expr, before);
    with_own_scope(machine.push(waiting));
    match host.shown(expr, machine.scope()) {
        Ok(literal) => {
            literal_arrives_as_text(host, machine, waiting, literal);
            run_adds_up(host, start, cost, Host::text_cost(literal));
        },
        Err(_) => {},
    }
}

/// A declaration binds its name to the text of what its expression shows.
pub proof fn declaration_binds_what_is_shown(
    host: Host,
    machine: MachineView,
    name: Seq<char>,
    init: ExprView,
    before: ActionView,
)
    requires
        machine.env.len() > 0,
    ensures
        ({
            let declaration = StatementView::Var { name, init };
            let outcome = host.run(
                (machine.push(TaskView::Execute(declaration)), before),
                1 + telling_cost(host, init, machine.scope()),
            );
            match host.shown(init, machine.scope()) {
                Ok(literal) => outcome == (
                    machine.bind(name, host.text(literal)),
                    ActionView::Continue,
                ),
                Err(error) => outcome.1 == ActionView::Failed(error),
            }
        }),
{
    broadcast use push_then_pop;

    let declaration = StatementView::Var { name, init };
    let start = (machine.push(TaskView::Execute(declaration)), before);
    run_once(host, start);
    presentation_is_told(host, machine, TaskView::Bind { name }, init, ActionView::Continue);
    run_adds_up(host, start, 1, telling_cost(host, init, machine.scope()));
}

/// `speak` has the text of what its expression shows printed, and changes
/// nothing.
pub proof fn speech_prints_what_is_shown(
    host: Host,
    machine: MachineView,
    expression: ExprView,
    before: ActionView,
)
    requires
        machine.env.len() > 0,
    ensures
        ({
            let speech = StatementView::Speak { expression };
            let outcome = host.run(
                (machine.push(TaskView::Execute(speech)), before),
                1 + telling_cost(host, expression, machine.scope()),
            );
            match host.shown(expression, machine.scope()) {
                Ok(literal) => outcome == (machine, ActionView::Speak(host.text(literal))),
                Err(error) => outcome.1 == ActionView::Failed(error),
            }
        }),
{
    broadcast use push_then_pop;

    let speech = StatementView::Speak { expression };
    let start = (machine.push(TaskView::Execute(speech)), before);
    run_once(host, start);
    presentation_is_told(host, machine, TaskView::Print, expression, ActionView::Continue);
    run_adds_up(host, start, 1, telling_cost(host, expression, machine.scope()));
}

/// An assignment binds its name, in place, to the text of what its value
/// shows.
pub proof fn assignment_binds_what_is_shown(
    host: Host,
    machine: MachineView,
    name: Seq<char>,
    value: ExprView,
)
    requires
        machine.env.len() > 0,
    ensures
        ({
            let assignment = ExprView::Assign { name, value: Box::new(value) };
            let (result, scope) = host.value(assignment, machine.scope());
            match host.shown(value, machine.scope()) {
                Ok(literal) => {
                    &&& result == Ok::<LiteralView, EvalError>(
                        LiteralView::String(assigned_text()),
                    )
                    &&& with_scope(machine, scope) == machine.bind(name, host.text(literal))
                },
                Err(error) => result == Err::<LiteralView, EvalError>(error),
            }
        }),
{
}

/// A branch acts on the value of its condition: `True` starts its statement,
/// `False` does nothing, anything else fails. What the condition binds stays
/// bound.
pub proof fn branch_acts_on_its_condition(
    host: Host,
    machine: MachineView,
    condition: ExprView,
    then: StatementView,
    before: ActionView,
)
    requires
        machine.env.len() > 0,
    ensures
        ({
            let branch = StatementView::Branch { condition, then: Box::new(then) };
            let (result, scope) = host.value(condition, machine.scope());
            let outcome = host.run(
                (machine.push(TaskView::Execute(branch)), before),
                1 + host.value_cost(condition, machine.scope()) + if result is Ok {
                    1nat
                } else {
                    0nat
                },
            );
            match result {
                Ok(literal) => outcome == with_scope(machine, scope).decide(then, literal),
                Err(error) => outcome.1 == ActionView::Failed(error),
            }
        }),
{
    broadcast use push_then_pop;

    let branch = StatementView::Branch { condition, then: Box::new(then) };
    let start = (machine.push(TaskView::Execute(branch)), before);
    let waiting = machine.push(TaskView::Decide { then });
    let cost = host.value_cost(condition, machine.scope());
    let (result, scope) = host.value(condition, machine.scope());
    run_once(host, start);
    evaluation_arrives(host, waiting, condition, ActionView::Continue);
    run_adds_up(host, start, 1, cost);
    match result {
        Ok(literal) => {
            let arrived = host.run(start, 1 + cost);
            assert(with_scope(waiting, scope) == with_scope(machine, scope).push(
                TaskView::Decide { then },
            ));
            assert(arrived.0.pop().pop() == with_scope(machine, scope));
            run_once(host, arrived);
            run_adds_up(host, start, 1 + cost, 1);
        },
        Err(_) => {},
    }
}

/// An expression statement evaluates its expression in place and keeps the
/// value as the last one.
pub proof fn expression_statement_keeps_its_value(
    host: Host,
    machine: MachineView,
    expression: ExprView,
    before: ActionView,
)
    requires
        machine.env.len() > 0,
        machine.tasks.len() == 0 || !MachineView::waits_for_value(machine.tasks.last()),
    ensures
        ({
            let statement = StatementView::Expression { expression };
            let (result, scope) = host.value(expression, machine.scope());
            let outcome = host.run(
                (machine.push(TaskView::Execute(statement)), before),
                1 + host.value_cost(expression, machine.scope()) + if result is Ok {
                    1nat
                } else {
                    0nat
                },
            );
            match result {
                Ok(literal) => outcome == (
                    MachineView { last: Some(literal), ..with_scope(machine, scope) },
                    ActionView::Continue,
                ),
                Err(error) => outcome.1 == ActionView::Failed(error),
            }
        }),
{
    broadcast use push_then_pop;

    let statement = StatementView::Expression { expression };
    let start = (machine.push(TaskView::Execute(statement)), before);
    let cost = host.value_cost(expression, machine.scope());
    let (result, scope) = host.value(expression, machine.scope());
    run_once(host, start);
    evaluation_arrives(host, machine, expression, ActionView::Continue);
    run_adds_up(host, start, 1, cost);
    match result {
        Ok(literal) => {
            let arrived = host.run(start, 1 + cost);
            let after = with_scope(machine, scope);
            assert(arrived.0.pop() == after);
            run_once(host, arrived);
            run_adds_up(host, start, 1 + cost, 1);
            if after.tasks.len() > 0 {
                assert(after.pop().push(after.tasks.last()).tasks == after.tasks);
            }
        },
        Err(_) => {},
    }
}

/// What an expression statement binds inside a block is bound outside the
/// block once the block is left, whether the name was bound there before or
/// not: the scope around the block takes every binding of the block's scope.
pub proof fn block_passes_bindings_outwards(
    host: Host,
    machine: MachineView,
    expression: ExprView,
    before: ActionView,
)
    requires
        machine.env.len() > 0,
    ensures
        ({
            let statement = StatementView::Expression { expression };
            let nested = StatementView::Block { statements: seq![statement] };
            let (result, scope) = host.value(expression, machine.scope());
            let outcome = host.run(
                (machine.push(TaskView::Execute(nested)), before),
                host.value_cost(expression, machine.scope()) + if result is Ok {
                    4nat
                } else {
                    2nat
                },
            );
            match result {
                Ok(literal) => outcome == (
                    MachineView {
                        last: Some(literal),
                        ..with_scope(machine, machine.scope().union_prefer_right(scope))
                    },
                    ActionView::Continue,
                ),
                Err(error) => outcome.1 == ActionView::Failed(error),
            }
        }),
{
    broadcast use push_then_pop;

    let statement = StatementView::Expression { expression };
    let nested = StatementView::Block { statements: seq![statement] };
    let start = (machine.push(TaskView::Execute(nested)), before);
    let inside = machine.enter_scope().push(TaskView::LeaveBlock);
    let cost = host.value_cost(expression, machine.scope());
    let (result, scope) = host.value(expression, machine.scope());
    let first = host.run(start, 1);
    run_once(host, start);
    assert(first == (inside.push(TaskView::Execute(statement)), ActionView::Continue)) by {
        assert(schedule(seq![statement]) == seq![TaskView::Execute(statement)]);
        assert(machine.tasks.push(TaskView::LeaveBlock) + seq![TaskView::Execute(statement)]
            == machine.tasks.push(TaskView::LeaveBlock).push(TaskView::Execute(statement)));
    }
    assert(inside.scope() == machine.scope());
    expression_statement_keeps_its_value(host, inside, expression, ActionView::Continue);
    match result {
        Ok(literal) => {
            run_adds_up(host, start, 1, 1 + cost + 1);
            let second = host.run(start, 1 + (1 + cost + 1));
            let used = with_scope(machine.enter_scope(), scope);
            assert(with_scope(inside, scope) == used.push(TaskView::LeaveBlock));
            assert(second.0.pop() == MachineView { last: Some(literal), ..used });
            assert(used.leave_scope().env == with_scope(
                machine,
                machine.scope().union_prefer_right(scope),
            ).env);
            run_once(host, second);
            run_adds_up(host, start, 1 + (1 + cost + 1), 1);
        },
        Err(_) => {
            run_adds_up(host, start, 1, 1 + cost);
        },
    }
}

} // verus!

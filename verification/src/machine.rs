//! The evaluator as a mathematical machine.
//!
//! A state holds the stack of scopes, the statements of the program that have
//! not been started, the stack of pending tasks and the value that was
//! produced last without anything waiting for it. [`MachineView::step`] is the
//! transition function: from a state and the event that the host reports to the
//! next state and the action that the host is asked to perform.

use vstd::prelude::*;
use crate::ast::{ExprView, LiteralView, StatementView};
use crate::number::{is_zero, numbers_equal};
use crate::protocol::{ActionView, EvalError, EventView, Operation};
use crate::task::TaskView;
use crate::tokens::TokenView;

verus! {

/// One scope: the text bound to each name.
pub type Scope = Map<Seq<char>, Seq<char>>;

/// The text that stands for truth.
pub open spec fn true_text() -> Seq<char> {
    "True"@
}

/// The text that stands for falsehood.
pub open spec fn false_text() -> Seq<char> {
    "False"@
}

/// The text that an assignment yields as its value.
pub open spec fn assigned_text() -> Seq<char> {
    "Successd"@
}

/// The text that stands for a truth value.
pub open spec fn truth_text(truth: bool) -> Seq<char> {
    if truth {
        true_text()
    } else {
        false_text()
    }
}

/// The text without the carriage returns and line feeds at its end.
pub open spec fn strip_line_ending(text: Seq<char>) -> Seq<char>
    decreases text.len(),
{
    if text.len() > 0 && (text.last() == '\n' || text.last() == '\r') {
        strip_line_ending(text.drop_last())
    } else {
        text
    }
}

/// The arithmetic operation that a token denotes, if it denotes one.
pub open spec fn operation_of(operator: TokenView) -> Option<Operation> {
    match operator {
        TokenView::OperatorAdd => Some(Operation::Add),
        TokenView::OperatorSub => Some(Operation::Subtract),
        TokenView::OperatorMul => Some(Operation::Multiply),
        TokenView::OperatorDiv => Some(Operation::Divide),
        _ => None,
    }
}

/// The tasks that run the statements in order: the first statement is on top of
/// the stack, which is the end of the sequence.
pub open spec fn schedule(statements: Seq<StatementView>) -> Seq<TaskView> {
    Seq::new(
        statements.len(),
        |i: int| TaskView::Execute(statements[statements.len() - 1 - i]),
    )
}

/// A state of the evaluator.
pub struct MachineView {
    /// The scopes, the innermost last.
    pub env: Seq<Scope>,
    /// The statements of the program that have not been started.
    pub ast: Seq<StatementView>,
    /// The pending tasks, the next one last.
    pub tasks: Seq<TaskView>,
    /// The value produced last that nothing was waiting for.
    pub last: Option<LiteralView>,
}

/// A state together with the action that led to it.
pub type Outcome = (MachineView, ActionView);

impl MachineView {
    /// The innermost scope.
    pub open spec fn scope(self) -> Scope {
        self.env.last()
    }

    /// The state with one more task on top.
    pub open spec fn push(self, task: TaskView) -> MachineView {
        MachineView { tasks: self.tasks.push(task), ..self }
    }

    /// The state with `name` bound to `text` in the innermost scope.
    pub open spec fn bind(self, name: Seq<char>, text: Seq<char>) -> MachineView {
        MachineView {
            env: self.env.update(self.env.len() - 1, self.scope().insert(name, text)),
            ..self
        }
    }

    /// The state with a new innermost scope that is a copy of the current one.
    pub open spec fn enter_scope(self) -> MachineView {
        MachineView { env: self.env.push(self.scope()), ..self }
    }

    /// The state in which the bindings of the innermost scope have been copied
    /// into the scope around it. With a single scope nothing changes.
    pub open spec fn merge_scope(self) -> MachineView {
        if self.env.len() < 2 {
            self
        } else {
            MachineView {
                env: self.env.update(
                    self.env.len() - 2,
                    self.env[self.env.len() - 2].union_prefer_right(self.scope()),
                ),
                ..self
            }
        }
    }

    /// The state without its innermost scope. The outermost scope is never
    /// discarded.
    pub open spec fn discard_scope(self) -> MachineView {
        if self.env.len() < 2 {
            self
        } else {
            MachineView { env: self.env.drop_last(), ..self }
        }
    }

    /// The state after a block: its bindings are copied outwards, then its
    /// scope is discarded.
    pub open spec fn leave_scope(self) -> MachineView {
        self.merge_scope().discard_scope()
    }

    /// The state with nothing left to do.
    pub open spec fn halt(self) -> MachineView {
        MachineView { ast: Seq::empty(), tasks: Seq::empty(), ..self }
    }

    /// Failure: nothing is left to do and the host is told why.
    pub open spec fn fail(self, error: EvalError) -> Outcome {
        (self.halt(), ActionView::Failed(error))
    }

    /// A value is handed to whatever waits below.
    pub open spec fn yield_value(self, value: LiteralView) -> Outcome {
        (self.push(TaskView::Return(value)), ActionView::Continue)
    }

    /// The text bound to a name in the innermost scope is yielded as a string.
    pub open spec fn lookup(self, name: Seq<char>) -> Outcome {
        if self.scope().contains_key(name) {
            self.yield_value(LiteralView::String(self.scope()[name]))
        } else {
            self.fail(EvalError::UnboundVariable)
        }
    }

    /// One statement is started.
    pub open spec fn execute(self, statement: StatementView) -> Outcome {
        match statement {
            StatementView::Block { statements } => (
                MachineView {
                    tasks: self.tasks.push(TaskView::LeaveBlock) + schedule(statements),
                    ..self.enter_scope()
                },
                ActionView::Continue,
            ),
            StatementView::Expression { expression } => (
                self.push(TaskView::Evaluate(expression)),
                ActionView::Continue,
            ),
            StatementView::Branch { condition, then } => (
                self.push(TaskView::Decide { then: *then }).push(
                    TaskView::Evaluate(condition),
                ),
                ActionView::Continue,
            ),
            StatementView::Loop { body } => (
                self.push(TaskView::Execute(statement)).push(TaskView::Execute(*body)),
                ActionView::Continue,
            ),
            StatementView::Speak { expression } => (
                self.push(TaskView::Print).push(TaskView::Display(expression)),
                ActionView::Continue,
            ),
            StatementView::Input { input } => (
                self.push(TaskView::AwaitLine { name: input }),
                ActionView::Input,
            ),
            StatementView::Var { name, init } => (
                self.push(TaskView::Bind { name }).push(TaskView::Display(init)),
                ActionView::Continue,
            ),
            StatementView::Exit => (self.halt(), ActionView::Exit),
        }
    }

    /// One node of an expression is reduced towards a literal.
    pub open spec fn evaluate(self, expr: ExprView) -> Outcome {
        match expr {
            ExprView::Assign { name, value } => (
                self.push(TaskView::Assigned { name }).push(TaskView::Display(*value)),
                ActionView::Continue,
            ),
            ExprView::Binary { left, operator, right } => (
                self.push(TaskView::BinaryLeft { operator, right: *right }).push(
                    TaskView::Evaluate(*left),
                ),
                ActionView::Continue,
            ),
            ExprView::Literal { value } => self.yield_value(value),
            ExprView::Variable { name } => self.lookup(name),
        }
    }

    /// One node of an expression is reduced towards the literal to be shown.
    /// An assignment has no such literal; a binary operation is evaluated in a
    /// scratch copy of the innermost scope.
    pub open spec fn display(self, expr: ExprView) -> Outcome {
        match expr {
            ExprView::Assign { .. } => self.fail(EvalError::IllegalChainedAssignment),
            ExprView::Binary { .. } => (
                self.enter_scope().push(TaskView::DropScratch).push(TaskView::Evaluate(expr)),
                ActionView::Continue,
            ),
            ExprView::Literal { value } => self.yield_value(value),
            ExprView::Variable { name } => self.lookup(name),
        }
    }

    /// An arithmetic operation on two numbers: division by a zero fails, every
    /// other operation is asked of the host.
    pub open spec fn arithmetic(self, operation: Operation, left: u64, right: u64) -> Outcome {
        if operation == Operation::Divide && is_zero(right) {
            self.fail(EvalError::DivisionByZero)
        } else {
            (
                self.push(TaskView::AwaitCompute { operation, left, right }),
                ActionView::Compute { operation, left, right },
            )
        }
    }

    /// An arithmetic operation on operands that are not both numbers: the host
    /// is asked what the text of an operand denotes, the left operand first.
    pub open spec fn arithmetic_on_texts(
        self,
        operation: Operation,
        left: LiteralView,
        right: LiteralView,
    ) -> Outcome {
        match (left, right) {
            (LiteralView::Number(a), LiteralView::Number(b)) => self.arithmetic(operation, a, b),
            (LiteralView::String(s), _) => (
                self.push(TaskView::AwaitParseLeft { operation, left: s, right }),
                ActionView::Parse(s),
            ),
            (LiteralView::Number(a), LiteralView::String(t)) => (
                self.push(TaskView::AwaitParseRight { operation, number: a, left, right: t }),
                ActionView::Parse(t),
            ),
        }
    }

    /// What an arithmetic operation comes to when the text of an operand
    /// denotes no number: addition of two texts joins them, anything else
    /// fails.
    pub open spec fn not_numbers(
        self,
        operation: Operation,
        left: LiteralView,
        right: LiteralView,
    ) -> Outcome {
        match (operation, left, right) {
            (Operation::Add, LiteralView::String(s), LiteralView::String(t)) => self.yield_value(
                LiteralView::String(s + t),
            ),
            _ => self.fail(EvalError::TypeMismatch),
        }
    }

    /// A number is compared with a text, or joined to one, by its decimal text:
    /// the number is handed to a task that waits for a text.
    pub open spec fn by_text(self, waiting: TaskView, number: u64) -> Outcome {
        (
            self.push(waiting).push(TaskView::Return(LiteralView::Number(number))),
            ActionView::Continue,
        )
    }

    /// A binary operator is applied to its two operands.
    pub open spec fn combine(
        self,
        operator: TokenView,
        left: LiteralView,
        right: LiteralView,
    ) -> Outcome {
        match operator {
            TokenView::OperatorAdd => match (left, right) {
                (LiteralView::Number(a), LiteralView::Number(b)) => self.arithmetic(
                    Operation::Add,
                    a,
                    b,
                ),
                (LiteralView::String(_), LiteralView::String(_)) => self.arithmetic_on_texts(
                    Operation::Add,
                    left,
                    right,
                ),
                (LiteralView::String(s), LiteralView::Number(b)) => self.by_text(
                    TaskView::Prepend { text: s },
                    b,
                ),
                (LiteralView::Number(a), LiteralView::String(t)) => self.by_text(
                    TaskView::Append { text: t },
                    a,
                ),
            },
            TokenView::OperatorSub | TokenView::OperatorMul | TokenView::OperatorDiv => {
                self.arithmetic_on_texts(operation_of(operator)->0, left, right)
            },
            TokenView::WEqual => match (left, right) {
                (LiteralView::String(s), LiteralView::String(t)) => self.yield_value(
                    LiteralView::String(truth_text(s == t)),
                ),
                (LiteralView::String(s), LiteralView::Number(b)) => self.by_text(
                    TaskView::EqualTo { text: s },
                    b,
                ),
                (LiteralView::Number(a), LiteralView::String(t)) => self.by_text(
                    TaskView::EqualTo { text: t },
                    a,
                ),
                (LiteralView::Number(a), LiteralView::Number(b)) => self.yield_value(
                    LiteralView::String(truth_text(numbers_equal(a, b))),
                ),
            },
            _ => self.fail(EvalError::MissingOperator),
        }
    }

    /// Whether the task waits for a text.
    pub open spec fn waits_for_text(task: TaskView) -> bool {
        ||| task is Assigned
        ||| task is Bind
        ||| task is Print
        ||| task is Prepend
        ||| task is Append
        ||| task is EqualTo
    }

    /// Whether the task waits for a value.
    pub open spec fn waits_for_value(task: TaskView) -> bool {
        ||| task is BinaryLeft
        ||| task is BinaryRight
        ||| task is Decide
        ||| task is DropScratch
        ||| Self::waits_for_text(task)
    }

    /// Whether the task waits for an answer of the host.
    pub open spec fn waits_for_host(task: TaskView) -> bool {
        ||| task is AwaitLine
        ||| task is AwaitRender
        ||| task is AwaitParseLeft
        ||| task is AwaitParseRight
        ||| task is AwaitCompute
    }

    /// A text reaches the task that waited for it.
    pub open spec fn receive_text(self, waiting: TaskView, text: Seq<char>) -> Outcome {
        match waiting {
            TaskView::Assigned { name } => self.bind(name, text).yield_value(
                LiteralView::String(assigned_text()),
            ),
            TaskView::Bind { name } => (self.bind(name, text), ActionView::Continue),
            TaskView::Print => (self, ActionView::Speak(text)),
            TaskView::Prepend { text: before } => self.yield_value(
                LiteralView::String(before + text),
            ),
            TaskView::Append { text: after } => self.yield_value(LiteralView::String(text + after)),
            TaskView::EqualTo { text: other } => self.yield_value(
                LiteralView::String(truth_text(text == other)),
            ),
            _ => (self, ActionView::Continue),
        }
    }

    /// The condition of a branch has been evaluated.
    pub open spec fn decide(self, then: StatementView, value: LiteralView) -> Outcome {
        if value == LiteralView::String(true_text()) {
            (self.push(TaskView::Execute(then)), ActionView::Continue)
        } else if value == LiteralView::String(false_text()) {
            (self, ActionView::Continue)
        } else {
            self.fail(EvalError::NonBooleanCondition)
        }
    }

    /// A value reaches the task that was below it on the stack. A task that
    /// waits for a text has a number written out by the host first. Where the
    /// task waits for nothing, it stays and the value is kept as the last one.
    pub open spec fn deliver(self, waiting: TaskView, value: LiteralView) -> Outcome {
        match waiting {
            TaskView::BinaryLeft { operator, right } => (
                self.push(TaskView::BinaryRight { operator, left: value }).push(
                    TaskView::Evaluate(right),
                ),
                ActionView::Continue,
            ),
            TaskView::BinaryRight { operator, left } => self.combine(operator, left, value),
            TaskView::Decide { then } => self.decide(then, value),
            TaskView::DropScratch => self.discard_scope().yield_value(value),
            _ => if Self::waits_for_text(waiting) {
                match value {
                    LiteralView::Number(number) => (
                        self.push(waiting).push(TaskView::AwaitRender { number }),
                        ActionView::Render(number),
                    ),
                    LiteralView::String(text) => self.receive_text(waiting, text),
                }
            } else {
                (MachineView { last: Some(value), ..self.push(waiting) }, ActionView::Continue)
            },
        }
    }

    /// What a task that waits for the host asks for.
    pub open spec fn request(waiting: TaskView) -> ActionView {
        match waiting {
            TaskView::AwaitLine { .. } => ActionView::Input,
            TaskView::AwaitRender { number } => ActionView::Render(number),
            TaskView::AwaitParseLeft { left, .. } => ActionView::Parse(left),
            TaskView::AwaitParseRight { right, .. } => ActionView::Parse(right),
            TaskView::AwaitCompute { operation, left, right } => ActionView::Compute {
                operation,
                left,
                right,
            },
            _ => ActionView::Continue,
        }
    }

    /// Whether the event is the answer that the task waits for.
    pub open spec fn answers(waiting: TaskView, event: EventView) -> bool {
        match waiting {
            TaskView::AwaitLine { .. } => event is Line,
            TaskView::AwaitRender { .. } => event is Rendered,
            TaskView::AwaitParseLeft { .. } => event is Parsed,
            TaskView::AwaitParseRight { .. } => event is Parsed,
            TaskView::AwaitCompute { .. } => event is Computed,
            _ => false,
        }
    }

    /// The host has reported an event to a task that waited for it. An event
    /// that is no answer leaves the task waiting and repeats its request.
    pub open spec fn answer(self, waiting: TaskView, event: EventView) -> Outcome {
        if !Self::answers(waiting, event) {
            (self.push(waiting), Self::request(waiting))
        } else {
            match (waiting, event) {
                (TaskView::AwaitLine { name }, EventView::Line(text)) => (
                    self.bind(name, strip_line_ending(text)),
                    ActionView::Continue,
                ),
                (TaskView::AwaitRender { .. }, EventView::Rendered(text)) => self.yield_value(
                    LiteralView::String(text),
                ),
                (
                    TaskView::AwaitParseLeft { operation, left, right },
                    EventView::Parsed(Some(number)),
                ) => match right {
                    LiteralView::Number(other) => self.arithmetic(operation, number, other),
                    LiteralView::String(text) => (
                        self.push(
                            TaskView::AwaitParseRight {
                                operation,
                                number,
                                left: LiteralView::String(left),
                                right: text,
                            },
                        ),
                        ActionView::Parse(text),
                    ),
                },
                (
                    TaskView::AwaitParseLeft { operation, left, right },
                    EventView::Parsed(None),
                ) => self.not_numbers(operation, LiteralView::String(left), right),
                (
                    TaskView::AwaitParseRight { operation, number, .. },
                    EventView::Parsed(Some(other)),
                ) => self.arithmetic(operation, number, other),
                (
                    TaskView::AwaitParseRight { operation, left, right, .. },
                    EventView::Parsed(None),
                ) => self.not_numbers(operation, left, LiteralView::String(right)),
                (TaskView::AwaitCompute { .. }, EventView::Computed(bits)) => self.yield_value(
                    LiteralView::Number(bits),
                ),
                _ => (self, ActionView::Continue),
            }
        }
    }

    /// The state without the task on top of its stack.
    pub open spec fn pop(self) -> MachineView {
        MachineView { tasks: self.tasks.drop_last(), ..self }
    }

    /// The next statement of the program is started. With no statement left the
    /// program is finished.
    pub open spec fn start_next(self) -> Outcome {
        if self.ast.len() == 0 {
            (self, ActionView::Finished)
        } else {
            (
                MachineView { ast: self.ast.drop_first(), ..self }.push(
                    TaskView::Execute(self.ast.first()),
                ),
                ActionView::Continue,
            )
        }
    }

    /// A value has been produced: it goes to the task below, or, with nothing
    /// below, is kept as the last one.
    pub open spec fn hand_down(self, value: LiteralView) -> Outcome {
        if self.tasks.len() == 0 {
            (MachineView { last: Some(value), ..self }, ActionView::Continue)
        } else {
            self.pop().deliver(self.tasks.last(), value)
        }
    }

    /// One task is performed. The state is that without the task.
    pub open spec fn perform(self, task: TaskView, event: EventView) -> Outcome {
        match task {
            TaskView::Execute(statement) => self.execute(statement),
            TaskView::Evaluate(expr) => self.evaluate(expr),
            TaskView::Display(expr) => self.display(expr),
            TaskView::Return(value) => self.hand_down(value),
            TaskView::LeaveBlock => (self.leave_scope(), ActionView::Continue),
            _ => if Self::waits_for_host(task) {
                self.answer(task, event)
            } else {
                (self, ActionView::Continue)
            },
        }
    }

    /// One transition of the evaluator.
    pub open spec fn step(self, event: EventView) -> Outcome {
        if self.tasks.len() == 0 {
            self.start_next()
        } else {
            self.pop().perform(self.tasks.last(), event)
        }
    }
}

/// A task that has been put on the stack is the one on top, and below it the
/// state is what it was.
pub broadcast proof fn push_then_pop(machine: MachineView, task: TaskView)
    ensures
        (#[trigger] machine.push(task)).pop() == machine,
        machine.push(task).tasks.len() > 0,
        machine.push(task).tasks.last() == task,
{
    assert(machine.tasks.push(task).drop_last() == machine.tasks);
}

impl MachineView {
    /// The state after `count` transitions in which the host has nothing to
    /// report.
    pub open spec fn idle(self, count: nat) -> MachineView
        decreases count,
    {
        if count == 0 {
            self
        } else {
            self.step(EventView::Resume).0.idle((count - 1) as nat)
        }
    }

    /// No transition discards the outermost scope.
    pub proof fn step_keeps_scope(self, event: EventView)
        requires
            self.env.len() > 0,
        ensures
            self.step(event).0.env.len() > 0,
    {
    }
}

} // verus!

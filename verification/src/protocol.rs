//! What the evaluator and its host say to each other.
//!
//! The evaluator returns an [`Action`] from every transition. Where the action
//! asks for something, the host answers with the matching [`Event`] on the
//! next transition; otherwise it answers [`Event::Resume`].

use vstd::prelude::*;

verus! {

/// The four arithmetic operations on numbers.
#[derive(Debug, Clone, Copy, PartialEq, Eq, Structural)]
pub enum Operation {
    Add,
    Subtract,
    Multiply,
    Divide,
}

/// The conditions that end a program with a failure.
#[derive(Debug, Clone, Copy, PartialEq, Eq, Structural)]
pub enum EvalError {
    /// A variable was read that no scope binds.
    UnboundVariable,
    /// Subtraction, multiplication or division met an operand that is not a
    /// number.
    TypeMismatch,
    /// Division by a zero.
    DivisionByZero,
    /// The condition of a branch is neither `True` nor `False`.
    NonBooleanCondition,
    /// An assignment stands where a value is expected.
    IllegalChainedAssignment,
    /// A binary node carries a token that is no operator.
    MissingOperator,
}

/// What the host reports to the evaluator.
#[derive(Debug, PartialEq)]
pub enum Event {
    /// Nothing to report.
    Resume,
    /// The line that was read, as it came.
    Line(String),
    /// The number that a text denotes, if it denotes one.
    Parsed(Option<u64>),
    /// The decimal text of a number.
    Rendered(String),
    /// The result of an arithmetic operation.
    Computed(u64),
}

/// The mathematical image of an [`Event`].
pub enum EventView {
    Resume,
    Line(Seq<char>),
    Parsed(Option<u64>),
    Rendered(Seq<char>),
    Computed(u64),
}

impl View for Event {
    type V = EventView;

    open spec fn view(&self) -> EventView {
        match self {
            Event::Resume => EventView::Resume,
            Event::Line(text) => EventView::Line(text@),
            Event::Parsed(number) => EventView::Parsed(*number),
            Event::Rendered(text) => EventView::Rendered(text@),
            Event::Computed(bits) => EventView::Computed(*bits),
        }
    }
}

/// What the evaluator asks of its host.
#[derive(Debug, PartialEq)]
pub enum Action {
    /// Nothing; call again.
    Continue,
    /// Print the text and a line end.
    Speak(String),
    /// Read one line and report it with [`Event::Line`].
    Input,
    /// End the process with success.
    Exit,
    /// Read the text as a number and report it with [`Event::Parsed`].
    Parse(String),
    /// Write the number in decimal and report it with [`Event::Rendered`].
    Render(u64),
    /// Apply the operation and report the result with [`Event::Computed`].
    Compute { operation: Operation, left: u64, right: u64 },
    /// The program has run to its end.
    Finished,
    /// The program has failed.
    Failed(EvalError),
}

/// The mathematical image of an [`Action`].
pub enum ActionView {
    Continue,
    Speak(Seq<char>),
    Input,
    Exit,
    Parse(Seq<char>),
    Render(u64),
    Compute { operation: Operation, left: u64, right: u64 },
    Finished,
    Failed(EvalError),
}

impl View for Action {
    type V = ActionView;

    open spec fn view(&self) -> ActionView {
        match self {
            Action::Continue => ActionView::Continue,
            Action::Speak(text) => ActionView::Speak(text@),
            Action::Input => ActionView::Input,
            Action::Exit => ActionView::Exit,
            Action::Parse(text) => ActionView::Parse(text@),
            Action::Render(bits) => ActionView::Render(*bits),
            Action::Compute { operation, left, right } => ActionView::Compute {
                operation: *operation,
                left: *left,
                right: *right,
            },
            Action::Finished => ActionView::Finished,
            Action::Failed(error) => ActionView::Failed(*error),
        }
    }
}

} // verus!

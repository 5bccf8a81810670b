//! The units of pending work of the evaluator.
//!
//! The evaluator keeps a stack of tasks. A task on top of the stack is what
//! happens next; a task below waits for what the tasks above it produce.

use vstd::prelude::*;
use crate::ast::{Expr, ExprView, LiteralValue, LiteralView, Statement, StatementView};
use crate::protocol::Operation;
use crate::tokens::{Token, TokenView};

verus! {

/// One unit of pending work.
#[derive(Debug)]
#[allow(inconsistent_fields)]
pub enum Task {
    /// Run a statement.
    Execute(Box<Statement>),
    /// Reduce an expression to a literal.
    Evaluate(Box<Expr>),
    /// Reduce an expression to the literal that is to be shown.
    Display(Box<Expr>),
    /// Hand a literal to the task below.
    Return(LiteralValue),
    /// Waits for the left operand, then evaluates the right one.
    BinaryLeft { operator: Token, right: Box<Expr> },
    /// Waits for the right operand, then applies the operator.
    BinaryRight { operator: Token, left: LiteralValue },
    /// Waits for the condition of a branch.
    Decide { then: Box<Statement> },
    /// Waits for a value, discards the scratch scope and passes the value on.
    DropScratch,
    /// Waits for a text, binds it and yields the marker of a finished
    /// assignment.
    Assigned { name: String },
    /// Waits for a text and binds it.
    Bind { name: String },
    /// Waits for a text and has it printed.
    Print,
    /// Waits for a text and yields `text` followed by it.
    Prepend { text: String },
    /// Waits for a text and yields it followed by `text`.
    Append { text: String },
    /// Waits for a text and yields whether it equals `text`.
    EqualTo { text: String },
    /// Leaves the scope of a block.
    LeaveBlock,
    /// Waits for the host to report the line it read.
    AwaitLine { name: String },
    /// Waits for the host to report the decimal text of a number.
    AwaitRender { number: u64 },
    /// Waits for the host to report what the text of the left operand denotes.
    AwaitParseLeft { operation: Operation, left: String, right: LiteralValue },
    /// Waits for the host to report what the text of the right operand denotes;
    /// the left operand is known to be `number`.
    AwaitParseRight { operation: Operation, number: u64, left: LiteralValue, right: String },
    /// Waits for the host to report the result of an operation.
    AwaitCompute { operation: Operation, left: u64, right: u64 },
}

/// The mathematical image of a [`Task`].
#[allow(inconsistent_fields)]
pub enum TaskView {
    Execute(StatementView),
    Evaluate(ExprView),
    Display(ExprView),
    Return(LiteralView),
    BinaryLeft { operator: TokenView, right: ExprView },
    BinaryRight { operator: TokenView, left: LiteralView },
    Decide { then: StatementView },
    DropScratch,
    Assigned { name: Seq<char> },
    Bind { name: Seq<char> },
    Print,
    Prepend { text: Seq<char> },
    Append { text: Seq<char> },
    EqualTo { text: Seq<char> },
    LeaveBlock,
    AwaitLine { name: Seq<char> },
    AwaitRender { number: u64 },
    AwaitParseLeft { operation: Operation, left: Seq<char>, right: LiteralView },
    AwaitParseRight { operation: Operation, number: u64, left: LiteralView, right: Seq<char> },
    AwaitCompute { operation: Operation, left: u64, right: u64 },
}

impl View for Task {
    type V = TaskView;

    open spec fn view(&self) -> TaskView {
        match self {
            Task::Execute(statement) => TaskView::Execute(statement@),
            Task::Evaluate(expr) => TaskView::Evaluate(expr@),
            Task::Display(expr) => TaskView::Display(expr@),
            Task::Return(value) => TaskView::Return(value@),
            Task::BinaryLeft { operator, right } => TaskView::BinaryLeft {
                operator: operator@,
                right: right@,
            },
            Task::BinaryRight { operator, left } => TaskView::BinaryRight {
                operator: operator@,
                left: left@,
            },
            Task::Decide { then } => TaskView::Decide { then: then@ },
            Task::DropScratch => TaskView::DropScratch,
            Task::Assigned { name } => TaskView::Assigned { name: name@ },
            Task::Bind { name } => TaskView::Bind { name: name@ },
            Task::Print => TaskView::Print,
            Task::Prepend { text } => TaskView::Prepend { text: text@ },
            Task::Append { text } => TaskView::Append { text: text@ },
            Task::EqualTo { text } => TaskView::EqualTo { text: text@ },
            Task::LeaveBlock => TaskView::LeaveBlock,
            Task::AwaitLine { name } => TaskView::AwaitLine { name: name@ },
            Task::AwaitRender { number } => TaskView::AwaitRender { number: *number },
            Task::AwaitParseLeft { operation, left, right } => TaskView::AwaitParseLeft {
                operation: *operation,
                left: left@,
                right: right@,
            },
            Task::AwaitParseRight { operation, number, left, right } => TaskView::AwaitParseRight {
                operation: *operation,
                number: *number,
                left: left@,
                right: right@,
            },
            Task::AwaitCompute { operation, left, right } => TaskView::AwaitCompute {
                operation: *operation,
                left: *left,
                right: *right,
            },
        }
    }
}

/// The images of a stack of tasks, bottom first.
pub open spec fn task_views(tasks: Seq<Task>) -> Seq<TaskView> {
    Seq::new(tasks.len(), |i: int| tasks[i]@)
}

} // verus!

//! The syntax tree: expressions and statements.
//!
//! Every node owns its children. Each type has a mathematical image over
//! sequences of characters, in which the contracts of the evaluator are
//! stated.

use vstd::prelude::*;
use crate::tokens::{Token, TokenView};

verus! {

/// An immediate value. A number is held as the bit pattern of an IEEE-754
/// binary64 value.
#[derive(Debug, PartialEq)]
pub enum LiteralValue {
    Number(u64),
    String(String),
}

/// The mathematical image of a [`LiteralValue`].
pub enum LiteralView {
    Number(u64),
    String(Seq<char>),
}

impl View for LiteralValue {
    type V = LiteralView;

    open spec fn view(&self) -> LiteralView {
        match self {
            LiteralValue::Number(bits) => LiteralView::Number(*bits),
            LiteralValue::String(text) => LiteralView::String(text@),
        }
    }
}

impl Clone for LiteralValue {
    fn clone(&self) -> (result: Self)
        ensures
            result@ == self@,
    {
        match self {
            LiteralValue::Number(bits) => LiteralValue::Number(*bits),
            LiteralValue::String(text) => LiteralValue::String(text.clone()),
        }
    }
}

/// An expression.
#[derive(Debug, PartialEq)]
#[allow(inconsistent_fields)]
pub enum Expr {
    /// Assignment to a named variable, for example `a = b + c`.
    Assign { name: String, value: Box<Expr> },
    /// A binary operation, for example `b + c`.
    Binary { left: Box<Expr>, operator: Token, right: Box<Expr> },
    /// A number or a string.
    Literal { value: LiteralValue },
    /// A reference to a variable.
    Variable { name: String },
}

/// The mathematical image of an [`Expr`].
#[allow(inconsistent_fields)]
pub enum ExprView {
    Assign { name: Seq<char>, value: Box<ExprView> },
    Binary { left: Box<ExprView>, operator: TokenView, right: Box<ExprView> },
    Literal { value: LiteralView },
    Variable { name: Seq<char> },
}

/// The image of an expression, node by node.
pub open spec fn expr_view(expr: Expr) -> ExprView
    decreases expr,
{
    match expr {
        Expr::Assign { name, value } => ExprView::Assign {
            name: name@,
            value: Box::new(expr_view(*value)),
        },
        Expr::Binary { left, operator, right } => ExprView::Binary {
            left: Box::new(expr_view(*left)),
            operator: operator@,
            right: Box::new(expr_view(*right)),
        },
        Expr::Literal { value } => ExprView::Literal { value: value@ },
        Expr::Variable { name } => ExprView::Variable { name: name@ },
    }
}

impl View for Expr {
    type V = ExprView;

    open spec fn view(&self) -> ExprView {
        expr_view(*self)
    }
}

impl Clone for Expr {
    fn clone(&self) -> (result: Self)
        ensures
            result@ == self@,
        decreases self,
    {
        match self {
            Expr::Assign { name, value } => Expr::Assign {
                name: name.clone(),
                value: Box::new((**value).clone()),
            },
            Expr::Binary { left, operator, right } => Expr::Binary {
                left: Box::new((**left).clone()),
                operator: operator.clone(),
                right: Box::new((**right).clone()),
            },
            Expr::Literal { value } => Expr::Literal { value: value.clone() },
            Expr::Variable { name } => Expr::Variable { name: name.clone() },
        }
    }
}

/// A statement.
#[derive(Debug, PartialEq)]
#[allow(inconsistent_fields)]
pub enum Statement {
    /// A sequence of statements in a scope of its own.
    Block { statements: Vec<Box<Statement>> },
    /// An expression evaluated for its effect.
    Expression { expression: Box<Expr> },
    /// A conditional with a single arm.
    Branch { condition: Box<Expr>, then: Box<Statement> },
    /// An unconditional repetition.
    Loop { body: Box<Statement> },
    /// Prints the value of an expression.
    Speak { expression: Box<Expr> },
    /// Reads one line and binds it to the named variable.
    Input { input: String },
    /// Declares a variable.
    Var { name: String, init: Box<Expr> },
    /// Ends the program.
    Exit,
}

/// The mathematical image of a [`Statement`].
#[allow(inconsistent_fields)]
pub enum StatementView {
    Block { statements: Seq<StatementView> },
    Expression { expression: ExprView },
    Branch { condition: ExprView, then: Box<StatementView> },
    Loop { body: Box<StatementView> },
    Speak { expression: ExprView },
    Input { input: Seq<char> },
    Var { name: Seq<char>, init: ExprView },
    Exit,
}

/// The image of a statement, node by node.
pub open spec fn statement_view(statement: Statement) -> StatementView
    decreases statement,
{
    match statement {
        Statement::Block { statements } => StatementView::Block {
            statements: Seq::new(
                statements@.len(),
                |i: int|
                    if 0 <= i < statements@.len() {
                        statement_view(*statements@[i])
                    } else {
                        StatementView::Exit
                    },
            ),
        },
        Statement::Expression { expression } => StatementView::Expression {
            expression: expression@,
        },
        Statement::Branch { condition, then } => StatementView::Branch {
            condition: condition@,
            then: Box::new(statement_view(*then)),
        },
        Statement::Loop { body } => StatementView::Loop { body: Box::new(statement_view(*body)) },
        Statement::Speak { expression } => StatementView::Speak { expression: expression@ },
        Statement::Input { input } => StatementView::Input { input: input@ },
        Statement::Var { name, init } => StatementView::Var { name: name@, init: init@ },
        Statement::Exit => StatementView::Exit,
    }
}

impl View for Statement {
    type V = StatementView;

    open spec fn view(&self) -> StatementView {
        statement_view(*self)
    }
}

/// The images of a sequence of statements, in order.
pub open spec fn statement_views(statements: Seq<Box<Statement>>) -> Seq<StatementView> {
    Seq::new(statements.len(), |i: int| statements[i]@)
}

impl Clone for Statement {
    fn clone(&self) -> (result: Self)
        ensures
            result@ == self@,
        decreases self,
    {
        match self {
            Statement::Block { statements } => {
                let mut copies: Vec<Box<Statement>> = Vec::new();
                let mut i: usize = 0;
                while i < statements.len()
                    invariant
                        i <= statements.len(),
                        copies.len() == i,
                        forall|j: int| 0 <= j < i ==> copies@[j]@ == statements@[j]@,
                        self == (Statement::Block { statements: *statements }),
                    decreases statements.len() - i,
                {
                    assert(decreases_to!(self => statements@[i as int])) by {
                        assert(self->statements == *statements);
                        assert(decreases_to!(self => self->statements));
                        assert(decreases_to!(self->statements => self->statements@));
                        assert(decreases_to!(self->statements@ => self->statements@[i as int]));
                    }
                    let copy = (*statements[i]).clone();
                    copies.push(Box::new(copy));
                    i += 1;
                }
                let result = Statement::Block { statements: copies };
                assert(result@ == self@) by {
                    assert(result@->statements =~= self@->statements);
                }
                result
            },
            Statement::Expression { expression } => Statement::Expression {
                expression: Box::new((**expression).clone()),
            },
            Statement::Branch { condition, then } => Statement::Branch {
                condition: Box::new((**condition).clone()),
                then: Box::new((**then).clone()),
            },
            Statement::Loop { body } => Statement::Loop { body: Box::new((**body).clone()) },
            Statement::Speak { expression } => Statement::Speak {
                expression: Box::new((**expression).clone()),
            },
            Statement::Input { input } => Statement::Input { input: input.clone() },
            Statement::Var { name, init } => Statement::Var {
                name: name.clone(),
                init: Box::new((**init).clone()),
            },
            Statement::Exit => Statement::Exit,
        }
    }
}

} // verus!

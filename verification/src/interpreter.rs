//! The evaluator: syntax trees run against a stack of scopes, one transition at
//! a time.

use vstd::prelude::*;
use crate::ast::{
    Expr, ExprView, LiteralValue, LiteralView, Statement, StatementView, statement_views,
};
use crate::environment::Frame;
use crate::machine::{MachineView, Scope, operation_of, schedule};
use crate::number::{equal, zero};
use crate::protocol::{Action, EvalError, Event, Operation};
use crate::task::{Task, TaskView, task_views};
use crate::text::{assigned, join, strip, truth};
use crate::tokens::Token;

verus! {

/// The images of a stack of scopes, the outermost first.
pub open spec fn scope_views(env: Seq<Frame>) -> Seq<Scope> {
    Seq::new(env.len(), |i: int| env[i]@)
}

/// The image of a value that may be absent.
pub open spec fn last_view(last: Option<LiteralValue>) -> Option<LiteralView> {
    match last {
        Some(value) => Some(value@),
        None => None,
    }
}

/// The state of a running program.
///
/// Entering a block pushes a copy of the innermost scope; leaving it copies the
/// bindings of that scope into the one around it and discards it.
#[derive(Debug)]
pub struct Interpreter {
    /// The scopes, the innermost last. There is always at least one.
    pub env: Vec<Frame>,
    /// The statements of the program that have not been started.
    pub ast: Vec<Box<Statement>>,
    /// The pending tasks, the next one last.
    pub tasks: Vec<Task>,
    /// The value produced last that nothing was waiting for.
    pub last: Option<LiteralValue>,
}

impl View for Interpreter {
    type V = MachineView;

    open spec fn view(&self) -> MachineView {
        MachineView {
            env: scope_views(self.env@),
            ast: statement_views(self.ast@),
            tasks: task_views(self.tasks@),
            last: last_view(self.last),
        }
    }
}

impl Interpreter {
    /// A program that has not been started, with one empty scope.
    pub fn new(ast: Vec<Box<Statement>>) -> (result: Self)
        ensures
            result@.env == seq![Map::<Seq<char>, Seq<char>>::empty()],
            result@.ast == statement_views(ast@),
            result@.tasks == Seq::<TaskView>::empty(),
            result@.last == None::<LiteralView>,
    {
        let mut env: Vec<Frame> = Vec::new();
        env.push(Frame::new());
        let result = Interpreter { env, ast, tasks: Vec::new(), last: None };
        assert(result@.env =~= seq![Map::<Seq<char>, Seq<char>>::empty()]);
        assert(result@.tasks =~= Seq::<TaskView>::empty());
        result
    }

    /// Pushes a copy of the innermost scope.
    pub fn add_new_env(&mut self)
        requires
            old(self)@.env.len() > 0,
        ensures
            final(self)@ == old(self)@.enter_scope(),
    {
        let copy = self.env[self.env.len() - 1].clone();
        self.env.push(copy);
        assert(self@.env =~= old(self)@.enter_scope().env);
    }

    /// Copies the bindings of the innermost scope into the scope around it.
    /// With a single scope nothing changes.
    pub fn update_env(&mut self)
        ensures
            final(self)@ == old(self)@.merge_scope(),
    {
        if self.env.len() < 2 {
            return ;
        }
        let inner = self.env.pop().unwrap();
        let mut outer = self.env.pop().unwrap();
        outer.merge(&inner);
        self.env.push(outer);
        self.env.push(inner);
        assert(self@.env =~= old(self)@.merge_scope().env);
    }

    /// Leaves the innermost scope: its bindings are copied outwards, then it is
    /// discarded. The outermost scope is never discarded.
    pub fn rm_now_env(&mut self)
        ensures
            final(self)@ == old(self)@.leave_scope(),
    {
        self.update_env();
        self.discard_scope();
    }

    /// Discards the innermost scope, unless it is the only one.
    fn discard_scope(&mut self)
        ensures
            final(self)@ == old(self)@.discard_scope(),
    {
        if self.env.len() >= 2 {
            self.env.pop();
            assert(self@.env =~= old(self)@.discard_scope().env);
        }
    }

    /// Binds a name to a text in the innermost scope.
    pub fn add_new_var(&mut self, name: String, text: String)
        requires
            old(self)@.env.len() > 0,
        ensures
            final(self)@ == old(self)@.bind(name@, text@),
    {
        let mut frame = self.env.pop().unwrap();
        frame.insert(name, text);
        self.env.push(frame);
        assert(self@.env =~= old(self)@.bind(name@, text@).env);
    }

    /// Puts a task on top of the stack.
    fn push(&mut self, task: Task)
        ensures
            final(self)@ == old(self)@.push(task@),
    {
        self.tasks.push(task);
        assert(self@.tasks =~= old(self)@.push(task@).tasks);
    }

    /// Drops everything that is left to do.
    fn halt(&mut self)
        ensures
            final(self)@ == old(self)@.halt(),
    {
        self.ast = Vec::new();
        self.tasks = Vec::new();
        assert(self@.tasks =~= Seq::<TaskView>::empty());
        assert(self@.ast =~= Seq::empty());
    }

    /// Ends the program with a failure.
    fn fail(&mut self, error: EvalError) -> (action: Action)
        ensures
            (final(self)@, action@) == old(self)@.fail(error),
    {
        self.halt();
        Action::Failed(error)
    }

    /// Hands a value to whatever waits below.
    fn yield_value(&mut self, value: LiteralValue) -> (action: Action)
        ensures
            (final(self)@, action@) == old(self)@.yield_value(value@),
    {
        self.push(Task::Return(value));
        Action::Continue
    }

    /// Yields the text bound to a name in the innermost scope.
    fn lookup(&mut self, name: &String) -> (action: Action)
        requires
            old(self)@.env.len() > 0,
        ensures
            (final(self)@, action@) == old(self)@.lookup(name@),
    {
        let found = match self.env[self.env.len() - 1].get(name) {
            Some(text) => Some(text.clone()),
            None => None,
        };
        match found {
            Some(text) => self.yield_value(LiteralValue::String(text)),
            None => self.fail(EvalError::UnboundVariable),
        }
    }
}

/// The two ways in which an expression is reduced, one node at a time.
pub trait Utils {
    /// The expression that is reduced.
    spec fn expression(&self) -> ExprView;

    /// Reduces the expression towards the literal that is to be shown: a
    /// literal is yielded as it is, a variable as the text bound to it, a binary
    /// operation is evaluated in a scratch copy of the innermost scope, and an
    /// assignment fails.
    fn trans(self, interpreter: &mut Interpreter) -> (action: Action)
        requires
            old(interpreter)@.env.len() > 0,
        ensures
            (final(interpreter)@, action@) == old(interpreter)@.display(self.expression()),
    ;

    /// Reduces the expression towards a literal: a literal is yielded as it is,
    /// a variable as the text bound to it, a binary operation has its left
    /// operand evaluated first, and an assignment has its value shown and
    /// bound.
    fn exec(self, interpreter: &mut Interpreter) -> (action: Action)
        requires
            old(interpreter)@.env.len() > 0,
        ensures
            (final(interpreter)@, action@) == old(interpreter)@.evaluate(self.expression()),
    ;
}

impl Utils for Box<Expr> {
    open spec fn expression(&self) -> ExprView {
        (**self)@
    }

    fn trans(self, interpreter: &mut Interpreter) -> (action: Action) {
        match *self {
            Expr::Assign { name, value } => interpreter.fail(EvalError::IllegalChainedAssignment),
            Expr::Binary { left, operator, right } => {
                interpreter.add_new_env();
                interpreter.push(Task::DropScratch);
                interpreter.push(Task::Evaluate(Box::new(Expr::Binary { left, operator, right })));
                Action::Continue
            },
            Expr::Literal { value } => interpreter.yield_value(value),
            Expr::Variable { name } => interpreter.lookup(&name),
        }
    }

    fn exec(self, interpreter: &mut Interpreter) -> (action: Action) {
        match *self {
            Expr::Assign { name, value } => {
                interpreter.push(Task::Assigned { name });
                interpreter.push(Task::Display(value));
                Action::Continue
            },
            Expr::Binary { left, operator, right } => {
                interpreter.push(Task::BinaryLeft { operator, right });
                interpreter.push(Task::Evaluate(left));
                Action::Continue
            },
            Expr::Literal { value } => interpreter.yield_value(value),
            Expr::Variable { name } => interpreter.lookup(&name),
        }
    }
}

impl Interpreter {
    /// Starts one statement.
    pub fn execute(&mut self, statement: Box<Statement>) -> (action: Action)
        requires
            old(self)@.env.len() > 0,
        ensures
            (final(self)@, action@) == old(self)@.execute(statement@),
    {
        match *statement {
            Statement::Block { statements } => {
                let ghost all = statement_views(statements@);
                assert(statement@ == (StatementView::Block { statements: all })) by {
                    assert(statement@->statements =~= all);
                }
                let mut rest = statements;
                self.add_new_env();
                self.push(Task::LeaveBlock);
                let ghost base = self@;
                assert(self@.tasks == base.tasks + schedule(all).subrange(0, 0));
                while rest.len() > 0
                    invariant
                        rest.len() <= all.len(),
                        statement_views(rest@) == all.subrange(0, rest.len() as int),
                        self@ == (MachineView {
                            tasks: base.tasks + schedule(all).subrange(
                                0,
                                all.len() - rest.len(),
                            ),
                            ..base
                        }),
                    decreases rest.len(),
                {
                    let ghost before = rest@;
                    let next = rest.pop().unwrap();
                    assert(statement_views(rest@) == all.subrange(0, rest.len() as int)) by {
                        assert(statement_views(rest@) =~= statement_views(before).drop_last());
                    }
                    assert(next@ == all[rest.len() as int]) by {
                        assert(statement_views(before)[rest.len() as int] == next@);
                    }
                    self.push(Task::Execute(next));
                    assert(self@.tasks == base.tasks + schedule(all).subrange(
                        0,
                        all.len() - rest.len(),
                    ));
                }
                assert(schedule(all).subrange(0, all.len() as int) == schedule(all));
                Action::Continue
            },
            Statement::Expression { expression } => {
                self.push(Task::Evaluate(expression));
                Action::Continue
            },
            Statement::Branch { condition, then } => {
                self.push(Task::Decide { then });
                self.push(Task::Evaluate(condition));
                Action::Continue
            },
            Statement::Loop { body } => {
                let again = Statement::Loop { body: Box::new((*body).clone()) };
                self.push(Task::Execute(Box::new(again)));
                self.push(Task::Execute(body));
                Action::Continue
            },
            Statement::Speak { expression } => {
                self.push(Task::Print);
                self.push(Task::Display(expression));
                Action::Continue
            },
            Statement::Input { input } => {
                self.push(Task::AwaitLine { name: input });
                Action::Input
            },
            Statement::Var { name, init } => {
                self.push(Task::Bind { name });
                self.push(Task::Display(init));
                Action::Continue
            },
            Statement::Exit => {
                self.halt();
                Action::Exit
            },
        }
    }
}

/// The arithmetic operation that a token denotes, if it denotes one.
pub fn operation(operator: &Token) -> (result: Option<Operation>)
    ensures
        result == operation_of(operator@),
{
    match operator {
        Token::OperatorAdd => Some(Operation::Add),
        Token::OperatorSub => Some(Operation::Subtract),
        Token::OperatorMul => Some(Operation::Multiply),
        Token::OperatorDiv => Some(Operation::Divide),
        _ => None,
    }
}

impl Interpreter {
    /// An arithmetic operation on two numbers: division by a zero fails, every
    /// other operation is asked of the host.
    pub fn arithmetic(&mut self, operation: Operation, left: u64, right: u64) -> (action: Action)
        ensures
            (final(self)@, action@) == old(self)@.arithmetic(operation, left, right),
    {
        if matches!(operation, Operation::Divide) && zero(right) {
            self.fail(EvalError::DivisionByZero)
        } else {
            self.push(Task::AwaitCompute { operation, left, right });
            Action::Compute { operation, left, right }
        }
    }

    /// An arithmetic operation on operands that are not both numbers: the host
    /// is asked what the text of an operand denotes, the left operand first.
    fn arithmetic_on_texts(
        &mut self,
        operation: Operation,
        left: LiteralValue,
        right: LiteralValue,
    ) -> (action: Action)
        ensures
            (final(self)@, action@) == old(self)@.arithmetic_on_texts(operation, left@, right@),
    {
        match (left, right) {
            (LiteralValue::Number(a), LiteralValue::Number(b)) => self.arithmetic(operation, a, b),
            (LiteralValue::String(s), right) => {
                let asked = s.clone();
                self.push(Task::AwaitParseLeft { operation, left: s, right });
                Action::Parse(asked)
            },
            (LiteralValue::Number(a), LiteralValue::String(t)) => {
                let asked = t.clone();
                self.push(
                    Task::AwaitParseRight {
                        operation,
                        number: a,
                        left: LiteralValue::Number(a),
                        right: t,
                    },
                );
                Action::Parse(asked)
            },
        }
    }

    /// What an arithmetic operation comes to when the text of an operand
    /// denotes no number.
    fn not_numbers(&mut self, operation: Operation, left: LiteralValue, right: LiteralValue) -> (action:
        Action)
        ensures
            (final(self)@, action@) == old(self)@.not_numbers(operation, left@, right@),
    {
        match (operation, left, right) {
            (Operation::Add, LiteralValue::String(s), LiteralValue::String(t)) => self.yield_value(
                LiteralValue::String(join(s, &t)),
            ),
            _ => self.fail(EvalError::TypeMismatch),
        }
    }

    /// Hands a number to a task that waits for a text.
    fn by_text(&mut self, waiting: Task, number: u64) -> (action: Action)
        ensures
            (final(self)@, action@) == old(self)@.by_text(waiting@, number),
    {
        self.push(waiting);
        self.push(Task::Return(LiteralValue::Number(number)));
        Action::Continue
    }

    /// Applies a binary operator to its two operands.
    ///
    /// Addition adds two numbers, adds two texts that both denote numbers, and
    /// joins everything else as text. Subtraction, multiplication and division
    /// take numbers and texts that denote numbers. Equality compares two numbers
    /// as numbers and everything else as text.
    pub fn combine(&mut self, operator: Token, left: LiteralValue, right: LiteralValue) -> (action:
        Action)
        ensures
            (final(self)@, action@) == old(self)@.combine(operator@, left@, right@),
    {
        match operator {
            Token::OperatorAdd => match (left, right) {
                (LiteralValue::Number(a), LiteralValue::Number(b)) => self.arithmetic(
                    Operation::Add,
                    a,
                    b,
                ),
                (LiteralValue::String(s), LiteralValue::String(t)) => self.arithmetic_on_texts(
                    Operation::Add,
                    LiteralValue::String(s),
                    LiteralValue::String(t),
                ),
                (LiteralValue::String(s), LiteralValue::Number(b)) => self.by_text(
                    Task::Prepend { text: s },
                    b,
                ),
                (LiteralValue::Number(a), LiteralValue::String(t)) => self.by_text(
                    Task::Append { text: t },
                    a,
                ),
            },
            Token::OperatorSub | Token::OperatorMul | Token::OperatorDiv => {
                let operation = operation(&operator).unwrap();
                self.arithmetic_on_texts(operation, left, right)
            },
            Token::WEqual => match (left, right) {
                (LiteralValue::String(s), LiteralValue::String(t)) => self.yield_value(
                    LiteralValue::String(truth(s == t)),
                ),
                (LiteralValue::String(s), LiteralValue::Number(b)) => self.by_text(
                    Task::EqualTo { text: s },
                    b,
                ),
                (LiteralValue::Number(a), LiteralValue::String(t)) => self.by_text(
                    Task::EqualTo { text: t },
                    a,
                ),
                (LiteralValue::Number(a), LiteralValue::Number(b)) => self.yield_value(
                    LiteralValue::String(truth(equal(a, b))),
                ),
            },
            _ => self.fail(EvalError::MissingOperator),
        }
    }

    /// Hands a text to the task that waited for it.
    fn receive_text(&mut self, waiting: Task, text: String) -> (action: Action)
        requires
            old(self)@.env.len() > 0,
        ensures
            (final(self)@, action@) == old(self)@.receive_text(waiting@, text@),
    {
        match waiting {
            Task::Assigned { name } => {
                self.add_new_var(name, text);
                self.yield_value(LiteralValue::String(assigned()))
            },
            Task::Bind { name } => {
                self.add_new_var(name, text);
                Action::Continue
            },
            Task::Print => Action::Speak(text),
            Task::Prepend { text: before } => self.yield_value(
                LiteralValue::String(join(before, &text)),
            ),
            Task::Append { text: after } => self.yield_value(
                LiteralValue::String(join(text, &after)),
            ),
            Task::EqualTo { text: other } => self.yield_value(
                LiteralValue::String(truth(text == other)),
            ),
            _ => Action::Continue,
        }
    }

    /// Acts on the condition of a branch: `True` starts the statement, `False`
    /// does nothing, anything else fails.
    pub fn decide(&mut self, then: Box<Statement>, value: LiteralValue) -> (action: Action)
        ensures
            (final(self)@, action@) == old(self)@.decide(then@, value@),
    {
        match value {
            LiteralValue::String(text) => {
                if text == truth(true) {
                    self.push(Task::Execute(then));
                    Action::Continue
                } else if text == truth(false) {
                    Action::Continue
                } else {
                    self.fail(EvalError::NonBooleanCondition)
                }
            },
            LiteralValue::Number(_) => self.fail(EvalError::NonBooleanCondition),
        }
    }
}

/// Whether the task waits for a text.
fn waits_for_text(task: &Task) -> (result: bool)
    ensures
        result == MachineView::waits_for_text(task@),
{
    match task {
        Task::Assigned { .. } => true,
        Task::Bind { .. } => true,
        Task::Print => true,
        Task::Prepend { .. } => true,
        Task::Append { .. } => true,
        Task::EqualTo { .. } => true,
        _ => false,
    }
}

/// What a task that waits for the host asks for.
fn request(waiting: &Task) -> (action: Action)
    ensures
        action@ == MachineView::request(waiting@),
{
    match waiting {
        Task::AwaitLine { .. } => Action::Input,
        Task::AwaitRender { number } => Action::Render(*number),
        Task::AwaitParseLeft { left, .. } => Action::Parse(left.clone()),
        Task::AwaitParseRight { right, .. } => Action::Parse(right.clone()),
        Task::AwaitCompute { operation, left, right } => Action::Compute {
            operation: *operation,
            left: *left,
            right: *right,
        },
        _ => Action::Continue,
    }
}

impl Interpreter {
    /// Hands a value to the task that was below it on the stack.
    pub fn deliver(&mut self, waiting: Task, value: LiteralValue) -> (action: Action)
        requires
            old(self)@.env.len() > 0,
        ensures
            (final(self)@, action@) == old(self)@.deliver(waiting@, value@),
    {
        match waiting {
            Task::BinaryLeft { operator, right } => {
                self.push(Task::BinaryRight { operator, left: value });
                self.push(Task::Evaluate(right));
                Action::Continue
            },
            Task::BinaryRight { operator, left } => self.combine(operator, left, value),
            Task::Decide { then } => self.decide(then, value),
            Task::DropScratch => {
                self.discard_scope();
                self.yield_value(value)
            },
            other => {
                if waits_for_text(&other) {
                    match value {
                        LiteralValue::Number(number) => {
                            self.push(other);
                            self.push(Task::AwaitRender { number });
                            Action::Render(number)
                        },
                        LiteralValue::String(text) => self.receive_text(other, text),
                    }
                } else {
                    self.push(other);
                    self.last = Some(value);
                    Action::Continue
                }
            },
        }
    }

    /// Takes the report of the host for a task that waited for it.
    pub fn answer(&mut self, waiting: Task, event: Event) -> (action: Action)
        requires
            old(self)@.env.len() > 0,
        ensures
            (final(self)@, action@) == old(self)@.answer(waiting@, event@),
    {
        match (waiting, event) {
            (Task::AwaitLine { name }, Event::Line(text)) => {
                self.add_new_var(name, strip(&text));
                Action::Continue
            },
            (Task::AwaitRender { .. }, Event::Rendered(text)) => self.yield_value(
                LiteralValue::String(text),
            ),
            (Task::AwaitParseLeft { operation, left, right }, Event::Parsed(Some(number))) => {
                match right {
                    LiteralValue::Number(other) => self.arithmetic(operation, number, other),
                    LiteralValue::String(text) => {
                        let asked = text.clone();
                        self.push(
                            Task::AwaitParseRight {
                                operation,
                                number,
                                left: LiteralValue::String(left),
                                right: text,
                            },
                        );
                        Action::Parse(asked)
                    },
                }
            },
            (Task::AwaitParseLeft { operation, left, right }, Event::Parsed(None)) => {
                self.not_numbers(operation, LiteralValue::String(left), right)
            },
            (Task::AwaitParseRight { operation, number, .. }, Event::Parsed(Some(other))) => {
                self.arithmetic(operation, number, other)
            },
            (Task::AwaitParseRight { operation, left, right, .. }, Event::Parsed(None)) => {
                self.not_numbers(operation, left, LiteralValue::String(right))
            },
            (Task::AwaitCompute { .. }, Event::Computed(bits)) => self.yield_value(
                LiteralValue::Number(bits),
            ),
            (waiting, _) => {
                let action = request(&waiting);
                self.push(waiting);
                action
            },
        }
    }

    /// Starts the next statement of the program, if there is one.
    fn start_next(&mut self) -> (action: Action)
        ensures
            (final(self)@, action@) == old(self)@.start_next(),
    {
        if self.ast.len() == 0 {
            Action::Finished
        } else {
            let statement = self.ast.remove(0);
            assert(statement_views(self.ast@) =~= old(self)@.ast.drop_first());
            self.push(Task::Execute(statement));
            Action::Continue
        }
    }

    /// Hands a value down the stack, or keeps it where nothing is below.
    fn hand_down(&mut self, value: LiteralValue) -> (action: Action)
        requires
            old(self)@.env.len() > 0,
        ensures
            (final(self)@, action@) == old(self)@.hand_down(value@),
    {
        match self.tasks.pop() {
            None => {
                self.last = Some(value);
                assert(self@.tasks =~= old(self)@.tasks);
                Action::Continue
            },
            Some(waiting) => {
                assert(self@.tasks =~= old(self)@.pop().tasks);
                self.deliver(waiting, value)
            },
        }
    }

    /// Performs one task that has been taken off the stack.
    fn perform(&mut self, task: Task, event: Event) -> (action: Action)
        requires
            old(self)@.env.len() > 0,
        ensures
            (final(self)@, action@) == old(self)@.perform(task@, event@),
    {
        match task {
            Task::Execute(statement) => self.execute(statement),
            Task::Evaluate(expr) => expr.exec(self),
            Task::Display(expr) => expr.trans(self),
            Task::Return(value) => self.hand_down(value),
            Task::LeaveBlock => {
                self.rm_now_env();
                Action::Continue
            },
            Task::AwaitLine { name } => self.answer(Task::AwaitLine { name }, event),
            Task::AwaitRender { number } => self.answer(Task::AwaitRender { number }, event),
            Task::AwaitParseLeft { operation, left, right } => self.answer(
                Task::AwaitParseLeft { operation, left, right },
                event,
            ),
            Task::AwaitParseRight { operation, number, left, right } => self.answer(
                Task::AwaitParseRight { operation, number, left, right },
                event,
            ),
            Task::AwaitCompute { operation, left, right } => self.answer(
                Task::AwaitCompute { operation, left, right },
                event,
            ),
            _ => Action::Continue,
        }
    }

    /// Performs one transition of the program and says what the host is to do.
    ///
    /// With no task pending the next statement of the program is started; with
    /// no statement left the program is finished. The event is the answer to
    /// what the previous transition asked for; after any other transition it is
    /// not looked at.
    pub fn interpret(&mut self, event: Event) -> (action: Action)
        requires
            old(self)@.env.len() > 0,
        ensures
            (final(self)@, action@) == old(self)@.step(event@),
            final(self)@.env.len() > 0,
    {
        proof {
            self@.step_keeps_scope(event@);
        }
        let ghost before = self@;
        match self.tasks.pop() {
            None => {
                assert(self@.tasks =~= before.tasks);
                self.start_next()
            },
            Some(task) => {
                assert(self@.tasks =~= before.pop().tasks);
                self.perform(task, event)
            },
        }
    }
}

} // verus!

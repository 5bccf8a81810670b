use robot_dsl::ast::{Expr, LiteralValue, Statement};
use robot_dsl::interpreter::{Interpreter, Utils};
use robot_dsl::protocol::{Action, EvalError, Event, Operation};
use robot_dsl::tokens::Token;

/// How a run ended.
#[derive(Debug, PartialEq)]
enum End {
    Finished,
    Exited,
    Failed(EvalError),
    OutOfSteps,
}

fn number(value: f64) -> LiteralValue {
    LiteralValue::Number(value.to_bits())
}

fn text(value: &str) -> LiteralValue {
    LiteralValue::String(value.to_string())
}

fn literal(value: LiteralValue) -> Box<Expr> {
    Box::new(Expr::Literal { value })
}

fn variable(name: &str) -> Box<Expr> {
    Box::new(Expr::Variable { name: name.to_string() })
}

fn binary(left: Box<Expr>, operator: Token, right: Box<Expr>) -> Box<Expr> {
    Box::new(Expr::Binary { left, operator, right })
}

fn compute(operation: Operation, left: u64, right: u64) -> u64 {
    let a = f64::from_bits(left);
    let b = f64::from_bits(right);
    let result = match operation {
        Operation::Add => a + b,
        Operation::Subtract => a - b,
        Operation::Multiply => a * b,
        Operation::Divide => a / b,
    };
    result.to_bits()
}

/// Plays the host: performs what the evaluator asks for until the program ends.
fn drive(interpreter: &mut Interpreter, input: &[&str], output: &mut Vec<String>) -> End {
    let mut lines = input.iter();
    let mut event = Event::Resume;
    for _ in 0..100_000 {
        assert!(!interpreter.env.is_empty());
        event = match interpreter.interpret(event) {
            Action::Continue => Event::Resume,
            Action::Speak(line) => {
                output.push(line);
                Event::Resume
            }
            Action::Input => Event::Line(format!("{}\n", lines.next().expect("a line of input"))),
            Action::Exit => return End::Exited,
            Action::Parse(source) => Event::Parsed(source.parse::<f64>().ok().map(f64::to_bits)),
            Action::Render(bits) => Event::Rendered(f64::from_bits(bits).to_string()),
            Action::Compute { operation, left, right } => {
                Event::Computed(compute(operation, left, right))
            }
            Action::Finished => return End::Finished,
            Action::Failed(error) => return End::Failed(error),
        };
    }
    End::OutOfSteps
}

/// Evaluates one expression in the innermost scope and returns its literal.
fn evaluate(interpreter: &mut Interpreter, expr: Box<Expr>) -> Result<LiteralValue, EvalError> {
    interpreter.last = None;
    let first = expr.exec(interpreter);
    if let Action::Failed(error) = first {
        return Err(error);
    }
    let mut output = Vec::new();
    match drive(interpreter, &[], &mut output) {
        End::Failed(error) => Err(error),
        End::Finished => Ok(interpreter.last.take().expect("a value")),
        other => panic!("unexpected end: {:?}", other),
    }
}

#[test]
fn test_addition() {
    let mut interpreter = Interpreter::new(vec![]);

    let name_var_assign_expr = Box::new(Expr::Assign {
        name: "name".to_string(),
        value: literal(text("Tom")),
    });
    evaluate(&mut interpreter, name_var_assign_expr).unwrap();

    let concat_expr = binary(
        literal(text("你好")),
        Token::OperatorAdd,
        binary(variable("name"), Token::OperatorAdd, literal(text("，请问有什么需要帮助的？"))),
    );
    let result = evaluate(&mut interpreter, concat_expr).unwrap();
    assert_eq!(
        Box::new(Expr::Literal { value: result }),
        Box::new(Expr::Literal { value: text("你好Tom，请问有什么需要帮助的？") })
    );
}

#[test]
fn test_complex_equality() {
    let mut interpreter = Interpreter::new(vec![]);
    let env = interpreter.env.last_mut().unwrap();
    env.insert("x".to_string(), "Hello".to_string());

    let eq_expr = binary(variable("x"), Token::WEqual, literal(text("Hello")));
    let result = evaluate(&mut interpreter, eq_expr).unwrap();
    assert_eq!(
        Box::new(Expr::Literal { value: result }),
        Box::new(Expr::Literal { value: text("True") })
    );
}

#[test]
fn number_addition_is_floating_point() {
    let mut interpreter = Interpreter::new(vec![]);
    let sum = binary(literal(number(0.1)), Token::OperatorAdd, literal(number(0.2)));
    assert_eq!(evaluate(&mut interpreter, sum), Ok(number(0.1 + 0.2)));
}

#[test]
fn speak_prints_a_declared_number() {
    let program = vec![
        Box::new(Statement::Var { name: "x".to_string(), init: literal(number(42.0)) }),
        Box::new(Statement::Speak { expression: variable("x") }),
    ];
    let mut interpreter = Interpreter::new(program);
    let mut output = Vec::new();
    assert_eq!(drive(&mut interpreter, &[], &mut output), End::Finished);
    assert_eq!(output, vec!["42".to_string()]);
}

fn assign(name: &str, value: Box<Expr>) -> Box<Expr> {
    Box::new(Expr::Assign { name: name.to_string(), value })
}

fn var(name: &str, init: Box<Expr>) -> Box<Statement> {
    Box::new(Statement::Var { name: name.to_string(), init })
}

fn speak(expression: Box<Expr>) -> Box<Statement> {
    Box::new(Statement::Speak { expression })
}

fn expression(expression: Box<Expr>) -> Box<Statement> {
    Box::new(Statement::Expression { expression })
}

fn block(statements: Vec<Box<Statement>>) -> Box<Statement> {
    Box::new(Statement::Block { statements })
}

fn branch(condition: Box<Expr>, then: Box<Statement>) -> Box<Statement> {
    Box::new(Statement::Branch { condition, then })
}

fn lookup(interpreter: &Interpreter, name: &str) -> Option<String> {
    interpreter.env.last().unwrap().get(&name.to_string()).cloned()
}

/// Runs a program and returns what it printed and how it ended.
fn run(program: Vec<Box<Statement>>, input: &[&str]) -> (Vec<String>, End, Interpreter) {
    let mut interpreter = Interpreter::new(program);
    let mut output = Vec::new();
    let end = drive(&mut interpreter, input, &mut output);
    (output, end, interpreter)
}

fn value_of(expr: Box<Expr>) -> Result<LiteralValue, EvalError> {
    evaluate(&mut Interpreter::new(vec![]), expr)
}

fn apply(left: LiteralValue, operator: Token, right: LiteralValue) -> Result<LiteralValue, EvalError> {
    value_of(binary(literal(left), operator, literal(right)))
}

#[test]
fn arithmetic_on_numbers_is_that_of_the_machine() {
    for (a, b) in [(1.5, 2.25), (0.1, 0.2), (-3.0, 7.0), (1e308, 1e308), (5.0, 0.5)] {
        assert_eq!(apply(number(a), Token::OperatorAdd, number(b)), Ok(number(a + b)));
        assert_eq!(apply(number(a), Token::OperatorSub, number(b)), Ok(number(a - b)));
        assert_eq!(apply(number(a), Token::OperatorMul, number(b)), Ok(number(a * b)));
        assert_eq!(apply(number(a), Token::OperatorDiv, number(b)), Ok(number(a / b)));
    }
    assert_eq!(apply(number(7.0), Token::OperatorSub, number(2.0)), Ok(number(5.0)));
    assert_eq!(apply(number(7.0), Token::OperatorDiv, number(2.0)), Ok(number(3.5)));
}

#[test]
fn division_by_zero_fails() {
    assert_eq!(
        apply(number(1.0), Token::OperatorDiv, number(0.0)),
        Err(EvalError::DivisionByZero)
    );
    assert_eq!(
        apply(number(1.0), Token::OperatorDiv, number(-0.0)),
        Err(EvalError::DivisionByZero)
    );
    assert_eq!(
        apply(text("1"), Token::OperatorDiv, text("0")),
        Err(EvalError::DivisionByZero)
    );
    assert_eq!(
        apply(number(0.0), Token::OperatorDiv, number(4.0)),
        Ok(number(0.0))
    );
    let quotient = apply(number(1.0), Token::OperatorDiv, number(f64::NAN)).unwrap();
    match quotient {
        LiteralValue::Number(bits) => assert!(f64::from_bits(bits).is_nan()),
        other => panic!("not a number: {:?}", other),
    }
}

#[test]
fn addition_joins_texts_that_are_not_both_numbers() {
    assert_eq!(apply(text("ab"), Token::OperatorAdd, text("cd")), Ok(text("abcd")));
    assert_eq!(apply(text("1"), Token::OperatorAdd, text("x")), Ok(text("1x")));
    assert_eq!(apply(text("x"), Token::OperatorAdd, text("1")), Ok(text("x1")));
    assert_eq!(apply(text(""), Token::OperatorAdd, text("")), Ok(text("")));
    assert_eq!(apply(text("1"), Token::OperatorAdd, text("")), Ok(text("1")));
}

#[test]
fn addition_adds_texts_that_are_both_numbers() {
    assert_eq!(apply(text("1"), Token::OperatorAdd, text("2")), Ok(number(3.0)));
    assert_eq!(apply(text("1.5"), Token::OperatorAdd, text("2.5")), Ok(number(4.0)));
    assert_eq!(apply(text("8"), Token::OperatorSub, text("3")), Ok(number(5.0)));
    assert_eq!(apply(text("8"), Token::OperatorMul, text("3")), Ok(number(24.0)));
    assert_eq!(apply(text("8"), Token::OperatorDiv, text("4")), Ok(number(2.0)));
}

#[test]
fn addition_of_text_and_number_joins_them_in_order() {
    assert_eq!(apply(text("n="), Token::OperatorAdd, number(3.0)), Ok(text("n=3")));
    assert_eq!(apply(number(3.5), Token::OperatorAdd, text("!")), Ok(text("3.5!")));
    assert_eq!(apply(text("4"), Token::OperatorAdd, number(2.0)), Ok(text("42")));
}

#[test]
fn arithmetic_on_what_is_no_number_is_a_type_mismatch() {
    for operator in [Token::OperatorSub, Token::OperatorMul, Token::OperatorDiv] {
        let again = || operator.clone();
        assert_eq!(apply(text("a"), again(), text("1")), Err(EvalError::TypeMismatch));
        assert_eq!(apply(text("1"), again(), text("a")), Err(EvalError::TypeMismatch));
        assert_eq!(apply(text("a"), again(), text("b")), Err(EvalError::TypeMismatch));
        assert_eq!(apply(text(""), again(), text("1")), Err(EvalError::TypeMismatch));
        assert_eq!(apply(text("a"), again(), number(1.0)), Err(EvalError::TypeMismatch));
        assert_eq!(apply(number(1.0), again(), text("a")), Err(EvalError::TypeMismatch));
        assert_eq!(apply(number(1.0), again(), text("True")), Err(EvalError::TypeMismatch));
    }
}

#[test]
fn arithmetic_takes_numbers_and_texts_that_denote_them() {
    assert_eq!(apply(number(8.0), Token::OperatorSub, text("3")), Ok(number(5.0)));
    assert_eq!(apply(text("8"), Token::OperatorSub, number(3.0)), Ok(number(5.0)));
    assert_eq!(apply(number(8.0), Token::OperatorMul, text("0.5")), Ok(number(4.0)));
    assert_eq!(apply(text("8"), Token::OperatorDiv, number(4.0)), Ok(number(2.0)));
    assert_eq!(apply(number(8.0), Token::OperatorDiv, text("4")), Ok(number(2.0)));
    assert_eq!(
        apply(number(8.0), Token::OperatorDiv, text("0")),
        Err(EvalError::DivisionByZero)
    );
    assert_eq!(
        apply(text("8"), Token::OperatorDiv, number(0.0)),
        Err(EvalError::DivisionByZero)
    );
}

#[test]
fn equality_yields_true_or_false() {
    assert_eq!(apply(number(5.0), Token::WEqual, text("5")), Ok(text("True")));
    assert_eq!(apply(text("5"), Token::WEqual, number(5.0)), Ok(text("True")));
    assert_eq!(apply(number(5.0), Token::WEqual, text("5.0")), Ok(text("False")));
    assert_eq!(apply(number(2.5), Token::WEqual, number(2.5)), Ok(text("True")));
    assert_eq!(apply(number(2.5), Token::WEqual, number(2.0)), Ok(text("False")));
    assert_eq!(apply(number(0.0), Token::WEqual, number(-0.0)), Ok(text("True")));
    assert_eq!(apply(number(f64::NAN), Token::WEqual, number(f64::NAN)), Ok(text("False")));
    assert_eq!(apply(text("a"), Token::WEqual, text("a")), Ok(text("True")));
    assert_eq!(apply(text("a"), Token::WEqual, text("A")), Ok(text("False")));
    assert_eq!(apply(text("1"), Token::WEqual, text("1.0")), Ok(text("False")));
}

#[test]
fn a_token_that_is_no_operator_fails() {
    for operator in [
        Token::Assign,
        Token::Semicolon,
        Token::KeywordIf,
        Token::Error,
        Token::Identifier("plus".to_string()),
    ] {
        assert_eq!(apply(number(1.0), operator, number(2.0)), Err(EvalError::MissingOperator));
    }
}

#[test]
fn operands_fail_before_the_operator_is_looked_at() {
    let expr = binary(variable("missing"), Token::Semicolon, literal(number(1.0)));
    assert_eq!(value_of(expr), Err(EvalError::UnboundVariable));
}

#[test]
fn a_declared_number_reads_back_as_text() {
    let mut interpreter = Interpreter::new(vec![var("x", literal(number(3.0)))]);
    let mut output = Vec::new();
    assert_eq!(drive(&mut interpreter, &[], &mut output), End::Finished);
    assert_eq!(evaluate(&mut interpreter, variable("x")), Ok(text("3")));
    assert_eq!(lookup(&interpreter, "x"), Some("3".to_string()));
}

#[test]
fn declaring_again_overwrites() {
    let program = vec![
        var("x", literal(text("one"))),
        var("x", literal(text("two"))),
        speak(variable("x")),
    ];
    let (output, end, _) = run(program, &[]);
    assert_eq!(end, End::Finished);
    assert_eq!(output, vec!["two".to_string()]);
}

#[test]
fn an_unbound_variable_fails() {
    assert_eq!(value_of(variable("nowhere")), Err(EvalError::UnboundVariable));
    let (output, end, _) = run(vec![speak(variable("nowhere"))], &[]);
    assert_eq!(end, End::Failed(EvalError::UnboundVariable));
    assert!(output.is_empty());
}

#[test]
fn an_assignment_is_no_value() {
    let chained = assign("y", literal(number(1.0)));
    let (_, end, _) = run(vec![var("x", chained)], &[]);
    assert_eq!(end, End::Failed(EvalError::IllegalChainedAssignment));

    let chained = assign("y", assign("z", literal(number(1.0))));
    let (_, end, _) = run(vec![expression(chained)], &[]);
    assert_eq!(end, End::Failed(EvalError::IllegalChainedAssignment));

    let (_, end, _) = run(vec![speak(assign("y", literal(text("a"))))], &[]);
    assert_eq!(end, End::Failed(EvalError::IllegalChainedAssignment));
}

#[test]
fn an_assignment_statement_binds_in_place() {
    let program = vec![
        expression(assign("x", binary(literal(number(1.0)), Token::OperatorAdd, literal(number(2.0))))),
        speak(variable("x")),
    ];
    let (output, end, interpreter) = run(program, &[]);
    assert_eq!(end, End::Finished);
    assert_eq!(output, vec!["3".to_string()]);
    assert_eq!(lookup(&interpreter, "x"), Some("3".to_string()));
    assert_eq!(interpreter.env.len(), 1);
}

#[test]
fn an_assignment_yields_its_marker() {
    assert_eq!(value_of(assign("x", literal(text("a")))), Ok(text("Successd")));
}

#[test]
fn showing_a_binary_operation_leaves_the_scope_alone() {
    let nested = binary(assign("x", literal(text("a"))), Token::OperatorAdd, literal(text("b")));
    let (output, end, interpreter) = run(vec![speak(nested)], &[]);
    assert_eq!(end, End::Finished);
    assert_eq!(output, vec!["Successdb".to_string()]);
    assert_eq!(lookup(&interpreter, "x"), None);
    assert_eq!(interpreter.env.len(), 1);
}

#[test]
fn evaluating_a_binary_operation_in_place_keeps_its_bindings() {
    let nested = binary(assign("x", literal(text("a"))), Token::OperatorAdd, variable("x"));
    let (_, end, interpreter) = run(vec![expression(nested)], &[]);
    assert_eq!(end, End::Finished);
    assert_eq!(lookup(&interpreter, "x"), Some("a".to_string()));
    assert_eq!(interpreter.last, Some(text("Successda")));
}

#[test]
fn a_block_passes_its_bindings_outwards() {
    let program = vec![
        var("outer", literal(text("before"))),
        block(vec![
            expression(assign("outer", literal(text("after")))),
            expression(assign("fresh", literal(text("new")))),
            var("declared", literal(number(1.5))),
        ]),
        speak(variable("outer")),
        speak(variable("fresh")),
        speak(variable("declared")),
    ];
    let (output, end, interpreter) = run(program, &[]);
    assert_eq!(end, End::Finished);
    assert_eq!(output, vec!["after".to_string(), "new".to_string(), "1.5".to_string()]);
    assert_eq!(interpreter.env.len(), 1);
}

#[test]
fn a_block_sees_what_is_bound_around_it() {
    let program = vec![
        var("x", literal(text("seen"))),
        block(vec![block(vec![speak(variable("x"))])]),
        block(vec![]),
    ];
    let (output, end, interpreter) = run(program, &[]);
    assert_eq!(end, End::Finished);
    assert_eq!(output, vec!["seen".to_string()]);
    assert_eq!(interpreter.env.len(), 1);
}

#[test]
fn a_branch_runs_on_true_only() {
    let hi = || block(vec![speak(literal(text("hi")))]);
    let (output, end, _) = run(vec![branch(literal(text("True")), hi())], &[]);
    assert_eq!((output, end), (vec!["hi".to_string()], End::Finished));

    let (output, end, interpreter) = run(vec![branch(literal(text("False")), hi())], &[]);
    assert_eq!((output, end), (vec![], End::Finished));
    assert_eq!(interpreter.env.len(), 1);
    assert_eq!(interpreter.last, None);

    for condition in [number(1.0), text("true"), text("TRUE"), text(""), text("1")] {
        let (output, end, _) = run(vec![branch(literal(condition), hi())], &[]);
        assert_eq!((output, end), (vec![], End::Failed(EvalError::NonBooleanCondition)));
    }
}

#[test]
fn a_branch_on_a_comparison() {
    let condition = binary(literal(number(1.0)), Token::WEqual, literal(number(1.0)));
    let program = vec![branch(condition, block(vec![speak(literal(text("hi")))]))];
    let (output, end, _) = run(program, &[]);
    assert_eq!((output, end), (vec!["hi".to_string()], End::Finished));

    let condition = binary(variable("x"), Token::WEqual, literal(number(42.0)));
    let program = vec![
        var("x", literal(number(42.0))),
        branch(condition, block(vec![speak(literal(text("Hello World")))])),
    ];
    let (output, end, _) = run(program, &[]);
    assert_eq!((output, end), (vec!["Hello World".to_string()], End::Finished));
}

#[test]
fn a_loop_runs_until_exit() {
    let body = block(vec![speak(literal(text("x"))), Box::new(Statement::Exit)]);
    let program = vec![
        Box::new(Statement::Loop { body }),
        speak(literal(text("never"))),
    ];
    let (output, end, mut interpreter) = run(program, &[]);
    assert_eq!((output, end), (vec!["x".to_string()], End::Exited));
    assert_eq!(interpreter.interpret(Event::Resume), Action::Finished);
}

#[test]
fn a_loop_repeats_its_body() {
    let count = binary(variable("n"), Token::OperatorAdd, literal(text("1")));
    let body = block(vec![
        speak(variable("n")),
        branch(
            binary(variable("n"), Token::WEqual, literal(number(3.0))),
            Box::new(Statement::Exit),
        ),
        expression(assign("n", count)),
    ]);
    let program = vec![var("n", literal(number(1.0))), Box::new(Statement::Loop { body })];
    let (output, end, _) = run(program, &[]);
    assert_eq!(end, End::Exited);
    assert_eq!(output, vec!["1".to_string(), "2".to_string(), "3".to_string()]);
}

#[test]
fn a_loop_without_exit_never_ends() {
    let body = expression(assign("x", literal(text("a"))));
    let (_, end, _) = run(vec![Box::new(Statement::Loop { body })], &[]);
    assert_eq!(end, End::OutOfSteps);
}

#[test]
fn exit_ends_the_program_at_once() {
    let program = vec![
        speak(literal(text("first"))),
        Box::new(Statement::Exit),
        speak(literal(text("second"))),
    ];
    let (output, end, interpreter) = run(program, &[]);
    assert_eq!((output, end), (vec!["first".to_string()], End::Exited));
    assert!(interpreter.ast.is_empty());
    assert!(interpreter.tasks.is_empty());
}

#[test]
fn input_binds_the_line_without_its_end() {
    let program = vec![
        Box::new(Statement::Input { input: "name".to_string() }),
        speak(binary(literal(text("Hello, ")), Token::OperatorAdd, variable("name"))),
    ];
    let (output, end, interpreter) = run(program, &["  Tom \r"]);
    assert_eq!(end, End::Finished);
    assert_eq!(output, vec!["Hello,   Tom ".to_string()]);
    assert_eq!(lookup(&interpreter, "name"), Some("  Tom ".to_string()));
}

#[test]
fn a_request_is_repeated_until_it_is_answered() {
    let mut interpreter =
        Interpreter::new(vec![Box::new(Statement::Input { input: "x".to_string() })]);
    assert_eq!(interpreter.interpret(Event::Resume), Action::Continue);
    assert_eq!(interpreter.interpret(Event::Resume), Action::Input);
    assert_eq!(interpreter.interpret(Event::Resume), Action::Input);
    assert_eq!(interpreter.interpret(Event::Computed(1)), Action::Input);
    assert_eq!(interpreter.interpret(Event::Line("a\n".to_string())), Action::Continue);
    assert_eq!(lookup(&interpreter, "x"), Some("a".to_string()));
    assert_eq!(interpreter.interpret(Event::Resume), Action::Finished);

    let sum = binary(literal(number(1.0)), Token::OperatorAdd, literal(number(2.0)));
    let mut interpreter = Interpreter::new(vec![expression(sum)]);
    let mut action = Action::Continue;
    while action == Action::Continue {
        action = interpreter.interpret(Event::Resume);
    }
    let asked = Action::Compute {
        operation: Operation::Add,
        left: 1.0f64.to_bits(),
        right: 2.0f64.to_bits(),
    };
    assert_eq!(action, asked);
    assert_eq!(interpreter.interpret(Event::Rendered("3".to_string())), asked);
    assert_eq!(interpreter.interpret(Event::Computed(3.0f64.to_bits())), Action::Continue);
    assert_eq!(interpreter.interpret(Event::Resume), Action::Continue);
    assert_eq!(interpreter.last, Some(number(3.0)));
}

#[test]
fn the_host_is_asked_in_order() {
    let difference = binary(literal(text("8")), Token::OperatorSub, literal(text("3")));
    let mut interpreter = Interpreter::new(vec![speak(difference)]);
    let mut asked = Vec::new();
    let mut event = Event::Resume;
    loop {
        let action = interpreter.interpret(event);
        event = match &action {
            Action::Continue => Event::Resume,
            Action::Parse(source) => Event::Parsed(source.parse::<f64>().ok().map(f64::to_bits)),
            Action::Compute { operation, left, right } => {
                Event::Computed(compute(*operation, *left, *right))
            }
            Action::Render(bits) => Event::Rendered(f64::from_bits(*bits).to_string()),
            Action::Speak(_) => Event::Resume,
            _ => break,
        };
        if action != Action::Continue {
            asked.push(action);
        }
    }
    assert_eq!(
        asked,
        vec![
            Action::Parse("8".to_string()),
            Action::Parse("3".to_string()),
            Action::Compute {
                operation: Operation::Subtract,
                left: 8.0f64.to_bits(),
                right: 3.0f64.to_bits(),
            },
            Action::Render(5.0f64.to_bits()),
            Action::Speak("5".to_string()),
        ]
    );
}

#[test]
fn a_new_program_has_one_empty_scope() {
    let interpreter = Interpreter::new(vec![speak(literal(text("a")))]);
    assert_eq!(interpreter.env.len(), 1);
    assert!(!interpreter.env[0].contains_key(&"a".to_string()));
    assert_eq!(interpreter.ast.len(), 1);
    assert!(interpreter.tasks.is_empty());
    assert_eq!(interpreter.last, None);
    let mut empty = Interpreter::new(vec![]);
    assert_eq!(empty.interpret(Event::Resume), Action::Finished);
}

#[test]
fn scopes_are_copied_and_merged() {
    let mut interpreter = Interpreter::new(vec![]);
    interpreter.add_new_var("kept".to_string(), "1".to_string());
    interpreter.add_new_var("changed".to_string(), "old".to_string());
    interpreter.update_env();
    assert_eq!(interpreter.env.len(), 1);

    interpreter.add_new_env();
    assert_eq!(interpreter.env.len(), 2);
    assert_eq!(lookup(&interpreter, "kept"), Some("1".to_string()));
    interpreter.add_new_var("changed".to_string(), "new".to_string());
    interpreter.add_new_var("added".to_string(), "2".to_string());
    assert_eq!(interpreter.env[0].get(&"changed".to_string()), Some(&"old".to_string()));
    assert_eq!(interpreter.env[0].get(&"added".to_string()), None);

    interpreter.update_env();
    assert_eq!(interpreter.env.len(), 2);
    assert_eq!(interpreter.env[0].get(&"changed".to_string()), Some(&"new".to_string()));
    assert_eq!(interpreter.env[0].get(&"added".to_string()), Some(&"2".to_string()));
    assert_eq!(interpreter.env[0].get(&"kept".to_string()), Some(&"1".to_string()));

    interpreter.add_new_var("late".to_string(), "3".to_string());
    interpreter.rm_now_env();
    assert_eq!(interpreter.env.len(), 1);
    assert_eq!(lookup(&interpreter, "late"), Some("3".to_string()));

    interpreter.rm_now_env();
    assert_eq!(interpreter.env.len(), 1);
    assert_eq!(lookup(&interpreter, "late"), Some("3".to_string()));
}

#[test]
fn statements_can_be_run_one_by_one() {
    let mut interpreter = Interpreter::new(vec![]);
    assert_eq!(interpreter.execute(var("x", literal(text("a")))), Action::Continue);
    let mut output = Vec::new();
    assert_eq!(drive(&mut interpreter, &[], &mut output), End::Finished);
    assert_eq!(lookup(&interpreter, "x"), Some("a".to_string()));
    assert_eq!(interpreter.execute(Box::new(Statement::Exit)), Action::Exit);
    let shown = variable("x").trans(&mut interpreter);
    assert_eq!(shown, Action::Continue);
    assert_eq!(interpreter.interpret(Event::Resume), Action::Continue);
    assert_eq!(interpreter.last, Some(text("a")));
}

#[test]
fn end_to_end_programs() {
    let program = vec![var("x", literal(number(42.0))), speak(variable("x"))];
    assert_eq!(run(program, &[]).0, vec!["42".to_string()]);

    let condition = binary(literal(number(1.0)), Token::WEqual, literal(number(1.0)));
    let program = vec![branch(condition, block(vec![speak(literal(text("hi")))]))];
    assert_eq!(run(program, &[]).0, vec!["hi".to_string()]);

    let body = block(vec![speak(literal(text("x"))), Box::new(Statement::Exit)]);
    let (output, end, _) = run(vec![Box::new(Statement::Loop { body })], &[]);
    assert_eq!((output, end), (vec!["x".to_string()], End::Exited));
}

#[test]
fn numbers_are_shown_in_decimal() {
    let cases = [(42.0, "42"), (0.5, "0.5"), (-3.0, "-3"), (1e21, "1000000000000000000000")];
    for (value, shown) in cases {
        let (output, _, _) = run(vec![speak(literal(number(value)))], &[]);
        assert_eq!(output, vec![shown.to_string()]);
    }
    let product = binary(
        binary(variable("a"), Token::OperatorAdd, variable("three")),
        Token::OperatorMul,
        binary(variable("b"), Token::OperatorSub, variable("five")),
    );
    let program = vec![
        var("a", literal(number(1.0))),
        var("b", literal(number(7.0))),
        var("three", literal(number(3.0))),
        var("five", literal(number(5.0))),
        var("x", product),
        speak(variable("x")),
    ];
    assert_eq!(run(program, &[]).0, vec!["8".to_string()]);
}

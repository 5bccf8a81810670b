use robot_dsl::ast::{Expr, LiteralValue, Statement};
use robot_dsl::environment::Frame;
use robot_dsl::interpreter::operation;
use robot_dsl::number::{equal, nan, zero};
use robot_dsl::protocol::Operation;
use robot_dsl::text::{assigned, join, strip, truth};
use robot_dsl::tokens::Token;

fn name(text: &str) -> String {
    text.to_string()
}

#[test]
fn zero_is_found_on_the_bits() {
    assert!(zero(0.0f64.to_bits()));
    assert!(zero((-0.0f64).to_bits()));
    assert!(!zero(f64::MIN_POSITIVE.to_bits()));
    assert!(!zero(5e-324f64.to_bits()));
    assert!(!zero(1.0f64.to_bits()));
    assert!(!zero(f64::NAN.to_bits()));
    assert!(!zero(f64::NEG_INFINITY.to_bits()));
}

#[test]
fn nan_is_found_on_the_bits() {
    assert!(nan(f64::NAN.to_bits()));
    assert!(nan((-f64::NAN).to_bits()));
    assert!(nan(0x7ff0_0000_0000_0001));
    assert!(nan(0xffff_ffff_ffff_ffff));
    assert!(!nan(f64::INFINITY.to_bits()));
    assert!(!nan(f64::NEG_INFINITY.to_bits()));
    assert!(!nan(f64::MAX.to_bits()));
    assert!(!nan(0.0f64.to_bits()));
}

#[test]
fn equality_on_bits_is_numeric_equality() {
    let values = [
        0.0,
        -0.0,
        1.0,
        -1.0,
        0.1 + 0.2,
        0.3,
        f64::INFINITY,
        f64::NEG_INFINITY,
        f64::NAN,
        f64::MAX,
        f64::MIN_POSITIVE,
        5e-324,
    ];
    for a in values {
        for b in values {
            assert_eq!(equal(a.to_bits(), b.to_bits()), a == b, "{} == {}", a, b);
        }
    }
}

#[test]
fn truth_and_marker_texts() {
    assert_eq!(truth(true), "True");
    assert_eq!(truth(false), "False");
    assert_eq!(assigned(), "Successd");
    assert_eq!(join(name("ab"), &name("cd")), "abcd");
    assert_eq!(join(name(""), &name("")), "");
}

#[test]
fn line_ends_are_stripped() {
    assert_eq!(strip(&name("Tom\n")), "Tom");
    assert_eq!(strip(&name("Tom\r\n")), "Tom");
    assert_eq!(strip(&name("Tom\n\n\r")), "Tom");
    assert_eq!(strip(&name("Tom")), "Tom");
    assert_eq!(strip(&name(" Tom \n")), " Tom ");
    assert_eq!(strip(&name("a\nb\n")), "a\nb");
    assert_eq!(strip(&name("\n")), "");
    assert_eq!(strip(&name("")), "");
    assert_eq!(strip(&name("你好\r\n")), "你好");
}

#[test]
fn operators_denote_operations() {
    assert_eq!(operation(&Token::OperatorAdd), Some(Operation::Add));
    assert_eq!(operation(&Token::OperatorSub), Some(Operation::Subtract));
    assert_eq!(operation(&Token::OperatorMul), Some(Operation::Multiply));
    assert_eq!(operation(&Token::OperatorDiv), Some(Operation::Divide));
    assert_eq!(operation(&Token::WEqual), None);
    assert_eq!(operation(&Token::Assign), None);
}

#[test]
fn a_frame_binds_names() {
    let mut frame = Frame::new();
    assert_eq!(frame.get(&name("x")), None);
    assert!(!frame.contains_key(&name("x")));
    frame.insert(name("x"), name("1"));
    frame.insert(name("y"), name("2"));
    assert_eq!(frame.get(&name("x")), Some(&name("1")));
    assert_eq!(frame.get(&name("y")), Some(&name("2")));
    frame.insert(name("x"), name("3"));
    assert_eq!(frame.get(&name("x")), Some(&name("3")));
    assert_eq!(frame.get(&name("y")), Some(&name("2")));
    assert_eq!(frame.get(&name("X")), None);
    assert!(frame.contains_key(&name("y")));
}

#[test]
fn a_frame_is_copied_and_merged() {
    let mut outer = Frame::new();
    outer.insert(name("kept"), name("1"));
    outer.insert(name("changed"), name("old"));
    let mut inner = outer.clone();
    inner.insert(name("changed"), name("new"));
    inner.insert(name("added"), name("2"));
    assert_eq!(outer.get(&name("changed")), Some(&name("old")));
    assert_eq!(outer.get(&name("added")), None);

    outer.insert(name("only_outer"), name("3"));
    outer.merge(&inner);
    assert_eq!(outer.get(&name("kept")), Some(&name("1")));
    assert_eq!(outer.get(&name("changed")), Some(&name("new")));
    assert_eq!(outer.get(&name("added")), Some(&name("2")));
    assert_eq!(outer.get(&name("only_outer")), Some(&name("3")));
    assert_eq!(inner.get(&name("only_outer")), None);
}

#[test]
fn trees_are_copied_whole() {
    let expr = Expr::Binary {
        left: Box::new(Expr::Assign {
            name: name("x"),
            value: Box::new(Expr::Literal { value: LiteralValue::Number(7) }),
        }),
        operator: Token::Identifier(name("op")),
        right: Box::new(Expr::Variable { name: name("y") }),
    };
    assert_eq!(expr.clone(), expr);
    let statement = Statement::Block {
        statements: vec![
            Box::new(Statement::Loop {
                body: Box::new(Statement::Branch {
                    condition: Box::new(expr.clone()),
                    then: Box::new(Statement::Exit),
                }),
            }),
            Box::new(Statement::Speak { expression: Box::new(expr.clone()) }),
            Box::new(Statement::Input { input: name("line") }),
            Box::new(Statement::Var { name: name("v"), init: Box::new(expr.clone()) }),
            Box::new(Statement::Expression { expression: Box::new(expr) }),
            Box::new(Statement::Block { statements: vec![] }),
        ],
    };
    assert_eq!(statement.clone(), statement);
    let token = Token::StringContent(name("s"));
    assert_eq!(token.clone(), token);
}

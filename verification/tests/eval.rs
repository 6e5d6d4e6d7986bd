use kala::ast::{
    BinaryExpression, BinaryOperator, ConditionalExpression, Expression, LogicalExpression,
    LogicalOperator,
};
use kala::context::InterpreterContext;
use kala::eval::{eval_expression, eval_literal};
use kala::lexical::{Identifier, BooleanLiteral, Literal, NumberLiteral, StringLiteral};
use kala::value::{JSBoolean, JSNumber, JSString, JSValue};

fn num(n: i32) -> Expression {
    Expression::Literal(Literal::Number(NumberLiteral::SMI(n)))
}

fn text(s: &str) -> Expression {
    Expression::Literal(Literal::String(StringLiteral(s.to_string())))
}

fn bin(operator: BinaryOperator, left: Expression, right: Expression) -> Expression {
    Expression::Binary(Box::new(BinaryExpression { operator, left, right }))
}

fn logical(operator: LogicalOperator, left: Expression, right: Expression) -> Expression {
    Expression::Logical(Box::new(LogicalExpression { operator, left, right }))
}

fn test_literal1() -> Expression {
    Expression::Literal(Literal::Number(NumberLiteral::SMI(1)))
}

fn test_literal2() -> Expression {
    Expression::Literal(Literal::String(StringLiteral("hello".to_string())))
}

#[test]
fn test_expression() {
    let test_cases = vec![
        (test_literal1(), Some(JSValue::Number(JSNumber::SMI(1)))),
        (test_literal2(), Some(JSValue::String(JSString("hello".to_string())))),
    ];

    for (expr, expected) in test_cases {
        let result = eval_expression(&InterpreterContext::new(), &expr);
        assert_eq!(result, expected);
    }
}

#[test]
fn eval_arithmetic() {
    assert_eq!(eval_expression(&InterpreterContext::new(), &bin(BinaryOperator::Add, num(1), num(2))), Some(JSValue::number(3)));
    assert_eq!(eval_expression(&InterpreterContext::new(), &bin(BinaryOperator::Sub, num(1), num(2))), Some(JSValue::number(-1)));
    assert_eq!(eval_expression(&InterpreterContext::new(), &bin(BinaryOperator::Mul, num(6), num(7))), Some(JSValue::number(42)));
    assert_eq!(eval_expression(&InterpreterContext::new(), &bin(BinaryOperator::Div, num(-7), num(2))), Some(JSValue::number(-3)));
    assert_eq!(eval_expression(&InterpreterContext::new(), &bin(BinaryOperator::Mod, num(-7), num(2))), Some(JSValue::number(-1)));
    assert_eq!(eval_expression(&InterpreterContext::new(), &bin(BinaryOperator::Pow, num(2), num(10))), Some(JSValue::number(1024)));
    assert_eq!(eval_expression(&InterpreterContext::new(), &bin(BinaryOperator::UnsignedRightShift, num(-1), num(28))), Some(JSValue::number(15)));
    assert_eq!(
        eval_expression(&InterpreterContext::new(), &bin(BinaryOperator::LessThan, num(1), num(2))),
        Some(JSValue::boolean(true))
    );
    assert_eq!(
        eval_expression(&InterpreterContext::new(), &bin(BinaryOperator::GreaterThanEqual, num(1), num(2))),
        Some(JSValue::boolean(false))
    );
    // nested: (1 + 2) * 3
    let nested = bin(BinaryOperator::Mul, Expression::Parenthesized(Box::new(bin(BinaryOperator::Add, num(1), num(2)))), num(3));
    assert_eq!(eval_expression(&InterpreterContext::new(), &nested), Some(JSValue::number(9)));
}

#[test]
fn eval_equality_and_types() {
    assert_eq!(
        eval_expression(&InterpreterContext::new(), &bin(BinaryOperator::StrictEqual, text("a"), text("a"))),
        Some(JSValue::boolean(true))
    );
    assert_eq!(
        eval_expression(&InterpreterContext::new(), &bin(BinaryOperator::StrictNotEqual, text("a"), num(1))),
        Some(JSValue::boolean(true))
    );
    assert_eq!(
        eval_expression(&InterpreterContext::new(), &bin(BinaryOperator::StrictEqual, num(2), num(2))),
        Some(JSValue::boolean(true))
    );
    // a number operator on a string fails
    assert_eq!(eval_expression(&InterpreterContext::new(), &bin(BinaryOperator::Add, text("a"), num(1))), None);
    assert_eq!(eval_expression(&InterpreterContext::new(), &bin(BinaryOperator::Add, num(1), text("a"))), None);
}

#[test]
fn eval_logical_and_conditional() {
    let undefined = || Expression::Literal(Literal::Undefined);
    let t = || Expression::Literal(Literal::Boolean(BooleanLiteral(true)));
    assert_eq!(eval_expression(&InterpreterContext::new(), &logical(LogicalOperator::Coalesce, undefined(), num(5))), Some(JSValue::number(5)));
    assert_eq!(eval_expression(&InterpreterContext::new(), &logical(LogicalOperator::Coalesce, num(0), num(5))), Some(JSValue::number(0)));
    assert_eq!(eval_expression(&InterpreterContext::new(), &logical(LogicalOperator::And, num(0), num(5))), Some(JSValue::number(0)));
    assert_eq!(eval_expression(&InterpreterContext::new(), &logical(LogicalOperator::Or, num(0), num(5))), Some(JSValue::number(5)));
    assert_eq!(eval_expression(&InterpreterContext::new(), &logical(LogicalOperator::Or, text(""), text("x"))), Some(JSValue::string("x".to_string())));
    // the right operand is not evaluated when the left decides: its failure does not show
    let failing = bin(BinaryOperator::Add, text("a"), num(1));
    assert_eq!(eval_expression(&InterpreterContext::new(), &logical(LogicalOperator::Or, t(), failing)), Some(JSValue::boolean(true)));
    let cond = Expression::Conditional(Box::new(ConditionalExpression { test: num(0), consequent: num(1), alternate: num(2) }));
    assert_eq!(eval_expression(&InterpreterContext::new(), &cond), Some(JSValue::number(2)));
    assert_eq!(eval_literal(&Literal::Boolean(BooleanLiteral(false))), JSValue::Boolean(JSBoolean(false)));
}

#[test]
fn value_helpers() {
    let v = JSValue::string("ab".to_string());
    assert!(v.is_truthy());
    assert!(!JSValue::string(String::new()).is_truthy());
    assert!(!JSValue::undefined().is_truthy());
    assert!(JSValue::undefined().is_undefined());
    assert_eq!(v.as_string().map(|s| s.0.clone()), Some("ab".to_string()));
    assert_eq!(JSValue::number(3).as_number(), Some(&JSNumber::SMI(3)));
    assert_eq!(JSValue::boolean(true).as_boolean(), Some(&JSBoolean(true)));
    assert!(JSValue::number(3).equal(&JSValue::number(3)));
    assert!(!JSValue::number(3).equal(&JSValue::boolean(true)));
}

#[test]
fn eval_reads_variables_from_scopes() {
    let mut ctx = InterpreterContext::new();
    let x = Identifier::new("x".to_string());
    assert!(ctx.declare_mutable_binding(&x, &JSValue::number(40)));
    let var = Expression::Variable(Identifier::new("x".to_string()));
    assert_eq!(eval_expression(&ctx, &bin(BinaryOperator::Add, var, num(2))), Some(JSValue::number(42)));
    // an inner scope shadows the outer binding
    ctx.enter_scope();
    assert!(ctx.declare_immutable_binding(&x, &JSValue::number(1)));
    let var = Expression::Variable(Identifier::new("x".to_string()));
    assert_eq!(eval_expression(&ctx, &bin(BinaryOperator::LessThan, var, num(2))), Some(JSValue::boolean(true)));
    // an unbound variable fails
    let y = Expression::Variable(Identifier::new("y".to_string()));
    assert_eq!(eval_expression(&ctx, &bin(BinaryOperator::Add, y, num(2))), None);
}

use vstd::prelude::*;
use crate::arith::{trunc_div, trunc_rem};
use crate::ast::{
    BinaryExpression, BinaryOperator, ConditionalExpression, Expression, LogicalExpression,
    LogicalOperator,
};
use crate::lexical::{Identifier, BooleanLiteral, Literal, NumberLiteral, StringLiteral};
use crate::context::{lookup_value, Binding, InterpreterContext};
use crate::value::{both_objects, exponent_of, ipow, truthy, value_equal, JSBoolean, JSNumber, JSString, JSValue};

verus! {

/// The value a literal stands for.
pub open spec fn literal_value(l: Literal) -> JSValue {
    match l {
        Literal::Undefined => JSValue::Undefined,
        Literal::Boolean(BooleanLiteral(b)) => JSValue::Boolean(JSBoolean(b)),
        Literal::Number(NumberLiteral::SMI(n)) => JSValue::Number(JSNumber::SMI(n)),
        Literal::String(StringLiteral(s)) => JSValue::String(JSString(s)),
    }
}

/// Whether an operator compares for (in)equality, which takes values of any kind.
pub open spec fn is_equality(op: BinaryOperator) -> bool {
    op == BinaryOperator::StrictEqual || op == BinaryOperator::StrictNotEqual
}

/// Whether a number operator can be applied to `a` and `b` without overflow or an
/// out-of-range shift. `^`, `<<` and `>>` cannot be applied at all: the interpreter does not
/// implement them yet.
pub open spec fn arith_ok(op: BinaryOperator, a: i32, b: i32) -> bool {
    match op {
        BinaryOperator::Add => i32::MIN <= a + b <= i32::MAX,
        BinaryOperator::Sub => i32::MIN <= a - b <= i32::MAX,
        BinaryOperator::Mul => i32::MIN <= a * b <= i32::MAX,
        BinaryOperator::Div | BinaryOperator::Mod => b != 0 && !(a == i32::MIN && b == -1),
        BinaryOperator::Pow => i32::MIN <= ipow(a as int, exponent_of(b)) <= i32::MAX,
        BinaryOperator::UnsignedRightShift => 0 <= b < 32,
        BinaryOperator::BitXor | BinaryOperator::LeftShift | BinaryOperator::RightShift => false,
        _ => true,
    }
}

/// A number operator applied to two small integers (for `^`, `<<` and `>>`, which cannot be
/// applied, a stand-in).
pub open spec fn arith_value(op: BinaryOperator, a: i32, b: i32) -> JSValue {
    match op {
        BinaryOperator::Add => JSValue::Number(JSNumber::SMI((a + b) as i32)),
        BinaryOperator::Sub => JSValue::Number(JSNumber::SMI((a - b) as i32)),
        BinaryOperator::Mul => JSValue::Number(JSNumber::SMI((a * b) as i32)),
        BinaryOperator::Div => JSValue::Number(JSNumber::SMI(trunc_div(a as int, b as int) as i32)),
        BinaryOperator::Mod => JSValue::Number(JSNumber::SMI(trunc_rem(a as int, b as int) as i32)),
        BinaryOperator::Pow => JSValue::Number(
            JSNumber::SMI(ipow(a as int, exponent_of(b)) as i32),
        ),
        BinaryOperator::BitAnd => JSValue::Number(JSNumber::SMI(a & b)),
        BinaryOperator::BitOr => JSValue::Number(JSNumber::SMI(a | b)),
        BinaryOperator::BitXor | BinaryOperator::LeftShift | BinaryOperator::RightShift => {
            JSValue::Undefined
        },
        BinaryOperator::UnsignedRightShift => JSValue::Number(
            JSNumber::SMI(((a as u32) >> (b as u32)) as i32),
        ),
        BinaryOperator::LessThan => JSValue::Boolean(JSBoolean(a < b)),
        BinaryOperator::LessThanEqual => JSValue::Boolean(JSBoolean(a <= b)),
        BinaryOperator::GreaterThan => JSValue::Boolean(JSBoolean(a > b)),
        BinaryOperator::GreaterThanEqual => JSValue::Boolean(JSBoolean(a >= b)),
        BinaryOperator::StrictEqual => JSValue::Boolean(JSBoolean(a == b)),
        BinaryOperator::StrictNotEqual => JSValue::Boolean(JSBoolean(a != b)),
    }
}

/// The value of an expression in the scopes `env`, or `None` when evaluation fails: a
/// variable that no scope binds, or a number operator on something other than numbers. The
/// left operand is evaluated first; a number operator
/// does not evaluate its right operand when the left one is not a number.
pub open spec fn eval_spec(env: Seq<Seq<Binding>>, e: Expression) -> Option<JSValue>
    decreases e,
{
    match e {
        Expression::Literal(l) => Some(literal_value(l)),
        Expression::Parenthesized(x) => eval_spec(env, *x),
        Expression::Binary(b) => match eval_spec(env, b.left) {
            None => None,
            Some(l) => if is_equality(b.operator) {
                match eval_spec(env, b.right) {
                    None => None,
                    Some(r) => Some(
                        JSValue::Boolean(
                            JSBoolean(
                                if b.operator == BinaryOperator::StrictEqual {
                                    value_equal(l, r)
                                } else {
                                    !value_equal(l, r)
                                },
                            ),
                        ),
                    ),
                }
            } else {
                match l {
                    JSValue::Number(JSNumber::SMI(a)) => match eval_spec(env, b.right) {
                        Some(JSValue::Number(JSNumber::SMI(c))) => Some(arith_value(b.operator, a, c)),
                        _ => None,
                    },
                    _ => None,
                }
            },
        },
        Expression::Logical(x) => match eval_spec(env, x.left) {
            None => None,
            Some(l) => {
                let short = match x.operator {
                    LogicalOperator::And => !truthy(l),
                    LogicalOperator::Or => truthy(l),
                    LogicalOperator::Coalesce => !(l is Undefined),
                };
                if short {
                    Some(l)
                } else {
                    eval_spec(env, x.right)
                }
            },
        },
        Expression::Conditional(c) => match eval_spec(env, c.test) {
            None => None,
            Some(t) => if truthy(t) {
                eval_spec(env, c.consequent)
            } else {
                eval_spec(env, c.alternate)
            },
        },
        Expression::Variable(id) => lookup_value(env, id.id@),
        Expression::Unary(_) => None,
    }
}

/// Whether evaluating an expression runs without fault: every number operator it reaches
/// stays in range, no strict (in)equality compares two objects, and it reaches no unary
/// operator (which the interpreter cannot evaluate yet).
pub open spec fn eval_ok(env: Seq<Seq<Binding>>, e: Expression) -> bool
    decreases e,
{
    match e {
        Expression::Literal(_) => true,
        Expression::Parenthesized(x) => eval_ok(env, *x),
        Expression::Binary(b) => eval_ok(env, b.left) && match eval_spec(env, b.left) {
            None => true,
            Some(l) => if is_equality(b.operator) {
                eval_ok(env, b.right) && match eval_spec(env, b.right) {
                    Some(r) => !both_objects(l, r),
                    None => true,
                }
            } else {
                match l {
                    JSValue::Number(JSNumber::SMI(a)) => eval_ok(env, b.right) && match eval_spec(env, 
                        b.right,
                    ) {
                        Some(JSValue::Number(JSNumber::SMI(c))) => arith_ok(b.operator, a, c),
                        _ => true,
                    },
                    _ => true,
                }
            },
        },
        Expression::Logical(x) => eval_ok(env, x.left) && match eval_spec(env, x.left) {
            None => true,
            Some(l) => {
                let short = match x.operator {
                    LogicalOperator::And => !truthy(l),
                    LogicalOperator::Or => truthy(l),
                    LogicalOperator::Coalesce => !(l is Undefined),
                };
                short || eval_ok(env, x.right)
            },
        },
        Expression::Conditional(c) => eval_ok(env, c.test) && match eval_spec(env, c.test) {
            None => true,
            Some(t) => if truthy(t) {
                eval_ok(env, c.consequent)
            } else {
                eval_ok(env, c.alternate)
            },
        },
        Expression::Variable(_) => true,
        Expression::Unary(_) => false,
    }
}

/// The value of a literal.
pub fn eval_literal(lit: &Literal) -> (r: JSValue)
    ensures
        r == literal_value(*lit),
{
    match lit {
        Literal::Undefined => JSValue::Undefined,
        Literal::Boolean(b) => JSValue::Boolean(JSBoolean(b.0)),
        Literal::Number(NumberLiteral::SMI(n)) => JSValue::Number(JSNumber::SMI(*n)),
        Literal::String(s) => JSValue::String(JSString(s.0.clone())),
    }
}

/// The value of a variable, from the innermost scope that binds it.
pub fn eval_variable(ctx: &InterpreterContext, ident: &Identifier) -> (r: Option<JSValue>)
    ensures
        r == lookup_value(ctx@.env, ident.id@),
{
    ctx.get_binding_value(ident)
}

/// Evaluates an expression (see `eval_spec`); it must evaluate without fault (see
/// `eval_ok`).
pub fn eval_expression(ctx: &InterpreterContext, expr: &Expression) -> (r: Option<JSValue>)
    requires
        eval_ok(ctx@.env, *expr),
    ensures
        r == eval_spec(ctx@.env, *expr),
    decreases *expr, 1int,
{
    match expr {
        Expression::Literal(lit) => Some(eval_literal(lit)),
        Expression::Parenthesized(x) => eval_expression(ctx, x),
        Expression::Binary(b) => eval_binary(ctx, b),
        Expression::Logical(x) => eval_logical(ctx, x),
        Expression::Conditional(c) => eval_conditional(ctx, c),
        Expression::Variable(id) => eval_variable(ctx, id),
        Expression::Unary(_) => None,
    }
}

/// Evaluates a binary expression: (in)equality on any two values, and the other operators
/// on two numbers, failing otherwise.
pub fn eval_binary(ctx: &InterpreterContext, bin: &Box<BinaryExpression>) -> (r: Option<JSValue>)
    requires
        eval_ok(ctx@.env, Expression::Binary(*bin)),
    ensures
        r == eval_spec(ctx@.env, Expression::Binary(*bin)),
    decreases Expression::Binary(*bin), 0int,
{
    if bin.operator == BinaryOperator::StrictEqual || bin.operator == BinaryOperator::StrictNotEqual {
        let left = eval_expression(ctx, &bin.left)?;
        let right = eval_expression(ctx, &bin.right)?;
        let same = left.equal(&right);
        if bin.operator == BinaryOperator::StrictEqual {
            return Some(JSValue::boolean(same));
        } else {
            return Some(JSValue::boolean(!same));
        }
    }
    let operand = eval_expression(ctx, &bin.left)?;
    let mut left = match operand {
        JSValue::Number(n) => n,
        _ => {
            return None;
        },
    };
    let argument = eval_expression(ctx, &bin.right)?;
    let mut right = match argument {
        JSValue::Number(n) => n,
        _ => {
            return None;
        },
    };
    match bin.operator {
        BinaryOperator::Add => left.add(&mut right),
        BinaryOperator::Sub => left.sub(&mut right),
        BinaryOperator::Mul => left.mul(&mut right),
        BinaryOperator::Div => left.div(&mut right),
        BinaryOperator::Pow => left.pow(&mut right),
        BinaryOperator::Mod => left.modulo(&mut right),
        BinaryOperator::BitAnd => left.bit_and(&mut right),
        BinaryOperator::BitOr => left.bit_or(&mut right),
        BinaryOperator::BitXor | BinaryOperator::LeftShift | BinaryOperator::RightShift => {
            return None;
        },
        BinaryOperator::UnsignedRightShift => left.unsigned_right_shift(&mut right),
        BinaryOperator::LessThan => {
            return Some(JSValue::boolean(left.less_than(&right)));
        },
        BinaryOperator::LessThanEqual => {
            return Some(JSValue::boolean(left.less_than_equal(&right)));
        },
        BinaryOperator::GreaterThan => {
            return Some(JSValue::boolean(left.greater_than(&right)));
        },
        BinaryOperator::GreaterThanEqual => {
            return Some(JSValue::boolean(left.greater_than_equal(&right)));
        },
        BinaryOperator::StrictEqual => {},
        BinaryOperator::StrictNotEqual => {},
    }
    Some(JSValue::Number(left))
}

/// Evaluates `&&`, `||` and `??`: the left value when it decides the result, else the
/// value of the right operand.
pub fn eval_logical(ctx: &InterpreterContext, expr: &Box<LogicalExpression>) -> (r: Option<JSValue>)
    requires
        eval_ok(ctx@.env, Expression::Logical(*expr)),
    ensures
        r == eval_spec(ctx@.env, Expression::Logical(*expr)),
    decreases Expression::Logical(*expr), 0int,
{
    let left = eval_expression(ctx, &expr.left)?;
    let short = match expr.operator {
        LogicalOperator::And => !left.is_truthy(),
        LogicalOperator::Or => left.is_truthy(),
        LogicalOperator::Coalesce => !left.is_undefined(),
    };
    if short {
        Some(left)
    } else {
        eval_expression(ctx, &expr.right)
    }
}

/// Evaluates `test ? consequent : alternate`.
pub fn eval_conditional(ctx: &InterpreterContext, expr: &Box<ConditionalExpression>) -> (r: Option<JSValue>)
    requires
        eval_ok(ctx@.env, Expression::Conditional(*expr)),
    ensures
        r == eval_spec(ctx@.env, Expression::Conditional(*expr)),
    decreases Expression::Conditional(*expr), 0int,
{
    let discriminant = eval_expression(ctx, &expr.test)?;
    if discriminant.is_truthy() {
        eval_expression(ctx, &expr.consequent)
    } else {
        eval_expression(ctx, &expr.alternate)
    }
}

/// A value equals itself: `e === e` is true whenever `e` evaluates.
pub proof fn law_strict_equal_reflexive(env: Seq<Seq<Binding>>, e: Expression)
    requires
        eval_spec(env, e) is Some,
    ensures
        eval_spec(env, 
            Expression::Binary(
                Box::new(BinaryExpression { operator: BinaryOperator::StrictEqual, left: e, right: e }),
            ),
        ) == Some(JSValue::Boolean(JSBoolean(true))),
{
}

/// `a && b` has the value of `a ? b : a`, and `a || b` that of `a ? a : b`.
pub proof fn law_logical_as_conditional(env: Seq<Seq<Binding>>, a: Expression, b: Expression)
    ensures
        eval_spec(env, 
            Expression::Logical(
                Box::new(LogicalExpression { operator: LogicalOperator::And, left: a, right: b }),
            ),
        ) == eval_spec(env, 
            Expression::Conditional(
                Box::new(ConditionalExpression { test: a, consequent: b, alternate: a }),
            ),
        ),
        eval_spec(env, 
            Expression::Logical(
                Box::new(LogicalExpression { operator: LogicalOperator::Or, left: a, right: b }),
            ),
        ) == eval_spec(env, 
            Expression::Conditional(
                Box::new(ConditionalExpression { test: a, consequent: a, alternate: b }),
            ),
        ),
{
}

/// The binary expression `a op b`.
pub open spec fn binary(op: BinaryOperator, a: Expression, b: Expression) -> Expression {
    Expression::Binary(Box::new(BinaryExpression { operator: op, left: a, right: b }))
}

/// What the operators give on two expressions that evaluate to the small integers `x` and
/// `y`: comparisons and (in)equality compare them, `+`, `-` and `*` give the exact result
/// when it fits in 32 bits, and `&` and `|` combine their bits.
pub proof fn law_binary_on_numbers(env: Seq<Seq<Binding>>, a: Expression, b: Expression, x: i32, y: i32)
    requires
        eval_spec(env, a) == Some(JSValue::Number(JSNumber::SMI(x))),
        eval_spec(env, b) == Some(JSValue::Number(JSNumber::SMI(y))),
    ensures
        eval_spec(env, binary(BinaryOperator::LessThan, a, b)) == Some(JSValue::Boolean(JSBoolean(x < y))),
        eval_spec(env, binary(BinaryOperator::LessThanEqual, a, b)) == Some(JSValue::Boolean(JSBoolean(x <= y))),
        eval_spec(env, binary(BinaryOperator::GreaterThan, a, b)) == Some(JSValue::Boolean(JSBoolean(x > y))),
        eval_spec(env, binary(BinaryOperator::GreaterThanEqual, a, b)) == Some(JSValue::Boolean(JSBoolean(x >= y))),
        eval_spec(env, binary(BinaryOperator::StrictEqual, a, b)) == Some(JSValue::Boolean(JSBoolean(x == y))),
        eval_spec(env, binary(BinaryOperator::StrictNotEqual, a, b)) == Some(JSValue::Boolean(JSBoolean(x != y))),
        i32::MIN <= x + y <= i32::MAX ==> (eval_spec(env, binary(BinaryOperator::Add, a, b))
            matches Some(JSValue::Number(JSNumber::SMI(r))) && r == x + y),
        i32::MIN <= x - y <= i32::MAX ==> (eval_spec(env, binary(BinaryOperator::Sub, a, b))
            matches Some(JSValue::Number(JSNumber::SMI(r))) && r == x - y),
        i32::MIN <= x * y <= i32::MAX ==> (eval_spec(env, binary(BinaryOperator::Mul, a, b))
            matches Some(JSValue::Number(JSNumber::SMI(r))) && r == x * y),
        eval_spec(env, binary(BinaryOperator::BitAnd, a, b)) == Some(JSValue::Number(JSNumber::SMI(x & y))),
        eval_spec(env, binary(BinaryOperator::BitOr, a, b)) == Some(JSValue::Number(JSNumber::SMI(x | y))),
{
}

/// Each comparison agrees with its mirror: `a <= b` exactly when not `b < a`, and `a >= b`
/// exactly when `b <= a`, for expressions that evaluate to small integers.
pub proof fn law_comparisons_mirror(env: Seq<Seq<Binding>>, a: Expression, b: Expression, x: i32, y: i32)
    requires
        eval_spec(env, a) == Some(JSValue::Number(JSNumber::SMI(x))),
        eval_spec(env, b) == Some(JSValue::Number(JSNumber::SMI(y))),
    ensures
        eval_spec(env, binary(BinaryOperator::LessThanEqual, a, b)) == Some(JSValue::Boolean(JSBoolean(
            !(eval_spec(env, binary(BinaryOperator::LessThan, b, a))->0->Boolean_0.0),
        ))),
        eval_spec(env, binary(BinaryOperator::GreaterThanEqual, a, b)) == eval_spec(
            env,
            binary(BinaryOperator::LessThanEqual, b, a),
        ),
        eval_spec(env, binary(BinaryOperator::GreaterThan, a, b)) == eval_spec(
            env,
            binary(BinaryOperator::LessThan, b, a),
        ),
{
}

} // verus!

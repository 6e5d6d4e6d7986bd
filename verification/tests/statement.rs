use kala::ast::{
    ArrayPattern, BinaryExpression, BinaryOperator, BlockStatement, BreakStatement, Expression,
    ForStatement, IfStatement, ObjectPattern, Pattern, PropertyPattern, ReturnStatement,
    Statement, VariableDeclaration, VariableDeclarator, WhileStatement,
};
use kala::common::DeclarationKind;
use kala::context::{CompletionSignal, InterpreterContext};
use kala::declare::{declare_binding, eval_variable_declaration};
use kala::eval::eval_expression;
use kala::lexical::{BooleanLiteral, Identifier, Literal, NumberLiteral};
use kala::statement::eval_statement;
use kala::value::JSValue;

fn num(n: i32) -> Expression {
    Expression::Literal(Literal::Number(NumberLiteral::SMI(n)))
}

fn boolean(b: bool) -> Expression {
    Expression::Literal(Literal::Boolean(BooleanLiteral(b)))
}

fn var(name: &str) -> Expression {
    Expression::Variable(Identifier::new(name.to_string()))
}

fn let_decl(kind: DeclarationKind, name: &str, init: Option<Expression>) -> Statement {
    Statement::VariableDeclaration(Box::new(VariableDeclaration {
        kind,
        declarators: vec![VariableDeclarator {
            binding: Pattern::Identifier(Identifier::new(name.to_string())),
            init,
        }],
    }))
}

fn block(body: Vec<Statement>) -> Statement {
    Statement::Block(Box::new(BlockStatement { body }))
}

#[test]
fn declaration_binds_values() {
    let mut ctx = InterpreterContext::new();
    let decl = VariableDeclaration {
        kind: DeclarationKind::Let,
        declarators: vec![
            VariableDeclarator { binding: Pattern::Identifier(Identifier::new("a".to_string())), init: Some(num(1)) },
            VariableDeclarator {
                binding: Pattern::Identifier(Identifier::new("b".to_string())),
                init: Some(Expression::Binary(Box::new(BinaryExpression {
                    operator: BinaryOperator::Add,
                    left: var("a"),
                    right: num(2),
                }))),
            },
            VariableDeclarator { binding: Pattern::Identifier(Identifier::new("c".to_string())), init: None },
        ],
    };
    eval_variable_declaration(&mut ctx, &decl);
    assert_eq!(eval_expression(&ctx, &var("a")), Some(JSValue::number(1)));
    assert_eq!(eval_expression(&ctx, &var("b")), Some(JSValue::number(3)));
    assert_eq!(eval_expression(&ctx, &var("c")), Some(JSValue::undefined()));
}

#[test]
fn declare_binding_patterns() {
    let mut ctx = InterpreterContext::new();
    let x = Pattern::Identifier(Identifier::new("x".to_string()));
    assert!(declare_binding(&mut ctx, &DeclarationKind::Const, &x, &JSValue::number(5)));
    // the same scope cannot declare the name twice
    assert!(!declare_binding(&mut ctx, &DeclarationKind::Const, &x, &JSValue::number(6)));
    assert_eq!(eval_expression(&ctx, &var("x")), Some(JSValue::number(5)));
    assert!(declare_binding(&mut ctx, &DeclarationKind::Let, &Pattern::Hole, &JSValue::number(1)));
    let lit = Pattern::Literal(Literal::Number(NumberLiteral::SMI(7)));
    assert!(declare_binding(&mut ctx, &DeclarationKind::Let, &lit, &JSValue::number(7)));
    assert!(!declare_binding(&mut ctx, &DeclarationKind::Let, &lit, &JSValue::number(8)));
    let empty_obj = Pattern::Object(ObjectPattern { properties: vec![] });
    assert!(declare_binding(&mut ctx, &DeclarationKind::Let, &empty_obj, &JSValue::number(1)));
    let obj = Pattern::Object(ObjectPattern {
        properties: vec![PropertyPattern::Shorthand(Identifier::new("p".to_string()))],
    });
    assert!(!declare_binding(&mut ctx, &DeclarationKind::Let, &obj, &JSValue::number(1)));
    let empty_arr = Pattern::Array(ArrayPattern { elements: vec![] });
    assert!(declare_binding(&mut ctx, &DeclarationKind::Let, &empty_arr, &JSValue::number(1)));
}

#[test]
fn block_scopes_its_declarations() {
    let mut ctx = InterpreterContext::new();
    let s = block(vec![let_decl(DeclarationKind::Let, "inner", Some(num(1)))]);
    assert!(eval_statement(&mut ctx, &s, 10));
    assert_eq!(eval_expression(&ctx, &var("inner")), None);
    assert_eq!(ctx.scopes.len(), 1);
}

#[test]
fn if_runs_the_chosen_branch() {
    let mut ctx = InterpreterContext::new();
    let s = Statement::If(Box::new(IfStatement {
        test: boolean(false),
        consequent: Statement::Break(BreakStatement {}),
        alternate: Some(block(vec![])),
    }));
    assert!(eval_statement(&mut ctx, &s, 10));
    assert_eq!(ctx.completion_signal(), None);
    let s = Statement::If(Box::new(IfStatement {
        test: boolean(true),
        consequent: Statement::Break(BreakStatement {}),
        alternate: None,
    }));
    assert!(eval_statement(&mut ctx, &s, 10));
    assert_eq!(ctx.completion_signal(), Some(CompletionSignal::Break));
}

#[test]
fn while_loops_end_or_run_out() {
    let mut ctx = InterpreterContext::new();
    let breaks = Statement::While(Box::new(WhileStatement {
        test: boolean(true),
        body: Statement::Break(BreakStatement {}),
    }));
    assert!(eval_statement(&mut ctx, &breaks, 3));
    assert_eq!(ctx.completion_signal(), None);
    assert_eq!(ctx.scopes.len(), 1);
    let never = Statement::While(Box::new(WhileStatement { test: boolean(false), body: block(vec![]) }));
    assert!(eval_statement(&mut ctx, &never, 0 + 1));
    let forever = Statement::While(Box::new(WhileStatement { test: boolean(true), body: block(vec![]) }));
    assert!(!eval_statement(&mut ctx, &forever, 5));
}

#[test]
fn return_leaves_the_loop_at_once() {
    let mut ctx = InterpreterContext::new();
    let s = Statement::While(Box::new(WhileStatement {
        test: boolean(true),
        body: Statement::Return(Box::new(ReturnStatement { argument: Some(num(9)) })),
    }));
    assert!(eval_statement(&mut ctx, &s, 3));
    assert_eq!(ctx.completion_signal(), Some(CompletionSignal::ReturnValue(JSValue::number(9))));
}

#[test]
fn for_loop_with_a_false_test() {
    let mut ctx = InterpreterContext::new();
    let s = Statement::For(Box::new(ForStatement {
        kind: DeclarationKind::Let,
        init: None,
        test: Some(boolean(false)),
        update: None,
        body: Statement::Break(BreakStatement {}),
    }));
    assert!(eval_statement(&mut ctx, &s, 4));
    assert_eq!(ctx.completion_signal(), None);
    assert_eq!(ctx.scopes.len(), 1);
    let endless = Statement::For(Box::new(ForStatement {
        kind: DeclarationKind::Let,
        init: None,
        test: None,
        update: Some(num(1)),
        body: let_decl(DeclarationKind::Let, "i", Some(num(0))),
    }));
    assert!(!eval_statement(&mut ctx, &endless, 4));
}

#[test]
fn declare_binding_object_patterns() {
    let mut ctx = InterpreterContext::new();
    let a = || Identifier::new("a".to_string());
    let obj = JSValue::object(&mut ctx, vec![(a(), JSValue::number(2))]);
    // let {a: 1} = {a: 2}: the property does not match, nothing is declared
    let pat = Pattern::Object(ObjectPattern {
        properties: vec![PropertyPattern::KeyValue(a(), Pattern::Literal(Literal::Number(NumberLiteral::SMI(1))))],
    });
    assert!(!declare_binding(&mut ctx, &DeclarationKind::Let, &pat, &obj));
    assert_eq!(ctx.scopes[0].len(), 0);
    // let {a: x} = {a: 2} binds x to 2
    let pat = Pattern::Object(ObjectPattern {
        properties: vec![PropertyPattern::KeyValue(a(), Pattern::Identifier(Identifier::new("x".to_string())))],
    });
    assert!(declare_binding(&mut ctx, &DeclarationKind::Let, &pat, &obj));
    assert_eq!(eval_expression(&ctx, &var("x")), Some(JSValue::number(2)));
    // let {a} = {a: 2} binds a
    let pat = Pattern::Object(ObjectPattern { properties: vec![PropertyPattern::Shorthand(a())] });
    assert!(declare_binding(&mut ctx, &DeclarationKind::Const, &pat, &obj));
    assert_eq!(eval_expression(&ctx, &var("a")), Some(JSValue::number(2)));
    // a missing property fails
    let pat = Pattern::Object(ObjectPattern {
        properties: vec![PropertyPattern::Shorthand(Identifier::new("b".to_string()))],
    });
    assert!(!declare_binding(&mut ctx, &DeclarationKind::Let, &pat, &obj));
}

#[test]
fn object_properties_are_shared() {
    let mut ctx = InterpreterContext::new();
    let k = Identifier::new("k".to_string());
    let obj = JSValue::object(&mut ctx, vec![(k.clone(), JSValue::number(1)), (k.clone(), JSValue::number(3))]);
    // a later entry of a name overrides an earlier one
    assert_eq!(obj.get_property(&ctx, &k), Some(JSValue::number(3)));
    let alias = obj.clone();
    alias.set_property(&mut ctx, &k, JSValue::number(9));
    assert_eq!(obj.get_property(&ctx, &k), Some(JSValue::number(9)));
    assert_eq!(obj.get_property(&ctx, &Identifier::new("m".to_string())), None);
    assert_eq!(JSValue::number(1).get_property(&ctx, &k), None);
}

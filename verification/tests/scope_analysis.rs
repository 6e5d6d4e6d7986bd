use kala::ast::{
    BinaryExpression, BinaryOperator, BlockStatement, Expression, ExpressionStatement,
    IfStatement, Pattern, ReturnStatement, Statement, VariableDeclaration, VariableDeclarator,
    WhileStatement,
};
use kala::common::DeclarationKind;
use kala::lexical::{Block, Identifier, Literal, NumberLiteral};
use kala::scope_analysis::{free_variable_block_statement, used_variable_expression};

fn var(name: &str) -> Expression {
    Expression::Variable(Identifier::new(name.to_string()))
}

fn num(n: i32) -> Expression {
    Expression::Literal(Literal::Number(NumberLiteral::SMI(n)))
}

fn add(l: Expression, r: Expression) -> Expression {
    Expression::Binary(Box::new(BinaryExpression { operator: BinaryOperator::Add, left: l, right: r }))
}

fn sorted(mut v: Vec<String>) -> Vec<String> {
    v.sort();
    v.dedup();
    v
}

#[test]
fn used_variables_of_an_expression() {
    let e = add(var("a"), add(num(1), add(var("b"), var("a"))));
    assert_eq!(sorted(used_variable_expression(&e)), vec!["a".to_string(), "b".to_string()]);
    assert!(used_variable_expression(&num(3)).is_empty());
}

#[test]
fn free_variables_of_a_block() {
    // { let x = y; if (x) { return z; } while (w) { x + v; } }
    let body = vec![
        Statement::VariableDeclaration(Box::new(VariableDeclaration {
            kind: DeclarationKind::Let,
            declarators: vec![VariableDeclarator {
                binding: Pattern::Identifier(Identifier::new("x".to_string())),
                init: Some(var("y")),
            }],
        })),
        Statement::If(Box::new(IfStatement {
            test: var("x"),
            consequent: Statement::Return(Box::new(ReturnStatement { argument: Some(var("z")) })),
            alternate: None,
        })),
        Statement::While(Box::new(WhileStatement {
            test: var("w"),
            body: Statement::Expression(Box::new(ExpressionStatement { expression: add(var("x"), var("v")) })),
        })),
    ];
    let block = BlockStatement { body };
    let bound = vec!["v".to_string()];
    assert_eq!(
        sorted(free_variable_block_statement(&bound, &block)),
        vec!["w".to_string(), "z".to_string()]
    );
    // a name read before its declaration is free
    let early = BlockStatement {
        body: vec![
            Statement::Expression(Box::new(ExpressionStatement { expression: var("x") })),
            Statement::VariableDeclaration(Box::new(VariableDeclaration {
                kind: DeclarationKind::Const,
                declarators: vec![VariableDeclarator {
                    binding: Pattern::Identifier(Identifier::new("x".to_string())),
                    init: None,
                }],
            })),
        ],
    };
    assert_eq!(free_variable_block_statement(&vec![], &early), vec!["x".to_string()]);
    assert_eq!(Block::new(vec![]).block.body.len(), 0);
}

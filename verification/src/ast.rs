use vstd::prelude::*;
use crate::common::DeclarationKind;
use crate::lexical::{Identifier, Literal};

verus! {

/// The marker for the syntax tree as the lexical analysis shapes it.
#[derive(Debug, Clone, Copy, PartialEq, Eq, Structural)]
pub struct LexicalNodeF;

/// `break`.
#[derive(Debug, Clone, Copy, PartialEq, Eq, Structural)]
pub struct BreakStatement {}

/// `continue`.
#[derive(Debug, Clone, Copy, PartialEq, Eq, Structural)]
pub struct ContinueStatement {}

#[derive(Debug, Clone, Copy, PartialEq, Eq, Structural)]
pub enum UnaryOperator {
    Void,
    TypeOf,
    Plus,
    Minus,
    Bang,
    Tilde,
}

#[derive(Debug, Clone, Copy, PartialEq, Eq, Structural)]
pub enum BinaryOperator {
    Add,
    Sub,
    Mul,
    Div,
    Mod,
    Pow,
    BitAnd,
    BitOr,
    BitXor,
    LeftShift,
    RightShift,
    UnsignedRightShift,
    StrictEqual,
    StrictNotEqual,
    LessThan,
    LessThanEqual,
    GreaterThan,
    GreaterThanEqual,
}

#[derive(Debug, Clone, Copy, PartialEq, Eq, Structural)]
pub enum UpdateOperator {
    Increment,
    Decrement,
}

#[derive(Debug, Clone, Copy, PartialEq, Eq, Structural)]
pub enum LogicalOperator {
    And,
    Or,
    Coalesce,
}

#[derive(Debug, Clone, Copy, PartialEq, Eq, Structural)]
pub enum AssignmentOperator {
    Assign,
}

/// An expression.
#[derive(Debug)]
pub enum Expression {
    Literal(Literal),
    Variable(Identifier),
    Binary(Box<BinaryExpression>),
    Unary(Box<UnaryExpression>),
    Logical(Box<LogicalExpression>),
    Conditional(Box<ConditionalExpression>),
    Parenthesized(Box<Expression>),
}

#[derive(Debug)]
pub struct BinaryExpression {
    pub operator: BinaryOperator,
    pub left: Expression,
    pub right: Expression,
}

#[derive(Debug)]
pub struct UnaryExpression {
    pub operator: UnaryOperator,
    pub operand: Expression,
}

#[derive(Debug)]
pub struct LogicalExpression {
    pub operator: LogicalOperator,
    pub left: Expression,
    pub right: Expression,
}

#[derive(Debug)]
pub struct ConditionalExpression {
    pub test: Expression,
    pub consequent: Expression,
    pub alternate: Expression,
}

/// A pattern that a declaration binds a value to.
#[derive(Debug)]
pub enum Pattern {
    Identifier(Identifier),
    Literal(Literal),
    Array(ArrayPattern),
    Object(ObjectPattern),
    Hole,
}

/// `[a, b, ...rest]`.
#[derive(Debug)]
pub struct ArrayPattern {
    pub elements: Vec<ElementPattern>,
}

#[derive(Debug)]
pub enum ElementPattern {
    Pattern(Pattern),
    Rest(Pattern),
}

/// `{a: p, b, ...rest}`.
#[derive(Debug)]
pub struct ObjectPattern {
    pub properties: Vec<PropertyPattern>,
}

#[derive(Debug)]
pub enum PropertyPattern {
    KeyValue(Identifier, Pattern),
    Shorthand(Identifier),
    Rest(Pattern),
}

/// One `pattern = init` of a declaration.
#[derive(Debug)]
pub struct VariableDeclarator {
    pub binding: Pattern,
    pub init: Option<Expression>,
}

/// `let` or `const` with its declarators.
#[derive(Debug)]
pub struct VariableDeclaration {
    pub kind: DeclarationKind,
    pub declarators: Vec<VariableDeclarator>,
}

/// `{ ... }`.
#[derive(Debug)]
pub struct BlockStatement {
    pub body: Vec<Statement>,
}

/// `if (test) consequent else alternate`.
#[derive(Debug)]
pub struct IfStatement {
    pub test: Expression,
    pub consequent: Statement,
    pub alternate: Option<Statement>,
}

/// `for (init; test; update) body`.
#[derive(Debug)]
pub struct ForStatement {
    pub kind: DeclarationKind,
    pub init: Option<VariableDeclaration>,
    pub test: Option<Expression>,
    pub update: Option<Expression>,
    pub body: Statement,
}

/// `while (test) body`.
#[derive(Debug)]
pub struct WhileStatement {
    pub test: Expression,
    pub body: Statement,
}

/// `return argument`.
#[derive(Debug)]
pub struct ReturnStatement {
    pub argument: Option<Expression>,
}

/// An expression run for its effect.
#[derive(Debug)]
pub struct ExpressionStatement {
    pub expression: Expression,
}

/// A statement.
#[derive(Debug)]
pub enum Statement {
    VariableDeclaration(Box<VariableDeclaration>),
    Block(Box<BlockStatement>),
    If(Box<IfStatement>),
    For(Box<ForStatement>),
    While(Box<WhileStatement>),
    Break(BreakStatement),
    Continue(ContinueStatement),
    Return(Box<ReturnStatement>),
    Expression(Box<ExpressionStatement>),
}

/// A function: its name, if it has one, its parameters and its body.
#[derive(Debug)]
pub struct FunctionExpression {
    pub name: Option<Identifier>,
    pub params: Vec<Pattern>,
    pub body: crate::lexical::Block,
}

} // verus!

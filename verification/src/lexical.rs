use vstd::prelude::*;
use crate::ast::{BlockStatement, FunctionExpression, Pattern, Statement};

verus! {

/// The marker for the interpreter's shape of the syntax tree.
#[derive(Debug, Clone, Copy, PartialEq, Eq, Structural)]
pub struct InterpreterF;

/// A faster way to reach a variable than by its name. None exist yet: the type has no public
/// constructor, and the crate builds none.
#[derive(Debug, Clone, Copy, PartialEq, Eq, Structural)]
pub struct OptimizedIdentifier {
    none: bool,
}

/// A variable as the interpreter knows it: its name, and how to reach it faster, if known.
#[derive(Debug, Clone)]
pub struct Identifier {
    pub id: String,
    pub opt: Option<OptimizedIdentifier>,
}

impl Identifier {
    /// The identifier with this name, with no faster way known.
    pub fn new(id: String) -> (r: Self)
        ensures
            r.id == id,
            r.opt is None,
    {
        Identifier { id, opt: None }
    }
}

/// A number literal: a small integer.
#[derive(Debug, Clone, Copy, PartialEq, Eq, Structural)]
pub enum NumberLiteral {
    SMI(i32),
}

/// A string literal.
#[derive(Debug, Clone, PartialEq, Eq)]
pub struct StringLiteral(pub String);

/// A boolean literal.
#[derive(Debug, Clone, Copy, PartialEq, Eq, Structural)]
pub struct BooleanLiteral(pub bool);

/// A literal value.
#[derive(Debug, Clone, PartialEq, Eq)]
pub enum Literal {
    Undefined,
    Number(NumberLiteral),
    Boolean(BooleanLiteral),
    String(StringLiteral),
}

/// A block as the interpreter holds it.
#[derive(Debug)]
pub struct Block {
    pub block: BlockStatement,
}

impl Block {
    /// The block of these statements.
    pub fn new(body: Vec<Statement>) -> (r: Self)
        ensures
            r.block.body@ == body@,
    {
        Block { block: BlockStatement { body } }
    }
}

/// A function as the interpreter holds it.
#[derive(Debug)]
pub struct Function {
    pub function: FunctionExpression,
}

impl Function {
    /// The function with this name, these parameters and this body.
    pub fn new(name: Option<Identifier>, params: Vec<Pattern>, body: Block) -> (r: Self)
        ensures
            r.function.name == name,
            r.function.params@ == params@,
            r.function.body == body,
    {
        Function { function: FunctionExpression { name, params, body } }
    }
}

} // verus!

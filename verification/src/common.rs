use vstd::prelude::*;

verus! {

/// How a variable is declared.
#[derive(Debug, Clone, Copy, PartialEq, Eq, Structural)]
pub enum DeclarationKind {
    Let,
    Const,
}

impl DeclarationKind {
    /// Whether a variable so declared may be assigned again: `let` may, `const` may not.
    pub fn is_mutable(&self) -> (r: bool)
        ensures
            r == (*self == DeclarationKind::Let),
    {
        match self {
            DeclarationKind::Let => true,
            DeclarationKind::Const => false,
        }
    }
}

/// A name in the source.
#[derive(Debug, Clone)]
pub struct Identifier {
    pub name: String,
}

/// A string literal of the source.
#[derive(Debug, Clone)]
pub struct StringLiteral {
    pub value: String,
}

/// A boolean literal of the source.
#[derive(Debug, Clone, Copy, PartialEq, Eq, Structural)]
pub struct BooleanLiteral {
    pub value: bool,
}

/// A big integer literal of the source, as written.
#[derive(Debug, Clone)]
pub struct BigintLiteral {
    pub value: String,
}

} // verus!

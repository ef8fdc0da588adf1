//! The part of a lifted Luau syntax tree that the naming pass reads.
//!
//! Locals are shared objects in a lifted tree: two occurrences of the same
//! local are the same object, and renaming it renames every occurrence. Here a
//! local is identified by a `LocalId`, and the names of all locals live in one
//! table, `LocalNames`, from local to name. A local without an entry in the
//! table has no name yet.
//!
//! Statements, expressions and literals that the naming pass never looks into
//! are kept as `Other` variants.

use vstd::prelude::*;
use std::collections::HashMap;

verus! {

/// Identity of a local variable.
pub type LocalId = usize;

/// The current name of every named local.
pub type LocalNames = HashMap<LocalId, String>;

/// A literal value. A number is held by the bit pattern of its `f64` value;
/// `Other` is a literal of another kind, such as a vector.
#[derive(Debug, Clone, PartialEq, Eq)]
pub enum Literal {
    Nil,
    Boolean(bool),
    Number(u64),
    Integer(i64),
    String(Vec<u8>),
    Other,
}

/// The operator of a binary expression.
#[derive(Debug, Clone, Copy, PartialEq, Eq)]
pub enum BinaryOperation {
    Add,
    Sub,
    Mul,
    Div,
    IDiv,
    Mod,
    Pow,
    Concat,
    Equal,
    NotEqual,
    LessThanOrEqual,
    GreaterThanOrEqual,
    LessThan,
    GreaterThan,
    And,
    Or,
}

/// `left[right]`, also written `left.name` when `right` is a string.
#[derive(Debug)]
pub struct Index {
    pub left: Box<RValue>,
    pub right: Box<RValue>,
}

/// `value(arguments)`.
#[derive(Debug)]
pub struct Call {
    pub value: Box<RValue>,
    pub arguments: Vec<RValue>,
}

/// `value:method(arguments)`.
#[derive(Debug)]
pub struct MethodCall {
    pub value: Box<RValue>,
    pub method: String,
    pub arguments: Vec<RValue>,
}

/// An expression that selects the first of several values.
#[derive(Debug)]
pub enum Select {
    Call(Call),
    MethodCall(MethodCall),
    VarArg,
}

/// `left operation right`.
#[derive(Debug)]
pub struct Binary {
    pub left: Box<RValue>,
    pub right: Box<RValue>,
    pub operation: BinaryOperation,
}

/// A table constructor: each entry has an optional key and a value.
#[derive(Debug)]
pub struct Table(pub Vec<(Option<RValue>, RValue)>);

/// A function expression, with the body of the function.
#[derive(Debug)]
pub struct Closure {
    pub body: Block,
}

/// An expression.
#[derive(Debug)]
pub enum RValue {
    Local(LocalId),
    Global(Vec<u8>),
    Literal(Literal),
    Table(Table),
    Closure(Closure),
    Call(Call),
    MethodCall(MethodCall),
    Select(Select),
    Index(Index),
    Binary(Binary),
    Other,
}

/// The target of an assignment.
#[derive(Debug)]
pub enum LValue {
    Local(LocalId),
    Global(Vec<u8>),
    Index(Index),
}

/// `left = right`, or `local left = right` when `prefix` is set.
#[derive(Debug)]
pub struct Assign {
    pub left: Vec<LValue>,
    pub right: Vec<RValue>,
    pub prefix: bool,
}

/// `return values`.
#[derive(Debug)]
pub struct Return {
    pub values: Vec<RValue>,
}

/// A statement.
#[derive(Debug)]
pub enum Statement {
    Assign(Assign),
    Return(Return),
    Other,
}

/// A sequence of statements.
#[derive(Debug)]
pub struct Block(pub Vec<Statement>);

impl LValue {
    /// The local that this target is, if it is one.
    pub open spec fn spec_as_local(self) -> Option<LocalId> {
        match self {
            LValue::Local(l) => Some(l),
            _ => None,
        }
    }

    /// The local that this target is, if it is one.
    pub fn as_local(&self) -> (r: Option<LocalId>)
        ensures
            r == self.spec_as_local(),
    {
        match self {
            LValue::Local(l) => Some(*l),
            _ => None,
        }
    }
}

/// The table of names as a map from local to the characters of its name.
pub open spec fn local_names(m: LocalNames) -> Map<LocalId, Seq<char>> {
    Map::new(|k: LocalId| m@.contains_key(k), |k: LocalId| m@[k]@)
}

} // verus!

use vstd::prelude::*;
use crate::rules::lexer::Position;
use crate::rules::object::{Callable, Object};

verus! {

/// A runtime value of the rule language.
#[derive(Debug)]
pub enum Type {
    String(String),
    Int(u32),
    Bool(bool),
    Ident(String),
    Object(Object),
    Function(Callable),
    Method(Object, Callable),
    List(Vec<Value>),
}

/// The name of a value's type, as shown in messages.
pub open spec fn kind_name(t: Type) -> Seq<char> {
    match t {
        Type::String(_) => "string"@,
        Type::Int(_) => "int"@,
        Type::Bool(_) => "bool"@,
        Type::Ident(_) => "identifier"@,
        Type::Object(_) => "object"@,
        Type::Function(_) | Type::Method(_, _) => "callable"@,
        Type::List(_) => "list"@,
    }
}

/// Strings and integers compare by content, booleans by value; values of
/// other kinds, or of different kinds, are unequal.
pub open spec fn values_equal(a: Type, b: Type) -> bool {
    match (a, b) {
        (Type::String(x), Type::String(y)) => x@ == y@,
        (Type::Int(x), Type::Int(y)) => x == y,
        (Type::Bool(x), Type::Bool(y)) => x == y,
        _ => false,
    }
}

impl Type {
    /// The name of the value's type.
    pub fn type_string(&self) -> (r: String)
        ensures
            r@ == kind_name(*self),
    {
        let s = match self {
            Type::String(_) => "string",
            Type::Int(_) => "int",
            Type::Bool(_) => "bool",
            Type::Ident(_) => "identifier",
            Type::Object(_) => "object",
            Type::Function(_) | Type::Method(_, _) => "callable",
            Type::List(_) => "list",
        };
        s.to_owned()
    }

    /// Structural comparison of two values.
    pub fn equals(&self, other: &Type) -> (r: bool)
        ensures
            r == values_equal(*self, *other),
    {
        match (self, other) {
            (Type::String(x), Type::String(y)) => crate::text::str_eq(x.as_str(), y.as_str()),
            (Type::Int(x), Type::Int(y)) => *x == *y,
            (Type::Bool(x), Type::Bool(y)) => *x == *y,
            _ => false,
        }
    }
}

/// A value with the source position it came from.
#[derive(Debug)]
pub struct Value {
    t: Type,
    position: Position,
}

impl Value {
    /// The value's content.
    pub closed spec fn ty(&self) -> Type {
        self.t
    }

    /// Where the value came from.
    pub closed spec fn pos(&self) -> Position {
        self.position
    }

    pub fn new(t: Type, position: Position) -> (r: Self)
        ensures
            r.ty() == t,
            r.pos() == position,
    {
        Value { t, position }
    }

    pub fn t(&self) -> (r: &Type)
        ensures
            *r == self.ty(),
    {
        &self.t
    }

    pub fn take_t(self) -> (r: Type)
        ensures
            r == self.ty(),
    {
        self.t
    }

    pub fn position(&self) -> (r: &Position)
        ensures
            *r == self.pos(),
    {
        &self.position
    }
}

} // verus!

//! Runtime values, their static types, and the conversions between host
//! scalars and values at the boundary of a compiled program.

use vstd::prelude::*;

verus! {

/// The static classification of a value.
#[derive(Copy, Clone, Debug, PartialEq, Eq, Structural)]
pub enum Type {
    Unit,
    Bool,
    Int,
}

/// A runtime value: a tag and, for booleans and integers, a payload.
#[derive(Copy, Clone, Debug, PartialEq, Eq, Structural)]
pub enum Value {
    Unit,
    Bool(bool),
    Int(i32),
}

impl Value {
    /// The type that this value's tag stands for.
    pub open spec fn tag(self) -> Type {
        match self {
            Value::Unit => Type::Unit,
            Value::Bool(_) => Type::Bool,
            Value::Int(_) => Type::Int,
        }
    }

    /// The type of this value.
    pub fn ty(&self) -> (t: Type)
        ensures
            t == self.tag(),
    {
        match self {
            Value::Unit => Type::Unit,
            Value::Bool(_) => Type::Bool,
            Value::Int(_) => Type::Int,
        }
    }

    /// The payload of a boolean value.
    pub fn unwrap_bool(self) -> (b: bool)
        requires
            self.tag() == Type::Bool,
        ensures
            self == Value::Bool(b),
    {
        match self {
            Value::Bool(value) => value,
            _ => false,
        }
    }

    /// The payload of an integer value.
    pub fn unwrap_int(self) -> (n: i32)
        requires
            self.tag() == Type::Int,
        ensures
            self == Value::Int(n),
    {
        match self {
            Value::Int(value) => value,
            _ => 0,
        }
    }
}

/// A host scalar that can enter a program as its input.
pub trait IntoValue: Sized {
    /// The value that stands for this host scalar.
    spec fn spec_into_value(self) -> Value;

    /// The type of every value that this host type converts to.
    spec fn spec_ty() -> Type;

    /// A converted scalar carries the tag of its host type.
    proof fn lemma_into_value_tag(self)
        ensures
            self.spec_into_value().tag() == Self::spec_ty(),
    ;

    fn into_value(self) -> (v: Value)
        ensures
            v == self.spec_into_value(),
    ;

    fn ty() -> (t: Type)
        ensures
            t == Self::spec_ty(),
    ;
}

/// A host scalar that can leave a program as its output.
pub trait FromValue: Sized {
    /// The host scalar that a value of the right tag stands for.
    spec fn spec_from_value(value: Value) -> Self;

    /// The type of the values that convert to this host type.
    spec fn spec_ty() -> Type;

    fn from_value(value: Value) -> (r: Self)
        requires
            value.tag() == Self::spec_ty(),
        ensures
            r == Self::spec_from_value(value),
    ;

    fn ty() -> (t: Type)
        ensures
            t == Self::spec_ty(),
    ;
}

impl IntoValue for bool {
    open spec fn spec_into_value(self) -> Value {
        Value::Bool(self)
    }

    open spec fn spec_ty() -> Type {
        Type::Bool
    }

    proof fn lemma_into_value_tag(self) {
    }

    fn into_value(self) -> (v: Value) {
        Value::Bool(self)
    }

    fn ty() -> (t: Type) {
        Type::Bool
    }
}

impl IntoValue for i32 {
    open spec fn spec_into_value(self) -> Value {
        Value::Int(self)
    }

    open spec fn spec_ty() -> Type {
        Type::Int
    }

    proof fn lemma_into_value_tag(self) {
    }

    fn into_value(self) -> (v: Value) {
        Value::Int(self)
    }

    fn ty() -> (t: Type) {
        Type::Int
    }
}

impl FromValue for bool {
    open spec fn spec_from_value(value: Value) -> bool {
        match value {
            Value::Bool(b) => b,
            _ => false,
        }
    }

    open spec fn spec_ty() -> Type {
        Type::Bool
    }

    fn from_value(value: Value) -> (r: bool) {
        value.unwrap_bool()
    }

    fn ty() -> (t: Type) {
        Type::Bool
    }
}

impl FromValue for i32 {
    open spec fn spec_from_value(value: Value) -> i32 {
        match value {
            Value::Int(n) => n,
            _ => 0,
        }
    }

    open spec fn spec_ty() -> Type {
        Type::Int
    }

    fn from_value(value: Value) -> (r: i32) {
        value.unwrap_int()
    }

    fn ty() -> (t: Type) {
        Type::Int
    }
}

} // verus!

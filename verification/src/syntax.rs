//! The syntax tree that the compiler takes.

use vstd::prelude::*;
use crate::value::Type;
use crate::value::Value;

verus! {

/// One node of a program. Every node has a value; the nodes that only act
/// (`Let`, `Assign`, `While`) have the unit value.
#[derive(Debug)]
pub enum Node {
    /// `let name = value`: declares a new variable.
    Let { name: &'static str, value: Box<Node> },
    /// `name = value`: gives a declared variable a new value.
    Assign { name: &'static str, value: Box<Node> },
    /// A literal.
    Const(Value),
    /// A variable's current value.
    Var(&'static str),
    /// `lhs > rhs`
    Gt { lhs: Box<Node>, rhs: Box<Node> },
    /// `lhs + rhs`
    Add { lhs: Box<Node>, rhs: Box<Node> },
    /// `lhs - rhs`
    Sub { lhs: Box<Node>, rhs: Box<Node> },
    /// `while cond { body }`
    While { cond: Box<Node>, body: Box<Node> },
    /// `{ ... }`: the nodes in order; the value is that of the last one.
    Block(Vec<Node>),
}

/// A program: the types of its input and output, and its body. The body
/// reads the input through the variable [`INPUT`].
#[derive(Debug)]
pub struct Program {
    pub input: Type,
    pub output: Type,
    pub body: Node,
}

} // verus!

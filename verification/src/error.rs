//! What can go wrong while a program is compiled, and while it runs.

use vstd::prelude::*;
use crate::value::Type;
use crate::value::Value;

verus! {

/// A binary operator of the language.
#[derive(Copy, Clone, Debug, PartialEq, Eq, Structural)]
pub enum Operator {
    Gt,
    Add,
    Sub,
}

/// Why a program was rejected. Compilation stops at the first fault, in the
/// order in which the tree is lowered.
#[derive(Copy, Clone, Debug, PartialEq, Eq)]
pub enum CompileError {
    /// A variable is read or assigned that no earlier `Let` declared.
    UnresolvedName(&'static str),
    /// A `Let` declares a name that is declared already.
    DuplicateDeclaration(&'static str),
    /// A value of type `found` stands where one of type `expected` is needed:
    /// the value assigned to a variable, or the condition of a loop.
    TypeMismatch { expected: Type, found: Type },
    /// An operator is applied to operands of types it has no meaning for.
    UnsupportedOperation { op: Operator, lhs: Type, rhs: Type },
    /// A block holds no node, so it has no last value.
    EmptyBlock,
    /// The body's type is not the output type that the program declares.
    OutputMismatch { declared: Type, found: Type },
    /// The host's input type is not the input type that the program declares.
    HostInputMismatch { declared: Type, host: Type },
    /// The host's output type is not the output type that the program declares.
    HostOutputMismatch { declared: Type, host: Type },
}

/// Why a run of a compiled program ended without a value.
#[derive(Copy, Clone, Debug, PartialEq, Eq, Structural)]
pub enum RunError {
    /// A value is not of the type that its consumer needs: an operand that
    /// is no integer, a loop condition that is no boolean, or a result that
    /// the host type cannot hold. Only a program that reads a variable before
    /// the `Let` that declares it has run can end so.
    Expected { ty: Type, got: Value },
    /// A sum or a difference does not fit in the integer type.
    Overflow,
    /// The run needed more loop iterations than it was given.
    OutOfFuel,
}

} // verus!

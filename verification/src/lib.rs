//! A compiler from a small typed expression language to closures.
//!
//! A [`syntax::Program`] is a tree of [`syntax::Node`]s over three scalar
//! types. [`driver::compile`] type-checks the tree once, gives every variable
//! a slot in a flat frame, and returns a tree of closures that runs on a
//! fresh frame for each call, with no name lookup left to do.
//!
//! What a program means is told in [`typing`] (its types, and the variables
//! it declares) and in [`semantics`] (what it computes). [`lower`] builds
//! the closures and shows that they compute just that.
//!
//! Nothing here ends the process. A program that breaks a rule is refused
//! with an [`error::CompileError`]. A run that cannot go on ends with an
//! [`error::RunError`]: a sum or a difference that does not fit in an
//! integer, a value of the wrong type, or want of fuel. Fuel bounds the
//! loop iterations of a run, so that every call returns; it decides whether
//! a run ends, never what it computes.
//!
//! All variables of a program live in one namespace: a name can be declared
//! once, wherever in the program, and a block that holds no node is refused.

pub mod value;
pub mod error;
pub mod syntax;
pub mod runtime;
pub mod closure;
pub mod scope;
pub mod typing;
pub mod lower;
pub mod semantics;
pub mod simulation;
pub mod driver;
pub mod safety;
pub mod fuel;

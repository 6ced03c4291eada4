//! The state that a compiled program runs on.

use vstd::prelude::*;
use crate::value::Value;
use crate::error::RunError;

verus! {

/// The state of a run as a mathematical value: what every slot of the frame
/// holds, and how many loop iterations the run may still begin.
pub struct State {
    pub frame: Seq<Value>,
    pub fuel: nat,
}

/// What evaluating a closure in a state gives: its value and the state it
/// leaves, or the fault that ended the run.
pub type Outcome = Result<(Value, State), RunError>;

impl State {
    /// The state in which every one of `len` slots holds the unit value.
    pub open spec fn blank(len: nat, fuel: nat) -> State {
        State { frame: Seq::new(len, |i: int| Value::Unit), fuel }
    }

    /// This state with `value` in slot `slot`.
    pub open spec fn store(self, slot: int, value: Value) -> State {
        State { frame: self.frame.update(slot, value), fuel: self.fuel }
    }

    /// This state with one unit of fuel spent.
    pub open spec fn tick(self) -> State {
        State { frame: self.frame, fuel: (self.fuel - 1) as nat }
    }
}

/// The frame of one run: one value per slot, and the loop iterations left.
pub struct RuntimeContext {
    pub stack: Vec<Value>,
    pub fuel: u64,
}

impl View for RuntimeContext {
    type V = State;

    open spec fn view(&self) -> State {
        State { frame: self.stack@, fuel: self.fuel as nat }
    }
}

impl RuntimeContext {
    /// A fresh frame of `len` slots, each holding the unit value.
    pub fn new(len: usize, fuel: u64) -> (ctxt: RuntimeContext)
        ensures
            ctxt@ == State::blank(len as nat, fuel as nat),
    {
        let mut stack: Vec<Value> = Vec::new();
        let mut i: usize = 0;
        while i < len
            invariant
                i <= len,
                stack@ == Seq::new(i as nat, |k: int| Value::Unit),
            decreases len - i,
        {
            stack.push(Value::Unit);
            i = i + 1;
        }
        RuntimeContext { stack, fuel }
    }
}

/// The integer that an operand stands for, or the fault of an operand that
/// is no integer.
pub open spec fn as_int(value: Value) -> Result<i32, RunError> {
    match value {
        Value::Int(n) => Ok(n),
        _ => Err(RunError::Expected { ty: crate::value::Type::Int, got: value }),
    }
}

/// The truth value that a condition stands for, or the fault of a condition
/// that is no boolean.
pub open spec fn as_bool(value: Value) -> Result<bool, RunError> {
    match value {
        Value::Bool(b) => Ok(b),
        _ => Err(RunError::Expected { ty: crate::value::Type::Bool, got: value }),
    }
}

/// The integer value of `n`, or the overflow fault where `n` does not fit.
pub open spec fn int_value(n: int) -> Result<Value, RunError> {
    if i32::MIN <= n <= i32::MAX {
        Ok(Value::Int(n as i32))
    } else {
        Err(RunError::Overflow)
    }
}

/// What applying an operator to two evaluated operands gives.
pub open spec fn apply(op: crate::error::Operator, lhs: i32, rhs: i32) -> Result<Value, RunError> {
    match op {
        crate::error::Operator::Gt => Ok(Value::Bool(lhs > rhs)),
        crate::error::Operator::Add => int_value(lhs + rhs),
        crate::error::Operator::Sub => int_value(lhs - rhs),
    }
}

} // verus!

//! The closures that nodes are lowered to.
//!
//! A closure owns what it needs to run: slot indices, literal values and
//! the closures of its sub-nodes. It holds no name and no type: resolving
//! names and checking types was done when it was built.

use vstd::prelude::*;
use crate::value::Type;
use crate::value::Value;
use crate::error::RunError;
use crate::error::Operator;
use crate::runtime::State;
use crate::runtime::Outcome;
use crate::runtime::RuntimeContext;
use crate::runtime::as_int;
use crate::runtime::as_bool;
use crate::runtime::apply;

verus! {

/// An executable unit: given a frame, it produces a value and may store
/// into slots of the frame.
pub trait Closure {
    /// The number of slots that a frame must have for this closure to run on
    /// it: one more than the highest slot that it reads or writes.
    spec fn span(&self) -> nat;

    /// The value that this closure produces in state `st`, and the state it
    /// leaves.
    spec fn eval(&self, st: State) -> Outcome;

    /// Runs the closure on the frame.
    fn call(&self, ctxt: &mut RuntimeContext) -> (r: Result<Value, RunError>)
        requires
            self.span() <= old(ctxt).stack@.len(),
        ensures
            final(ctxt).stack@.len() == old(ctxt).stack@.len(),
            final(ctxt).fuel <= old(ctxt).fuel,
            match self.eval(old(ctxt)@) {
                Ok((value, st)) => r == Ok::<Value, RunError>(value) && final(ctxt)@ == st,
                Err(e) => r == Err::<Value, RunError>(e),
            },
    ;
}

/// A closure of any kind behind one type: what lowering a node gives,
/// whatever the node was.
pub struct Thunk {
    pub code: Box<dyn Closure>,
}

impl Thunk {
    /// The number of slots that a frame must have for the closure to run on
    /// it.
    pub open spec fn span(&self) -> nat {
        self.code.span()
    }

    /// The value that the closure produces in state `st`, and the state it
    /// leaves.
    pub open spec fn eval(&self, st: State) -> Outcome {
        self.code.eval(st)
    }

    /// Runs the closure on the frame.
    pub fn call(&self, ctxt: &mut RuntimeContext) -> (r: Result<Value, RunError>)
        requires
            self.span() <= old(ctxt).stack@.len(),
        ensures
            final(ctxt).stack@.len() == old(ctxt).stack@.len(),
            final(ctxt).fuel <= old(ctxt).fuel,
            match self.eval(old(ctxt)@) {
                Ok((value, st)) => r == Ok::<Value, RunError>(value) && final(ctxt)@ == st,
                Err(e) => r == Err::<Value, RunError>(e),
            },
    {
        self.code.call(ctxt)
    }
}

/// The larger of two spans.
pub open spec fn wider(a: nat, b: nat) -> nat {
    if a >= b {
        a
    } else {
        b
    }
}

/// The closure of a literal: it produces its value and leaves the frame alone.
pub struct Literal {
    pub value: Value,
}

impl Closure for Literal {
    open spec fn span(&self) -> nat {
        0
    }

    open spec fn eval(&self, st: State) -> Outcome {
        Ok((self.value, st))
    }

    fn call(&self, ctxt: &mut RuntimeContext) -> (r: Result<Value, RunError>) {
        Ok(self.value)
    }
}

/// The closure of a variable reference: it produces what its slot holds.
pub struct Load {
    pub slot: usize,
}

impl Closure for Load {
    open spec fn span(&self) -> nat {
        (self.slot + 1) as nat
    }

    open spec fn eval(&self, st: State) -> Outcome {
        Ok((st.frame[self.slot as int], st))
    }

    fn call(&self, ctxt: &mut RuntimeContext) -> (r: Result<Value, RunError>) {
        Ok(ctxt.stack[self.slot])
    }
}

/// The closure of a declaration or an assignment: it evaluates `value`,
/// stores the result in its slot, and produces the unit value.
pub struct Store {
    pub slot: usize,
    pub value: Thunk,
}

impl Closure for Store {
    open spec fn span(&self) -> nat {
        wider((self.slot + 1) as nat, self.value.span())
    }

    open spec fn eval(&self, st: State) -> Outcome {
        match self.value.eval(st) {
            Ok((value, s1)) => Ok((Value::Unit, s1.store(self.slot as int, value))),
            Err(e) => Err(e),
        }
    }

    fn call(&self, ctxt: &mut RuntimeContext) -> (r: Result<Value, RunError>) {
        match self.value.call(ctxt) {
            Ok(value) => {
                ctxt.stack[self.slot] = value;
                Ok(Value::Unit)
            },
            Err(e) => Err(e),
        }
    }
}

/// The integers of a binary operator's two operands, and the state that
/// evaluating them leaves: the left operand is evaluated and must be an
/// integer, then the right one.
pub open spec fn eval_operands(lhs: &Thunk, rhs: &Thunk, st: State) -> Result<(i32, i32, State), RunError> {
    match lhs.eval(st) {
        Err(e) => Err(e),
        Ok((a, s1)) => match as_int(a) {
            Err(e) => Err(e),
            Ok(x) => match rhs.eval(s1) {
                Err(e) => Err(e),
                Ok((b, s2)) => match as_int(b) {
                    Err(e) => Err(e),
                    Ok(y) => Ok((x, y, s2)),
                },
            },
        },
    }
}

/// What a binary operator's closure produces: the operator applied to its
/// evaluated operands.
pub open spec fn eval_binary(op: Operator, lhs: &Thunk, rhs: &Thunk, st: State) -> Outcome {
    match eval_operands(lhs, rhs, st) {
        Err(e) => Err(e),
        Ok((x, y, s2)) => match apply(op, x, y) {
            Err(e) => Err(e),
            Ok(value) => Ok((value, s2)),
        },
    }
}

/// Evaluates one operand of a binary operator to its integer.
fn operand(thunk: &Thunk, ctxt: &mut RuntimeContext) -> (r: Result<i32, RunError>)
    requires
        thunk.span() <= old(ctxt).stack@.len(),
    ensures
        final(ctxt).stack@.len() == old(ctxt).stack@.len(),
        final(ctxt).fuel <= old(ctxt).fuel,
        match thunk.eval(old(ctxt)@) {
            Err(e) => r == Err::<i32, RunError>(e),
            Ok((value, st)) => match as_int(value) {
                Err(e) => r == Err::<i32, RunError>(e),
                Ok(n) => r == Ok::<i32, RunError>(n) && final(ctxt)@ == st,
            },
        },
{
    match thunk.call(ctxt) {
        Err(e) => Err(e),
        Ok(value) => match value {
            Value::Int(n) => Ok(n),
            _ => Err(RunError::Expected { ty: Type::Int, got: value }),
        },
    }
}

/// Evaluates both operands of a binary operator, the left one first.
fn operands(lhs: &Thunk, rhs: &Thunk, ctxt: &mut RuntimeContext) -> (r: Result<(i32, i32), RunError>)
    requires
        lhs.span() <= old(ctxt).stack@.len(),
        rhs.span() <= old(ctxt).stack@.len(),
    ensures
        final(ctxt).stack@.len() == old(ctxt).stack@.len(),
        final(ctxt).fuel <= old(ctxt).fuel,
        match eval_operands(lhs, rhs, old(ctxt)@) {
            Err(e) => r == Err::<(i32, i32), RunError>(e),
            Ok((x, y, st)) => r == Ok::<(i32, i32), RunError>((x, y)) && final(ctxt)@ == st,
        },
{
    match operand(lhs, ctxt) {
        Err(e) => Err(e),
        Ok(x) => match operand(rhs, ctxt) {
            Err(e) => Err(e),
            Ok(y) => Ok((x, y)),
        },
    }
}

/// The closure of `lhs > rhs`.
pub struct Greater {
    pub lhs: Thunk,
    pub rhs: Thunk,
}

impl Closure for Greater {
    open spec fn span(&self) -> nat {
        wider(self.lhs.span(), self.rhs.span())
    }

    open spec fn eval(&self, st: State) -> Outcome {
        eval_binary(Operator::Gt, &self.lhs, &self.rhs, st)
    }

    fn call(&self, ctxt: &mut RuntimeContext) -> (r: Result<Value, RunError>) {
        match operands(&self.lhs, &self.rhs, ctxt) {
            Err(e) => Err(e),
            Ok((lhs, rhs)) => Ok(Value::Bool(lhs > rhs)),
        }
    }
}

/// The closure of `lhs + rhs`.
pub struct Sum {
    pub lhs: Thunk,
    pub rhs: Thunk,
}

impl Closure for Sum {
    open spec fn span(&self) -> nat {
        wider(self.lhs.span(), self.rhs.span())
    }

    open spec fn eval(&self, st: State) -> Outcome {
        eval_binary(Operator::Add, &self.lhs, &self.rhs, st)
    }

    fn call(&self, ctxt: &mut RuntimeContext) -> (r: Result<Value, RunError>) {
        match operands(&self.lhs, &self.rhs, ctxt) {
            Err(e) => Err(e),
            Ok((lhs, rhs)) => match lhs.checked_add(rhs) {
                Some(n) => Ok(Value::Int(n)),
                None => Err(RunError::Overflow),
            },
        }
    }
}

/// The closure of `lhs - rhs`.
pub struct Difference {
    pub lhs: Thunk,
    pub rhs: Thunk,
}

impl Closure for Difference {
    open spec fn span(&self) -> nat {
        wider(self.lhs.span(), self.rhs.span())
    }

    open spec fn eval(&self, st: State) -> Outcome {
        eval_binary(Operator::Sub, &self.lhs, &self.rhs, st)
    }

    fn call(&self, ctxt: &mut RuntimeContext) -> (r: Result<Value, RunError>) {
        match operands(&self.lhs, &self.rhs, ctxt) {
            Err(e) => Err(e),
            Ok((lhs, rhs)) => match lhs.checked_sub(rhs) {
                Some(n) => Ok(Value::Int(n)),
                None => Err(RunError::Overflow),
            },
        }
    }
}

/// What a loop's closure produces when it may still begin `rounds` rounds:
/// the condition is evaluated and must be a boolean; while it is true, one
/// unit of fuel is spent and the body is evaluated, its value dropped; once
/// it is false the loop produces the unit value.
///
/// A round that goes on to the body spends fuel, so a loop that is given
/// one round more than the fuel it starts with runs out of fuel before it
/// runs out of rounds.
pub open spec fn eval_loop(cond: &Thunk, body: &Thunk, st: State, rounds: nat) -> Outcome
    decreases rounds,
{
    if rounds == 0 {
        Err(RunError::OutOfFuel)
    } else {
        match cond.eval(st) {
            Err(e) => Err(e),
            Ok((c, s1)) => match as_bool(c) {
                Err(e) => Err(e),
                Ok(go_on) => if !go_on {
                    Ok((Value::Unit, s1))
                } else if s1.fuel == 0 {
                    Err(RunError::OutOfFuel)
                } else {
                    match body.eval(s1.tick()) {
                        Err(e) => Err(e),
                        Ok((_, s2)) => eval_loop(cond, body, s2, (rounds - 1) as nat),
                    }
                },
            },
        }
    }
}

/// The closure of `while cond { body }`.
pub struct Loop {
    pub cond: Thunk,
    pub body: Thunk,
}

impl Closure for Loop {
    open spec fn span(&self) -> nat {
        wider(self.cond.span(), self.body.span())
    }

    open spec fn eval(&self, st: State) -> Outcome {
        eval_loop(&self.cond, &self.body, st, st.fuel + 1)
    }

    fn call(&self, ctxt: &mut RuntimeContext) -> (r: Result<Value, RunError>) {
        let ghost start = ctxt@;
        let ghost mut rounds: nat = ctxt@.fuel + 1;
        loop
            invariant
                start == old(ctxt)@,
                self.span() <= ctxt.stack@.len(),
                ctxt.stack@.len() == start.frame.len(),
                ctxt.fuel <= start.fuel,
                ctxt.fuel < rounds,
                self.eval(start) == eval_loop(&self.cond, &self.body, ctxt@, rounds),
            decreases ctxt.fuel,
        {
            match self.cond.call(ctxt) {
                Err(e) => {
                    return Err(e);
                },
                Ok(c) => match c {
                    Value::Bool(go_on) => {
                        if !go_on {
                            return Ok(Value::Unit);
                        }
                        if ctxt.fuel == 0 {
                            return Err(RunError::OutOfFuel);
                        }
                        ctxt.fuel = ctxt.fuel - 1;
                        match self.body.call(ctxt) {
                            Err(e) => {
                                return Err(e);
                            },
                            Ok(_) => {
                                proof {
                                    rounds = (rounds - 1) as nat;
                                }
                            },
                        }
                    },
                    _ => {
                        return Err(RunError::Expected { ty: Type::Bool, got: c });
                    },
                },
            }
        }
    }
}

/// The span of a sequence of closures: the widest of theirs.
pub open spec fn span_of(items: Seq<Thunk>) -> nat
    decreases items.len(),
{
    if items.len() == 0 {
        0
    } else {
        wider(span_of(items.drop_last()), items.last().span())
    }
}

/// What a block's closures produce from the `from`-th on, when `last` is the
/// value of the one before: each is evaluated in the state that the one
/// before it left, and the value is that of the last one.
pub open spec fn eval_from(items: Seq<Thunk>, from: int, st: State, last: Value) -> Outcome
    decreases items.len() - from,
{
    if from < 0 || from >= items.len() {
        Ok((last, st))
    } else {
        match items[from].eval(st) {
            Err(e) => Err(e),
            Ok((value, s1)) => eval_from(items, from + 1, s1, value),
        }
    }
}

/// Every closure of a sequence fits in the span of the sequence.
pub proof fn lemma_span_of_covers(items: Seq<Thunk>, i: int)
    requires
        0 <= i < items.len(),
    ensures
        items[i].span() <= span_of(items),
    decreases items.len(),
{
    if i < items.len() - 1 {
        lemma_span_of_covers(items.drop_last(), i);
    }
}

/// The closure of a block.
pub struct Sequence {
    pub items: Vec<Thunk>,
}

impl Closure for Sequence {
    open spec fn span(&self) -> nat {
        span_of(self.items@)
    }

    open spec fn eval(&self, st: State) -> Outcome {
        eval_from(self.items@, 0, st, Value::Unit)
    }

    fn call(&self, ctxt: &mut RuntimeContext) -> (r: Result<Value, RunError>) {
        let ghost start = ctxt@;
        let mut value = Value::Unit;
        let mut i: usize = 0;
        while i < self.items.len()
            invariant
                start == old(ctxt)@,
                i <= self.items.len(),
                self.span() <= ctxt.stack@.len(),
                ctxt.stack@.len() == start.frame.len(),
                ctxt.fuel <= start.fuel,
                self.eval(start) == eval_from(self.items@, i as int, ctxt@, value),
            decreases self.items.len() - i,
        {
            proof {
                lemma_span_of_covers(self.items@, i as int);
            }
            match self.items[i].call(ctxt) {
                Err(e) => {
                    return Err(e);
                },
                Ok(v) => {
                    value = v;
                },
            }
            i = i + 1;
        }
        Ok(value)
    }
}

} // verus!

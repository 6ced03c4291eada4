//! The meaning of a program, told over its variables by name.
//!
//! This is what a program computes, whatever it is compiled to: the
//! compiler's closures are held to it.

use vstd::prelude::*;
use crate::value::Value;
use crate::error::RunError;
use crate::error::Operator;
use crate::syntax::Node;
use crate::syntax::Program;
use crate::scope::INPUT;
use crate::runtime::as_int;
use crate::runtime::as_bool;
use crate::runtime::apply;

verus! {

/// The state of a program: the value of each variable that was given one,
/// and how many loop iterations the run may still begin.
pub struct Memory {
    pub vars: Map<Seq<char>, Value>,
    pub fuel: nat,
}

/// What evaluating a node gives: its value and the memory it leaves, or the
/// fault that ended the run.
pub type Effect = Result<(Value, Memory), RunError>;

impl Memory {
    /// The memory in which a program starts: only the input has a value.
    pub open spec fn initial(input: Value, fuel: nat) -> Memory {
        Memory { vars: map![INPUT@ => input], fuel }
    }

    /// The value of a variable. One that was given none yet, because the
    /// `Let` that declares it has not run, reads as the unit value.
    pub open spec fn read(self, name: Seq<char>) -> Value {
        if self.vars.contains_key(name) {
            self.vars[name]
        } else {
            Value::Unit
        }
    }

    /// This memory with `value` in the variable `name`.
    pub open spec fn write(self, name: Seq<char>, value: Value) -> Memory {
        Memory { vars: self.vars.insert(name, value), fuel: self.fuel }
    }

    /// This memory with one unit of fuel spent.
    pub open spec fn tick(self) -> Memory {
        Memory { vars: self.vars, fuel: (self.fuel - 1) as nat }
    }
}

/// The integer of an evaluated operand and the memory it left, or the fault
/// of an operand that failed or is no integer.
pub open spec fn operand(effect: Effect) -> Result<(i32, Memory), RunError> {
    match effect {
        Err(e) => Err(e),
        Ok((value, mem)) => match as_int(value) {
            Err(e) => Err(e),
            Ok(n) => Ok((n, mem)),
        },
    }
}

/// The operator applied to two integers, in the memory that evaluating the
/// operands left.
pub open spec fn applied(op: Operator, lhs: i32, rhs: i32, mem: Memory) -> Effect {
    match apply(op, lhs, rhs) {
        Err(e) => Err(e),
        Ok(value) => Ok((value, mem)),
    }
}

impl Node {
    /// What this node computes in a memory.
    ///
    /// - A literal is its value.
    /// - A variable is the value it holds.
    /// - `Let` and `Assign` evaluate their value and give it to the
    ///   variable; they are the unit value.
    /// - An operator evaluates its left operand, which must be an integer,
    ///   then its right one, and is the result of applying it; a sum or a
    ///   difference that does not fit is a fault.
    /// - `While` evaluates its condition, which must be a boolean; while it
    ///   is true, it spends one unit of fuel and evaluates its body. It is
    ///   the unit value.
    /// - A block evaluates its nodes in order, each in the memory that the
    ///   one before left, and is the value of the last one.
    pub open spec fn eval(&self, mem: Memory) -> Effect
        decreases self, 1nat, 0nat,
    {
        match self {
            Node::Const(value) => Ok((*value, mem)),
            Node::Var(name) => Ok((mem.read(name@), mem)),
            Node::Let { name, value } => match value.eval(mem) {
                Err(e) => Err(e),
                Ok((v, m1)) => Ok((Value::Unit, m1.write(name@, v))),
            },
            Node::Assign { name, value } => match value.eval(mem) {
                Err(e) => Err(e),
                Ok((v, m1)) => Ok((Value::Unit, m1.write(name@, v))),
            },
            Node::Gt { lhs, rhs } => match operand(lhs.eval(mem)) {
                Err(e) => Err(e),
                Ok((x, m1)) => match operand(rhs.eval(m1)) {
                    Err(e) => Err(e),
                    Ok((y, m2)) => applied(Operator::Gt, x, y, m2),
                },
            },
            Node::Add { lhs, rhs } => match operand(lhs.eval(mem)) {
                Err(e) => Err(e),
                Ok((x, m1)) => match operand(rhs.eval(m1)) {
                    Err(e) => Err(e),
                    Ok((y, m2)) => applied(Operator::Add, x, y, m2),
                },
            },
            Node::Sub { lhs, rhs } => match operand(lhs.eval(mem)) {
                Err(e) => Err(e),
                Ok((x, m1)) => match operand(rhs.eval(m1)) {
                    Err(e) => Err(e),
                    Ok((y, m2)) => applied(Operator::Sub, x, y, m2),
                },
            },
            Node::While { cond, body } => eval_while(self, mem, mem.fuel + 1),
            Node::Block(nodes) => eval_nodes(nodes@, 0, mem, Value::Unit),
        }
    }
}

/// What the loop `node` computes when it may still begin `rounds` rounds.
/// A round that goes on to the body spends fuel, so a loop that is given one
/// round more than the fuel it starts with runs out of fuel before it runs
/// out of rounds.
pub open spec fn eval_while(node: &Node, mem: Memory, rounds: nat) -> Effect
    decreases node, 0nat, rounds,
{
    match node {
        Node::While { cond, body } => if rounds == 0 {
            Err(RunError::OutOfFuel)
        } else {
            match cond.eval(mem) {
                Err(e) => Err(e),
                Ok((c, m1)) => match as_bool(c) {
                    Err(e) => Err(e),
                    Ok(go_on) => if !go_on {
                        Ok((Value::Unit, m1))
                    } else if m1.fuel == 0 {
                        Err(RunError::OutOfFuel)
                    } else {
                        match body.eval(m1.tick()) {
                            Err(e) => Err(e),
                            Ok((_, m2)) => eval_while(node, m2, (rounds - 1) as nat),
                        }
                    },
                },
            }
        },
        _ => Err(RunError::OutOfFuel),
    }
}

/// What a block's nodes compute from the `from`-th on, when `last` is the
/// value of the one before.
pub open spec fn eval_nodes(nodes: Seq<Node>, from: int, mem: Memory, last: Value) -> Effect
    decreases nodes, 0nat, nodes.len() - from,
{
    if from < 0 || from >= nodes.len() {
        Ok((last, mem))
    } else {
        match nodes[from].eval(mem) {
            Err(e) => Err(e),
            Ok((value, m1)) => eval_nodes(nodes, from + 1, m1, value),
        }
    }
}

/// What the earlier nodes of a block did is visible to its last node, and
/// the block's value is that of its last node: a block computes what its
/// last node computes in the memory that the nodes before it leave, and a
/// fault among those ends the block.
pub proof fn lemma_block_runs_in_order(nodes: Seq<Node>, from: int, mem: Memory, last: Value)
    requires
        0 <= from < nodes.len(),
    ensures
        eval_nodes(nodes, from, mem, last) == match eval_nodes(nodes.drop_last(), from, mem, last) {
            Err(e) => Err(e),
            Ok((_, before_last)) => nodes.last().eval(before_last),
        },
    decreases nodes.len() - from,
{
    let front = nodes.drop_last();
    if from < nodes.len() - 1 {
        assert(front[from] == nodes[from]);
        match nodes[from].eval(mem) {
            Ok((value, m1)) => {
                lemma_block_runs_in_order(nodes, from + 1, m1, value);
            },
            Err(_) => {},
        }
    } else {
        match nodes[from].eval(mem) {
            Ok((value, m1)) => {
                assert(eval_nodes(nodes, from + 1, m1, value) == Ok::<(Value, Memory), RunError>(
                    (value, m1),
                ));
            },
            Err(_) => {},
        }
    }
}

impl Program {
    /// What the program computes from an input, with fuel for that many
    /// loop iterations.
    pub open spec fn run(&self, input: Value, fuel: nat) -> Result<Value, RunError> {
        match self.body.eval(Memory::initial(input, fuel)) {
            Err(e) => Err(e),
            Ok((value, _)) => Ok(value),
        }
    }
}

} // verus!

//! Fuel decides whether a run ends, never what it computes.

use vstd::prelude::*;
use crate::value::Value;
use crate::value::IntoValue;
use crate::value::FromValue;
use crate::error::RunError;
use crate::syntax::Node;
use crate::syntax::Program;
use crate::semantics::Memory;
use crate::semantics::Effect;
use crate::semantics::eval_while;
use crate::semantics::eval_nodes;

verus! {

impl Memory {
    /// This memory with `extra` more units of fuel.
    pub open spec fn refuel(self, extra: nat) -> Memory {
        Memory { vars: self.vars, fuel: self.fuel + extra }
    }
}

/// Whether `more` is what `effect` becomes when the run is given `extra`
/// more units of fuel: the same value and variables, with the fuel that is
/// left raised by `extra`, or the same fault. A run that ran out of fuel may
/// become anything.
pub open spec fn with_more_fuel(effect: Effect, more: Effect, extra: nat) -> bool {
    match effect {
        Ok((value, mem)) => more == Ok::<(Value, Memory), RunError>((value, mem.refuel(extra))),
        Err(e) => e != RunError::OutOfFuel ==> more == Err::<(Value, Memory), RunError>(e),
    }
}

/// A declaration or an assignment does with more fuel what its value does.
proof fn lemma_store_with_more_fuel(node: &Node, name: &'static str, value: &Node, mem: Memory, extra: nat)
    requires
        *node == (Node::Let { name, value: Box::new(*value) }) || *node == (Node::Assign {
            name,
            value: Box::new(*value),
        }),
        with_more_fuel(value.eval(mem), value.eval(mem.refuel(extra)), extra),
    ensures
        with_more_fuel(node.eval(mem), node.eval(mem.refuel(extra)), extra),
{
    match value.eval(mem) {
        Ok((v, m1)) => {
            assert(m1.refuel(extra).write(name@, v) == m1.write(name@, v).refuel(extra));
        },
        Err(_) => {},
    }
}

/// A binary operator does with more fuel what its operands do.
proof fn lemma_binary_with_more_fuel(node: &Node, lhs: &Node, rhs: &Node, mem: Memory, extra: nat)
    requires
        *node == (Node::Gt { lhs: Box::new(*lhs), rhs: Box::new(*rhs) }) || *node == (Node::Add {
            lhs: Box::new(*lhs),
            rhs: Box::new(*rhs),
        }) || *node == (Node::Sub { lhs: Box::new(*lhs), rhs: Box::new(*rhs) }),
        with_more_fuel(lhs.eval(mem), lhs.eval(mem.refuel(extra)), extra),
        lhs.eval(mem) matches Ok((_, m1)) ==> with_more_fuel(
            rhs.eval(m1),
            rhs.eval(m1.refuel(extra)),
            extra,
        ),
    ensures
        with_more_fuel(node.eval(mem), node.eval(mem.refuel(extra)), extra),
{
}

/// A node computes with more fuel what it computes with less, if that was
/// enough.
pub proof fn lemma_node_with_more_fuel(node: &Node, mem: Memory, extra: nat)
    ensures
        with_more_fuel(node.eval(mem), node.eval(mem.refuel(extra)), extra),
    decreases node, 1nat, 0nat,
{
    match node {
        Node::Const(_) => {},
        Node::Var(_) => {},
        Node::Let { name, value } => {
            lemma_node_with_more_fuel(value, mem, extra);
            lemma_store_with_more_fuel(node, name, value, mem, extra);
        },
        Node::Assign { name, value } => {
            lemma_node_with_more_fuel(value, mem, extra);
            lemma_store_with_more_fuel(node, name, value, mem, extra);
        },
        Node::Gt { lhs, rhs } => {
            lemma_node_with_more_fuel(lhs, mem, extra);
            match lhs.eval(mem) {
                Ok((_, m1)) => {
                    lemma_node_with_more_fuel(rhs, m1, extra);
                },
                Err(_) => {},
            }
            lemma_binary_with_more_fuel(node, lhs, rhs, mem, extra);
        },
        Node::Add { lhs, rhs } => {
            lemma_node_with_more_fuel(lhs, mem, extra);
            match lhs.eval(mem) {
                Ok((_, m1)) => {
                    lemma_node_with_more_fuel(rhs, m1, extra);
                },
                Err(_) => {},
            }
            lemma_binary_with_more_fuel(node, lhs, rhs, mem, extra);
        },
        Node::Sub { lhs, rhs } => {
            lemma_node_with_more_fuel(lhs, mem, extra);
            match lhs.eval(mem) {
                Ok((_, m1)) => {
                    lemma_node_with_more_fuel(rhs, m1, extra);
                },
                Err(_) => {},
            }
            lemma_binary_with_more_fuel(node, lhs, rhs, mem, extra);
        },
        Node::While { cond, body } => {
            lemma_loop_with_more_fuel(node, mem, mem.fuel + 1, mem.fuel + extra + 1, extra);
        },
        Node::Block(nodes) => {
            lemma_nodes_with_more_fuel(nodes@, 0, mem, Value::Unit, extra);
        },
    }
}

/// A loop computes with more fuel and more rounds what it computes with
/// less, if that was enough.
proof fn lemma_loop_with_more_fuel(node: &Node, mem: Memory, rounds: nat, more_rounds: nat, extra: nat)
    requires
        node is While,
        rounds <= more_rounds,
    ensures
        with_more_fuel(
            eval_while(node, mem, rounds),
            eval_while(node, mem.refuel(extra), more_rounds),
            extra,
        ),
    decreases node, 0nat, rounds,
{
    match node {
        Node::While { cond, body } => {
            if rounds > 0 {
                lemma_node_with_more_fuel(cond, mem, extra);
                match cond.eval(mem) {
                    Ok((c, m1)) => {
                        if c == Value::Bool(true) && m1.fuel > 0 {
                            assert(m1.refuel(extra).tick() == m1.tick().refuel(extra));
                            lemma_node_with_more_fuel(body, m1.tick(), extra);
                            match body.eval(m1.tick()) {
                                Ok((_, m2)) => {
                                    lemma_loop_with_more_fuel(
                                        node,
                                        m2,
                                        (rounds - 1) as nat,
                                        (more_rounds - 1) as nat,
                                        extra,
                                    );
                                },
                                Err(_) => {},
                            }
                        }
                    },
                    Err(_) => {},
                }
            }
        },
        _ => {},
    }
}

/// The nodes of a block compute with more fuel what they compute with
/// less, if that was enough.
proof fn lemma_nodes_with_more_fuel(nodes: Seq<Node>, from: int, mem: Memory, last: Value, extra: nat)
    ensures
        with_more_fuel(
            eval_nodes(nodes, from, mem, last),
            eval_nodes(nodes, from, mem.refuel(extra), last),
            extra,
        ),
    decreases nodes, 0nat, nodes.len() - from,
{
    if 0 <= from < nodes.len() {
        lemma_node_with_more_fuel(&nodes[from], mem, extra);
        match nodes[from].eval(mem) {
            Ok((value, m1)) => {
                lemma_nodes_with_more_fuel(nodes, from + 1, m1, value, extra);
            },
            Err(_) => {},
        }
    }
}

/// A loop whose condition is always true never ends: whatever fuel it is
/// given, it gives no value, and ends for want of fuel unless its body
/// ends in a fault first.
pub proof fn lemma_endless_loop_gives_no_value(body: Node, mem: Memory, rounds: nat)
    ensures
        eval_while(
            &(Node::While { cond: Box::new(Node::Const(Value::Bool(true))), body: Box::new(body) }),
            mem,
            rounds,
        ) is Err,
        rounds == mem.fuel + 1 ==> (Node::While {
            cond: Box::new(Node::Const(Value::Bool(true))),
            body: Box::new(body),
        }).eval(mem) is Err,
    decreases rounds,
{
    let cond = Node::Const(Value::Bool(true));
    assert(cond.eval(mem) == Ok::<(Value, Memory), RunError>((Value::Bool(true), mem)));
    if rounds > 0 && mem.fuel > 0 {
        match body.eval(mem.tick()) {
            Ok((_, m2)) => {
                lemma_endless_loop_gives_no_value(body, m2, (rounds - 1) as nat);
            },
            Err(_) => {},
        }
    }
}

/// Fuel decides whether a run ends, never what it computes: a program that
/// gives an answer with some fuel gives the same answer with any more, and
/// one that ends in a fault other than want of fuel ends in the same fault.
pub proof fn lemma_answer_with_more_fuel<Input: IntoValue, Output: FromValue>(
    prog: Program,
    input: Input,
    fuel: nat,
    extra: nat,
)
    requires
        prog.answer::<Input, Output>(input, fuel) != Err::<Output, RunError>(RunError::OutOfFuel),
    ensures
        prog.run(input.spec_into_value(), fuel + extra) == prog.run(input.spec_into_value(), fuel),
        prog.answer::<Input, Output>(input, fuel + extra) == prog.answer::<Input, Output>(input, fuel),
{
    let mem = Memory::initial(input.spec_into_value(), fuel);
    lemma_node_with_more_fuel(&prog.body, mem, extra);
    assert(mem.refuel(extra) == Memory::initial(input.spec_into_value(), fuel + extra));
}

} // verus!

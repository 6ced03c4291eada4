//! What ties a closure to the node it was built from: run on a frame that
//! holds the variables' values in their slots, the closure computes what
//! the node means.

use vstd::prelude::*;
use crate::value::Value;
use crate::error::RunError;
use crate::error::Operator;
use crate::syntax::Node;
use crate::scope::Scope;
use crate::scope::lemma_extends_transitive;
use crate::scope::lemma_extends_keeps;
use crate::runtime::State;
use crate::runtime::Outcome;
use crate::closure::Thunk;
use crate::closure::eval_binary;
use crate::closure::eval_loop;
use crate::closure::eval_from;
use crate::semantics::Memory;
use crate::semantics::Effect;
use crate::semantics::eval_while;
use crate::semantics::eval_nodes;

verus! {

/// Whether a frame holds a memory: each variable's slot is in the frame and
/// holds the variable's value, and the fuel is the same.
pub open spec fn represents(slots: Map<Seq<char>, nat>, st: State, mem: Memory) -> bool {
    &&& st.fuel == mem.fuel
    &&& forall|name: Seq<char>| #[trigger]
        slots.contains_key(name) ==> slots[name] < st.frame.len() && st.frame[slots[name] as int]
            == mem.read(name)
}

/// Whether a closure's outcome on a frame of `len` slots is what a node
/// computes: the same fault, or the same value, in a frame of the same
/// length that holds the memory the node left.
pub open spec fn agree(slots: Map<Seq<char>, nat>, len: nat, outcome: Outcome, effect: Effect) -> bool {
    match outcome {
        Ok((value, st)) => effect matches Ok((expected, mem)) && value == expected && st.frame.len()
            == len && represents(slots, st, mem),
        Err(e) => effect matches Err(expected) && e == expected,
    }
}

/// Whether a closure computes what a node means, in every scope that keeps
/// the variables of `scope` in their slots: on every frame that holds a
/// memory, the closure's outcome is what the node computes in that memory.
#[verifier::opaque]
pub open spec fn simulates(thunk: &Thunk, node: &Node, scope: Scope) -> bool {
    forall|later: Scope, st: State, mem: Memory|
        #![trigger later.extends(scope), represents(later.slots, st, mem)]
        later.wf() && later.extends(scope) && represents(later.slots, st, mem) ==> agree(
            later.slots,
            st.frame.len(),
            thunk.eval(st),
            node.eval(mem),
        )
}

/// What a closure that computes a node's meaning does on one frame.
pub proof fn lemma_simulates_on(thunk: Thunk, node: Node, scope: Scope, later: Scope, st: State, mem: Memory)
    requires
        simulates(&thunk, &node, scope),
        later.wf(),
        later.extends(scope),
        represents(later.slots, st, mem),
    ensures
        agree(later.slots, st.frame.len(), thunk.eval(st), node.eval(mem)),
{
    reveal(simulates);
}

/// A closure that computes a node's meaning in a scope does so in every
/// scope that extends it.
pub proof fn lemma_simulates_later(thunk: Thunk, node: Node, scope: Scope, wider: Scope)
    requires
        simulates(&thunk, &node, scope),
        wider.extends(scope),
    ensures
        simulates(&thunk, &node, wider),
{
    assert forall|later: Scope, st: State, mem: Memory|
        later.wf() && #[trigger] later.extends(wider) && #[trigger] represents(
            later.slots,
            st,
            mem,
        ) implies agree(later.slots, st.frame.len(), thunk.eval(st), node.eval(mem)) by {
        lemma_extends_transitive(scope, wider, later);
        lemma_simulates_on(thunk, node, scope, later, st, mem);
    }
    reveal(simulates);
}

/// The closure of a literal computes what the literal means.
pub proof fn lemma_literal_simulates(thunk: Thunk, value: Value, scope: Scope)
    requires
        forall|st: State| #[trigger] thunk.eval(st) == Ok::<(Value, State), RunError>((value, st)),
    ensures
        simulates(&thunk, &Node::Const(value), scope),
{
    reveal(simulates);
}

/// The closure that loads a variable's slot computes what the variable
/// means.
pub proof fn lemma_load_simulates(thunk: Thunk, slot: usize, name: &'static str, scope: Scope)
    requires
        scope.wf(),
        scope.declares(name@),
        scope.slots[name@] == slot,
        forall|st: State| #[trigger]
            thunk.eval(st) == Ok::<(Value, State), RunError>((st.frame[slot as int], st)),
    ensures
        simulates(&thunk, &Node::Var(name), scope),
{
    let node = Node::Var(name);
    assert forall|later: Scope, st: State, mem: Memory|
        later.wf() && #[trigger] later.extends(scope) && #[trigger] represents(
            later.slots,
            st,
            mem,
        ) implies agree(later.slots, st.frame.len(), thunk.eval(st), node.eval(mem)) by {
        lemma_extends_keeps(later, scope, name@);
    }
    reveal(simulates);
}

/// Storing a value in a variable's slot keeps a frame in step with the
/// memory in which the variable is given that value.
pub proof fn lemma_store_represents(later: Scope, name: Seq<char>, value: Value, st: State, mem: Memory)
    requires
        later.wf(),
        later.declares(name),
        represents(later.slots, st, mem),
    ensures
        represents(later.slots, st.store(later.slots[name] as int, value), mem.write(name, value)),
{
    reveal(Scope::wf);
    let slot = later.slots[name];
    let st2 = st.store(slot as int, value);
    let mem2 = mem.write(name, value);
    assert forall|other: Seq<char>| #[trigger] later.slots.contains_key(other) implies later.slots[other]
        < st2.frame.len() && st2.frame[later.slots[other] as int] == mem2.read(other) by {
        if other != name {
            assert(later.slots[other] != later.slots[name]);
        }
    }
}

/// The closure that stores a value's result in a variable's slot computes
/// what declaring or assigning the variable means.
pub proof fn lemma_store_simulates(
    thunk: Thunk,
    inner: Thunk,
    slot: usize,
    node: Node,
    name: &'static str,
    value: Node,
    before: Scope,
    scope: Scope,
)
    requires
        node == (Node::Let { name, value: Box::new(value) }) || node == (Node::Assign {
            name,
            value: Box::new(value),
        }),
        simulates(&inner, &value, before),
        scope.extends(before),
        scope.wf(),
        scope.declares(name@),
        scope.slots[name@] == slot,
        forall|st: State| #[trigger]
            thunk.eval(st) == match inner.eval(st) {
                Ok((v, s1)) => Ok::<(Value, State), RunError>((Value::Unit, s1.store(slot as int, v))),
                Err(e) => Err::<(Value, State), RunError>(e),
            },
    ensures
        simulates(&thunk, &node, scope),
{
    assert forall|later: Scope, st: State, mem: Memory|
        later.wf() && #[trigger] later.extends(scope) && #[trigger] represents(
            later.slots,
            st,
            mem,
        ) implies agree(later.slots, st.frame.len(), thunk.eval(st), node.eval(mem)) by {
        lemma_extends_transitive(before, scope, later);
        lemma_simulates_on(inner, value, before, later, st, mem);
        lemma_extends_keeps(later, scope, name@);
        match inner.eval(st) {
            Ok((v, s1)) => {
                let m1 = value.eval(mem)->Ok_0.1;
                lemma_store_represents(later, name@, v, s1, m1);
            },
            Err(_) => {},
        }
    }
    reveal(simulates);
}

/// The closure of a binary operator computes what the operator means.
pub proof fn lemma_binary_simulates(
    thunk: Thunk,
    op: Operator,
    left: Thunk,
    right: Thunk,
    node: Node,
    lhs: Node,
    rhs: Node,
    middle: Scope,
    scope: Scope,
)
    requires
        node == match op {
            Operator::Gt => Node::Gt { lhs: Box::new(lhs), rhs: Box::new(rhs) },
            Operator::Add => Node::Add { lhs: Box::new(lhs), rhs: Box::new(rhs) },
            Operator::Sub => Node::Sub { lhs: Box::new(lhs), rhs: Box::new(rhs) },
        },
        simulates(&left, &lhs, middle),
        simulates(&right, &rhs, scope),
        scope.extends(middle),
        forall|st: State| #[trigger] thunk.eval(st) == eval_binary(op, &left, &right, st),
    ensures
        simulates(&thunk, &node, scope),
{
    assert forall|later: Scope, st: State, mem: Memory|
        later.wf() && #[trigger] later.extends(scope) && #[trigger] represents(
            later.slots,
            st,
            mem,
        ) implies agree(later.slots, st.frame.len(), thunk.eval(st), node.eval(mem)) by {
        lemma_extends_transitive(middle, scope, later);
        lemma_simulates_on(left, lhs, middle, later, st, mem);
        match left.eval(st) {
            Ok((a, s1)) => {
                let m1 = lhs.eval(mem)->Ok_0.1;
                lemma_simulates_on(right, rhs, scope, later, s1, m1);
            },
            Err(_) => {},
        }
    }
    reveal(simulates);
}

/// A loop's closure and the loop agree, whatever number of rounds both are
/// given.
pub proof fn lemma_loop_agrees(
    cond_thunk: Thunk,
    body_thunk: Thunk,
    node: Node,
    cond: Node,
    body: Node,
    scope: Scope,
    later: Scope,
    st: State,
    mem: Memory,
    rounds: nat,
)
    requires
        node == (Node::While { cond: Box::new(cond), body: Box::new(body) }),
        simulates(&cond_thunk, &cond, scope),
        simulates(&body_thunk, &body, scope),
        later.wf(),
        later.extends(scope),
        represents(later.slots, st, mem),
    ensures
        agree(
            later.slots,
            st.frame.len(),
            eval_loop(&cond_thunk, &body_thunk, st, rounds),
            eval_while(&node, mem, rounds),
        ),
    decreases rounds,
{
    if rounds > 0 {
        lemma_simulates_on(cond_thunk, cond, scope, later, st, mem);
        match cond_thunk.eval(st) {
            Ok((c, s1)) => {
                let m1 = cond.eval(mem)->Ok_0.1;
                if c == Value::Bool(true) && s1.fuel > 0 {
                    lemma_simulates_on(body_thunk, body, scope, later, s1.tick(), m1.tick());
                    match body_thunk.eval(s1.tick()) {
                        Ok((_, s2)) => {
                            let m2 = body.eval(m1.tick())->Ok_0.1;
                            lemma_loop_agrees(
                                cond_thunk,
                                body_thunk,
                                node,
                                cond,
                                body,
                                scope,
                                later,
                                s2,
                                m2,
                                (rounds - 1) as nat,
                            );
                        },
                        Err(_) => {},
                    }
                }
            },
            Err(_) => {},
        }
    }
}

/// The closure of a loop computes what the loop means.
pub proof fn lemma_loop_simulates(
    thunk: Thunk,
    cond_thunk: Thunk,
    body_thunk: Thunk,
    node: Node,
    cond: Node,
    body: Node,
    middle: Scope,
    scope: Scope,
)
    requires
        node == (Node::While { cond: Box::new(cond), body: Box::new(body) }),
        simulates(&cond_thunk, &cond, middle),
        simulates(&body_thunk, &body, scope),
        scope.extends(middle),
        forall|st: State| #[trigger]
            thunk.eval(st) == eval_loop(&cond_thunk, &body_thunk, st, st.fuel + 1),
    ensures
        simulates(&thunk, &node, scope),
{
    lemma_simulates_later(cond_thunk, cond, middle, scope);
    assert forall|later: Scope, st: State, mem: Memory|
        later.wf() && #[trigger] later.extends(scope) && #[trigger] represents(
            later.slots,
            st,
            mem,
        ) implies agree(later.slots, st.frame.len(), thunk.eval(st), node.eval(mem)) by {
        lemma_loop_agrees(cond_thunk, body_thunk, node, cond, body, scope, later, st, mem, st.fuel + 1);
    }
    reveal(simulates);
}

/// A block's closures and its nodes agree from any place on.
pub proof fn lemma_sequence_agrees(
    items: Seq<Thunk>,
    nodes: Seq<Node>,
    scope: Scope,
    later: Scope,
    from: int,
    st: State,
    mem: Memory,
    last: Value,
)
    requires
        items.len() == nodes.len(),
        forall|i: int| 0 <= i < items.len() ==> simulates(&#[trigger] items[i], &nodes[i], scope),
        later.wf(),
        later.extends(scope),
        represents(later.slots, st, mem),
        0 <= from,
    ensures
        agree(
            later.slots,
            st.frame.len(),
            eval_from(items, from, st, last),
            eval_nodes(nodes, from, mem, last),
        ),
    decreases items.len() - from,
{
    if from < items.len() {
        lemma_simulates_on(items[from], nodes[from], scope, later, st, mem);
        match items[from].eval(st) {
            Ok((value, s1)) => {
                let m1 = nodes[from].eval(mem)->Ok_0.1;
                lemma_sequence_agrees(items, nodes, scope, later, from + 1, s1, m1, value);
            },
            Err(_) => {},
        }
    }
}

/// The closure of a block computes what the block means.
pub proof fn lemma_sequence_simulates(thunk: Thunk, items: Seq<Thunk>, node: Node, scope: Scope)
    requires
        node is Block,
        items.len() == node->Block_0@.len(),
        forall|i: int|
            0 <= i < items.len() ==> simulates(&#[trigger] items[i], &node->Block_0@[i], scope),
        forall|st: State| #[trigger] thunk.eval(st) == eval_from(items, 0, st, Value::Unit),
    ensures
        simulates(&thunk, &node, scope),
{
    let nodes = node->Block_0@;
    assert forall|later: Scope, st: State, mem: Memory|
        later.wf() && #[trigger] later.extends(scope) && #[trigger] represents(
            later.slots,
            st,
            mem,
        ) implies agree(later.slots, st.frame.len(), thunk.eval(st), node.eval(mem)) by {
        lemma_sequence_agrees(items, nodes, scope, later, 0, st, mem, Value::Unit);
    }
    reveal(simulates);
}

/// The frame in which a run starts holds the memory in which the program
/// starts: the input in slot 0, the unit value in every other slot.
pub proof fn lemma_start_represents(scope: Scope, ty: crate::value::Type, input: Value, fuel: nat)
    requires
        scope.wf(),
        scope.extends(Scope::initial(ty)),
    ensures
        represents(
            scope.slots,
            State::blank(scope.layout.len(), fuel).store(0, input),
            Memory::initial(input, fuel),
        ),
{
    reveal(Scope::wf);
    reveal(Scope::extends);
    let st = State::blank(scope.layout.len(), fuel).store(0, input);
    let mem = Memory::initial(input, fuel);
    let first = Scope::initial(ty);
    assert(first.slots.contains_key(crate::scope::INPUT@));
    assert(first.layout.len() == 1);
    assert forall|name: Seq<char>| #[trigger] scope.slots.contains_key(name) implies scope.slots[name]
        < st.frame.len() && st.frame[scope.slots[name] as int] == mem.read(name) by {
        if name != crate::scope::INPUT@ {
            assert(scope.slots[name] != scope.slots[crate::scope::INPUT@]);
        }
    }
}

} // verus!

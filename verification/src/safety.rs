//! Type safety: a program that gives every variable a value before it reads
//! it never meets a value of the wrong type.

use vstd::prelude::*;
use crate::value::Type;
use crate::value::Value;
use crate::value::IntoValue;
use crate::value::FromValue;
use crate::error::RunError;
use crate::syntax::Node;
use crate::syntax::Program;
use crate::scope::Scope;
use crate::scope::INPUT;
use crate::scope::lemma_declare;
use crate::scope::lemma_extends_keeps;
use crate::scope::lemma_initial_wf;
use crate::typing::check_from;
use crate::typing::lemma_check_extends;
use crate::semantics::Memory;
use crate::semantics::eval_while;
use crate::semantics::eval_nodes;
use crate::runtime::State;
use crate::closure::Thunk;
use crate::simulation::simulates;
use crate::simulation::represents;
use crate::simulation::lemma_simulates_on;
use crate::scope::lemma_extends_reflexive;

verus! {

/// Whether every variable of `assigned` is declared in the scope and holds a
/// value of its declared type.
#[verifier::opaque]
pub open spec fn typed(scope: Scope, mem: Memory, assigned: Set<Seq<char>>) -> bool {
    forall|name: Seq<char>| #[trigger]
        assigned.contains(name) ==> scope.declares(name) && mem.read(name).tag() == scope.type_of(
            name,
        )
}

impl Node {
    /// The variables that hold a value for certain once this node has run,
    /// when those of `assigned` did before; `None` where the node may read
    /// a variable that holds none yet.
    ///
    /// A loop's body may not run at all, so what it assigns counts inside
    /// the body only.
    pub open spec fn assigns(&self, assigned: Set<Seq<char>>) -> Option<Set<Seq<char>>>
        decreases self, 0nat,
    {
        match self {
            Node::Const(_) => Some(assigned),
            Node::Var(name) => if assigned.contains(name@) {
                Some(assigned)
            } else {
                None
            },
            Node::Let { name, value } => match value.assigns(assigned) {
                None => None,
                Some(inner) => Some(inner.insert(name@)),
            },
            Node::Assign { name, value } => match value.assigns(assigned) {
                None => None,
                Some(inner) => Some(inner.insert(name@)),
            },
            Node::Gt { lhs, rhs } => match lhs.assigns(assigned) {
                None => None,
                Some(middle) => rhs.assigns(middle),
            },
            Node::Add { lhs, rhs } => match lhs.assigns(assigned) {
                None => None,
                Some(middle) => rhs.assigns(middle),
            },
            Node::Sub { lhs, rhs } => match lhs.assigns(assigned) {
                None => None,
                Some(middle) => rhs.assigns(middle),
            },
            Node::While { cond, body } => match cond.assigns(assigned) {
                None => None,
                Some(middle) => match body.assigns(middle) {
                    None => None,
                    Some(_) => Some(middle),
                },
            },
            Node::Block(nodes) => assigns_from(nodes@, 0, assigned),
        }
    }
}

/// The variables that hold a value for certain once the nodes of a block
/// have run, from the `from`-th on.
pub open spec fn assigns_from(nodes: Seq<Node>, from: int, assigned: Set<Seq<char>>) -> Option<
    Set<Seq<char>>,
>
    decreases nodes, nodes.len() - from,
{
    if from < 0 || from >= nodes.len() {
        Some(assigned)
    } else {
        match nodes[from].assigns(assigned) {
            None => None,
            Some(middle) => assigns_from(nodes, from + 1, middle),
        }
    }
}

/// Whether running a node kept the types: it gave a value of type `ty` and
/// left every variable of `assigned` with a value of its declared type, or
/// it ended in a fault that is no fault of types.
pub open spec fn kept_types(
    effect: Result<(Value, Memory), RunError>,
    ty: Type,
    scope: Scope,
    assigned: Set<Seq<char>>,
) -> bool {
    match effect {
        Ok((value, mem)) => value.tag() == ty && typed(scope, mem, assigned),
        Err(e) => !(e is Expected),
    }
}

/// Variables that are typed in a scope are typed in every scope that
/// extends it.
proof fn lemma_typed_later(scope: Scope, later: Scope, mem: Memory, assigned: Set<Seq<char>>)
    requires
        scope.wf(),
        later.extends(scope),
        typed(scope, mem, assigned),
    ensures
        typed(later, mem, assigned),
{
    reveal(typed);
    assert forall|name: Seq<char>| #[trigger] assigned.contains(name) implies later.declares(name)
        && mem.read(name).tag() == later.type_of(name) by {
        lemma_extends_keeps(later, scope, name);
    }
}

/// Variables of a scope that are typed in a scope that extends it are typed
/// in the scope itself.
proof fn lemma_typed_earlier(
    scope: Scope,
    later: Scope,
    mem: Memory,
    other: Memory,
    assigned: Set<Seq<char>>,
    more: Set<Seq<char>>,
)
    requires
        scope.wf(),
        later.extends(scope),
        typed(scope, other, assigned),
        typed(later, mem, more),
        assigned.subset_of(more),
    ensures
        typed(scope, mem, assigned),
{
    reveal(typed);
    assert forall|name: Seq<char>| #[trigger] assigned.contains(name) implies scope.declares(name)
        && mem.read(name).tag() == scope.type_of(name) by {
        lemma_extends_keeps(later, scope, name);
    }
}

/// A variable that holds a value holds one of its declared type.
proof fn lemma_typed_read(scope: Scope, mem: Memory, assigned: Set<Seq<char>>, name: Seq<char>)
    requires
        typed(scope, mem, assigned),
        assigned.contains(name),
    ensures
        scope.declares(name),
        mem.read(name).tag() == scope.type_of(name),
{
    reveal(typed);
}

/// Spending fuel changes no variable.
proof fn lemma_typed_tick(scope: Scope, mem: Memory, assigned: Set<Seq<char>>)
    requires
        typed(scope, mem, assigned),
    ensures
        typed(scope, mem.tick(), assigned),
{
    reveal(typed);
}

/// Giving a declared variable a value of its type keeps the memory typed.
proof fn lemma_typed_write(scope: Scope, mem: Memory, assigned: Set<Seq<char>>, name: Seq<char>, value: Value)
    requires
        typed(scope, mem, assigned),
        scope.declares(name),
        value.tag() == scope.type_of(name),
    ensures
        typed(scope, mem.write(name, value), assigned.insert(name)),
{
    reveal(typed);
    let after = mem.write(name, value);
    assert forall|other: Seq<char>| #[trigger] assigned.insert(name).contains(other) implies scope.declares(
        other,
    ) && after.read(other).tag() == scope.type_of(other) by {
        if other != name {
            assert(assigned.contains(other));
        }
    }
}

/// Whether a node can be held to its types in a memory: it checks in the
/// scope, reads no variable before it has a value, and the variables that
/// hold a value hold one of their type.
pub open spec fn ready(node: &Node, scope: Scope, assigned: Set<Seq<char>>, mem: Memory) -> bool {
    &&& scope.wf()
    &&& node.check(scope) is Ok
    &&& node.assigns(assigned) is Some
    &&& typed(scope, mem, assigned)
}

/// Whether a node keeps the types in a memory: it only adds to the
/// variables that hold a value, and its run gives a value of its type and
/// leaves those variables typed, or ends in a fault that is none of types.
pub open spec fn keeps_types(node: &Node, scope: Scope, assigned: Set<Seq<char>>, mem: Memory) -> bool {
    &&& assigned.subset_of(node.assigns(assigned)->Some_0)
    &&& kept_types(
        node.eval(mem),
        node.check(scope)->Ok_0.0,
        node.check(scope)->Ok_0.1,
        node.assigns(assigned)->Some_0,
    )
}

/// A declaration or an assignment keeps the types where its value does.
proof fn lemma_store_keeps_types(
    node: &Node,
    name: &'static str,
    value: &Node,
    scope: Scope,
    assigned: Set<Seq<char>>,
    mem: Memory,
)
    requires
        *node == (Node::Let { name, value: Box::new(*value) }) || *node == (Node::Assign {
            name,
            value: Box::new(*value),
        }),
        ready(node, scope, assigned, mem),
        keeps_types(value, scope, assigned, mem),
    ensures
        keeps_types(node, scope, assigned, mem),
{
    lemma_check_extends(value, scope);
    let ty = value.check(scope)->Ok_0.0;
    let inner = value.check(scope)->Ok_0.1;
    let some = value.assigns(assigned)->Some_0;
    match value.eval(mem) {
        Ok((v, m1)) => {
            if node is Let {
                let after = inner.declare(name@, ty);
                lemma_declare(inner, name@, ty);
                lemma_typed_later(inner, after, m1, some);
                assert(after.type_of(name@) == ty);
                lemma_typed_write(after, m1, some, name@, v);
            } else {
                lemma_extends_keeps(inner, scope, name@);
                lemma_typed_write(inner, m1, some, name@, v);
            }
        },
        Err(_) => {},
    }
}

/// A binary operator keeps the types where its operands do, one after the
/// other.
proof fn lemma_binary_keeps_types(
    node: &Node,
    lhs: &Node,
    rhs: &Node,
    scope: Scope,
    assigned: Set<Seq<char>>,
    mem: Memory,
)
    requires
        *node == (Node::Gt { lhs: Box::new(*lhs), rhs: Box::new(*rhs) }) || *node == (Node::Add {
            lhs: Box::new(*lhs),
            rhs: Box::new(*rhs),
        }) || *node == (Node::Sub { lhs: Box::new(*lhs), rhs: Box::new(*rhs) }),
        ready(node, scope, assigned, mem),
        keeps_types(lhs, scope, assigned, mem),
        lhs.eval(mem) matches Ok((_, m1)) ==> keeps_types(
            rhs,
            lhs.check(scope)->Ok_0.1,
            lhs.assigns(assigned)->Some_0,
            m1,
        ),
    ensures
        keeps_types(node, scope, assigned, mem),
{
    lemma_assigns_more(rhs, lhs.assigns(assigned)->Some_0);
}

/// A checked node that reads no variable before it has a value keeps the
/// types.
pub proof fn lemma_node_keeps_types(node: &Node, scope: Scope, assigned: Set<Seq<char>>, mem: Memory)
    requires
        ready(node, scope, assigned, mem),
    ensures
        keeps_types(node, scope, assigned, mem),
    decreases node, 1nat, 0nat,
{
    match node {
        Node::Const(_) => {},
        Node::Var(name) => {
            lemma_typed_read(scope, mem, assigned, name@);
        },
        Node::Let { name, value } => {
            lemma_node_keeps_types(value, scope, assigned, mem);
            lemma_store_keeps_types(node, name, value, scope, assigned, mem);
        },
        Node::Assign { name, value } => {
            lemma_node_keeps_types(value, scope, assigned, mem);
            lemma_store_keeps_types(node, name, value, scope, assigned, mem);
        },
        Node::Gt { lhs, rhs } => {
            lemma_check_extends(lhs, scope);
            lemma_node_keeps_types(lhs, scope, assigned, mem);
            match lhs.eval(mem) {
                Ok((_, m1)) => {
                    lemma_node_keeps_types(rhs, lhs.check(scope)->Ok_0.1, lhs.assigns(assigned)->Some_0, m1);
                },
                Err(_) => {},
            }
            lemma_binary_keeps_types(node, lhs, rhs, scope, assigned, mem);
        },
        Node::Add { lhs, rhs } => {
            lemma_check_extends(lhs, scope);
            lemma_node_keeps_types(lhs, scope, assigned, mem);
            match lhs.eval(mem) {
                Ok((_, m1)) => {
                    lemma_node_keeps_types(rhs, lhs.check(scope)->Ok_0.1, lhs.assigns(assigned)->Some_0, m1);
                },
                Err(_) => {},
            }
            lemma_binary_keeps_types(node, lhs, rhs, scope, assigned, mem);
        },
        Node::Sub { lhs, rhs } => {
            lemma_check_extends(lhs, scope);
            lemma_node_keeps_types(lhs, scope, assigned, mem);
            match lhs.eval(mem) {
                Ok((_, m1)) => {
                    lemma_node_keeps_types(rhs, lhs.check(scope)->Ok_0.1, lhs.assigns(assigned)->Some_0, m1);
                },
                Err(_) => {},
            }
            lemma_binary_keeps_types(node, lhs, rhs, scope, assigned, mem);
        },
        Node::While { cond, body } => {
            lemma_assigns_more(cond, assigned);
            lemma_loop_keeps_types(node, scope, assigned, mem, mem.fuel + 1);
        },
        Node::Block(nodes) => {
            lemma_nodes_keep_types(nodes@, 0, scope, assigned, mem, Type::Unit, Value::Unit);
        },
    }
}

/// A checked loop that reads no variable before it has a value keeps the
/// types, however many rounds it is given; what it leaves typed are the
/// variables that its condition leaves with a value.
proof fn lemma_loop_keeps_types(node: &Node, scope: Scope, assigned: Set<Seq<char>>, mem: Memory, rounds: nat)
    requires
        scope.wf(),
        node is While,
        node.check(scope) is Ok,
        node.assigns(assigned) is Some,
        typed(scope, mem, assigned),
    ensures
        kept_types(
            eval_while(node, mem, rounds),
            Type::Unit,
            node.check(scope)->Ok_0.1,
            node.assigns(assigned)->Some_0,
        ),
    decreases node, 0nat, rounds,
{
    match node {
        Node::While { cond, body } => {
            if rounds > 0 {
                let middle = cond.check(scope)->Ok_0.1;
                let after = body.check(middle)->Ok_0.1;
                let some = cond.assigns(assigned)->Some_0;
                let more = body.assigns(some)->Some_0;
                lemma_check_extends(cond, scope);
                lemma_check_extends(body, middle);
                lemma_node_keeps_types(cond, scope, assigned, mem);
                match cond.eval(mem) {
                    Ok((c, m1)) => {
                        lemma_typed_later(middle, after, m1, some);
                        if c == Value::Bool(true) && m1.fuel > 0 {
                            lemma_typed_tick(middle, m1, some);
                            lemma_node_keeps_types(body, middle, some, m1.tick());
                            match body.eval(m1.tick()) {
                                Ok((_, m2)) => {
                                    crate::scope::lemma_extends_transitive(scope, middle, after);
                                    lemma_typed_earlier(scope, after, m2, mem, assigned, more);
                                    lemma_loop_keeps_types(node, scope, assigned, m2, (rounds - 1) as nat);
                                },
                                Err(_) => {},
                            }
                        }
                    },
                    Err(_) => {},
                }
            }
        },
        _ => {},
    }
}

/// The checked nodes of a block that read no variable before it has a value
/// keep the types, from any place on.
proof fn lemma_nodes_keep_types(
    nodes: Seq<Node>,
    from: int,
    scope: Scope,
    assigned: Set<Seq<char>>,
    mem: Memory,
    last_ty: Type,
    last: Value,
)
    requires
        scope.wf(),
        check_from(nodes, from, scope, last_ty) is Ok,
        assigns_from(nodes, from, assigned) is Some,
        typed(scope, mem, assigned),
        last.tag() == last_ty,
    ensures
        assigned.subset_of(assigns_from(nodes, from, assigned)->Some_0),
        kept_types(
            eval_nodes(nodes, from, mem, last),
            check_from(nodes, from, scope, last_ty)->Ok_0.0,
            check_from(nodes, from, scope, last_ty)->Ok_0.1,
            assigns_from(nodes, from, assigned)->Some_0,
        ),
    decreases nodes, 0nat, nodes.len() - from,
{
    if 0 <= from < nodes.len() {
        let ty = nodes[from].check(scope)->Ok_0.0;
        let middle = nodes[from].check(scope)->Ok_0.1;
        let some = nodes[from].assigns(assigned)->Some_0;
        lemma_check_extends(&nodes[from], scope);
        lemma_node_keeps_types(&nodes[from], scope, assigned, mem);
        match nodes[from].eval(mem) {
            Ok((value, m1)) => {
                lemma_nodes_keep_types(nodes, from + 1, middle, some, m1, ty, value);
            },
            Err(_) => {
                lemma_nodes_assign_more(nodes, from + 1, some);
            },
        }
    }
}

/// The nodes of a block only add to the variables that hold a value.
proof fn lemma_nodes_assign_more(nodes: Seq<Node>, from: int, assigned: Set<Seq<char>>)
    requires
        assigns_from(nodes, from, assigned) is Some,
    ensures
        assigned.subset_of(assigns_from(nodes, from, assigned)->Some_0),
    decreases nodes, nodes.len() - from,
{
    if 0 <= from < nodes.len() {
        lemma_assigns_more(&nodes[from], assigned);
        lemma_nodes_assign_more(nodes, from + 1, nodes[from].assigns(assigned)->Some_0);
    }
}

/// A node only adds to the variables that hold a value.
proof fn lemma_assigns_more(node: &Node, assigned: Set<Seq<char>>)
    requires
        node.assigns(assigned) is Some,
    ensures
        assigned.subset_of(node.assigns(assigned)->Some_0),
    decreases node, 0nat,
{
    match node {
        Node::Const(_) => {},
        Node::Var(_) => {},
        Node::Let { name, value } => {
            lemma_assigns_more(value, assigned);
        },
        Node::Assign { name, value } => {
            lemma_assigns_more(value, assigned);
        },
        Node::Gt { lhs, rhs } => {
            lemma_assigns_more(lhs, assigned);
            lemma_assigns_more(rhs, lhs.assigns(assigned)->Some_0);
        },
        Node::Add { lhs, rhs } => {
            lemma_assigns_more(lhs, assigned);
            lemma_assigns_more(rhs, lhs.assigns(assigned)->Some_0);
        },
        Node::Sub { lhs, rhs } => {
            lemma_assigns_more(lhs, assigned);
            lemma_assigns_more(rhs, lhs.assigns(assigned)->Some_0);
        },
        Node::While { cond, body } => {
            lemma_assigns_more(cond, assigned);
        },
        Node::Block(nodes) => {
            lemma_nodes_assign_more(nodes@, 0, assigned);
        },
    }
}

/// Type safety on the frame. A closure that computes what a checked node
/// means, run on a frame that holds a typed memory, gives a value of the
/// node's type and leaves in the slot of every variable that holds a value
/// a value of the slot's declared type, or ends in a fault that is none of
/// types.
pub proof fn lemma_closure_keeps_types(
    thunk: Thunk,
    node: Node,
    scope: Scope,
    assigned: Set<Seq<char>>,
    st: State,
    mem: Memory,
)
    requires
        ready(&node, scope, assigned, mem),
        simulates(&thunk, &node, node.check(scope)->Ok_0.1),
        represents(node.check(scope)->Ok_0.1.slots, st, mem),
    ensures
        match thunk.eval(st) {
            Ok((value, after)) => {
                let left = node.check(scope)->Ok_0.1;
                &&& value.tag() == node.check(scope)->Ok_0.0
                &&& forall|name: Seq<char>| #[trigger]
                    node.assigns(assigned)->Some_0.contains(name) ==> left.declares(name)
                        && left.slots[name] < after.frame.len() && after.frame[left.slots[name] as int].tag()
                        == left.layout[left.slots[name] as int]
            },
            Err(e) => !(e is Expected),
        },
{
    let left = node.check(scope)->Ok_0.1;
    lemma_check_extends(&node, scope);
    lemma_extends_reflexive(left);
    lemma_simulates_on(thunk, node, left, left, st, mem);
    lemma_node_keeps_types(&node, scope, assigned, mem);
    reveal(typed);
}

impl Program {
    /// Whether the body reads no variable before it has a value: the input
    /// has one from the start, every other variable from the `Let` that
    /// declares it, once that has run.
    pub open spec fn reads_assigned(&self) -> bool {
        self.body.assigns(set![INPUT@]) is Some
    }
}

/// Type safety. A program that was compiled, and that reads no variable
/// before it has a value, never ends in a fault of types: every value that
/// it reads from a variable or gives to one has the variable's declared
/// type, every operand is an integer, every loop condition a boolean, and
/// the result is of the host's output type.
pub proof fn lemma_type_safety<Input: IntoValue, Output: FromValue>(prog: Program, input: Input, fuel: nat)
    requires
        prog.check(Input::spec_ty(), Output::spec_ty()) is Ok,
        prog.reads_assigned(),
    ensures
        match prog.body.eval(Memory::initial(input.spec_into_value(), fuel)) {
            Ok((value, mem)) => value.tag() == prog.output && typed(
                prog.check(Input::spec_ty(), Output::spec_ty())->Ok_0,
                mem,
                prog.body.assigns(set![INPUT@])->Some_0,
            ),
            Err(e) => !(e is Expected),
        },
        !(prog.answer::<Input, Output>(input, fuel) matches Err(e) && e is Expected),
{
    let scope = Scope::initial(prog.input);
    let mem = Memory::initial(input.spec_into_value(), fuel);
    lemma_initial_wf(prog.input);
    input.lemma_into_value_tag();
    assert(typed(scope, mem, set![INPUT@])) by {
        reveal(typed);
    }
    lemma_node_keeps_types(&prog.body, scope, set![INPUT@], mem);
}

} // verus!

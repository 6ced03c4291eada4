//! The lowering pass: from a node to its type and its closure.

use vstd::prelude::*;
use crate::value::Type;
use crate::value::Value;
use crate::error::CompileError;
use crate::error::Operator;
use crate::syntax::Node;
use crate::scope::Scope;
use crate::scope::CompilationContext;
use crate::scope::lemma_extends_reflexive;
use crate::scope::lemma_extends_transitive;
use crate::scope::lemma_extends_longer;
use crate::scope::lemma_extends_keeps;
use crate::typing::check_from;
use crate::closure::Thunk;
use crate::closure::Literal;
use crate::closure::Load;
use crate::closure::Store;
use crate::closure::Greater;
use crate::closure::Sum;
use crate::closure::Difference;
use crate::closure::Loop;
use crate::closure::Sequence;
use crate::closure::span_of;
use crate::simulation::simulates;
use crate::simulation::lemma_simulates_later;
use crate::simulation::lemma_literal_simulates;
use crate::simulation::lemma_load_simulates;
use crate::simulation::lemma_store_simulates;
use crate::simulation::lemma_binary_simulates;
use crate::simulation::lemma_loop_simulates;
use crate::simulation::lemma_sequence_simulates;

verus! {

/// What lowering a node gives.
pub type Lowered = Result<(Type, Thunk), CompileError>;

/// Whether `r` is what lowering `node` in the scope `before` owes, where
/// `after` is the scope that the lowering left.
///
/// A node that checks is lowered to its type and to a closure that runs on
/// any frame with a slot for each variable of the scope it leaves, and that
/// computes what the node means. A node that does not check is refused with
/// the fault of the check.
pub open spec fn lowered(r: Lowered, node: &Node, before: Scope, after: Scope) -> bool {
    match node.check(before) {
        Ok((ty, scope)) => r matches Ok((t, thunk)) && t == ty && after == scope && thunk.span()
            <= scope.layout.len() && simulates(&thunk, node, scope),
        Err(e) => r == Err::<(Type, Thunk), CompileError>(e),
    }
}

/// The binary node of an operator.
pub open spec fn binary(op: Operator, lhs: Node, rhs: Node) -> Node {
    match op {
        Operator::Gt => Node::Gt { lhs: Box::new(lhs), rhs: Box::new(rhs) },
        Operator::Add => Node::Add { lhs: Box::new(lhs), rhs: Box::new(rhs) },
        Operator::Sub => Node::Sub { lhs: Box::new(lhs), rhs: Box::new(rhs) },
    }
}

/// Lowers a literal.
fn lower_const(ctxt: &CompilationContext, value: Value) -> (r: Lowered)
    ensures
        lowered(r, &Node::Const(value), ctxt@, ctxt@),
{
    let thunk = Thunk { code: Box::new(Literal { value }) };
    proof {
        lemma_literal_simulates(thunk, value, ctxt@);
    }
    Ok((value.ty(), thunk))
}

/// Lowers a variable reference.
fn lower_var(ctxt: &CompilationContext, name: &'static str) -> (r: Lowered)
    requires
        ctxt@.wf(),
    ensures
        lowered(r, &Node::Var(name), ctxt@, ctxt@),
{
    match ctxt.lookup(name) {
        None => Err(CompileError::UnresolvedName(name)),
        Some((slot, ty)) => {
            let thunk = Thunk { code: Box::new(Load { slot }) };
            proof {
                lemma_load_simulates(thunk, slot, name, ctxt@);
            }
            Ok((ty, thunk))
        },
    }
}

/// Ends the lowering of a declaration, whose value was lowered to `value`:
/// declares the variable and builds the closure that stores the value.
fn finish_let(
    ctxt: &mut CompilationContext,
    name: &'static str,
    value: Lowered,
    Ghost(source): Ghost<Node>,
    Ghost(before): Ghost<Scope>,
) -> (r: Lowered)
    requires
        before.wf(),
        old(ctxt)@.wf(),
        old(ctxt)@.extends(before),
        lowered(value, &source, before, old(ctxt)@),
    ensures
        final(ctxt)@.wf(),
        final(ctxt)@.extends(before),
        lowered(r, &(Node::Let { name, value: Box::new(source) }), before, final(ctxt)@),
{
    let ghost middle = ctxt@;
    let ghost node = Node::Let { name, value: Box::new(source) };
    match value {
        Err(e) => Err(e),
        Ok((ty, value)) => {
            let ghost inner = value;
            match ctxt.lookup(name) {
                Some(_) => Err(CompileError::DuplicateDeclaration(name)),
                None => {
                    let slot = ctxt.declare(name, ty);
                    let thunk = Thunk { code: Box::new(Store { slot, value }) };
                    proof {
                        lemma_extends_transitive(before, middle, ctxt@);
                        lemma_extends_longer(ctxt@, middle);
                        lemma_store_simulates(thunk, inner, slot, node, name, source, middle, ctxt@);
                    }
                    Ok((Type::Unit, thunk))
                },
            }
        },
    }
}

/// Ends the lowering of an assignment to the variable in `slot`, whose
/// value was lowered to `value`: holds the value to the variable's type and
/// builds the closure that stores it.
fn finish_assign(
    name: &'static str,
    slot: usize,
    expected: Type,
    value: Lowered,
    Ghost(source): Ghost<Node>,
    Ghost(before): Ghost<Scope>,
    Ghost(after): Ghost<Scope>,
) -> (r: Lowered)
    requires
        before.wf(),
        after.wf(),
        after.extends(before),
        before.declares(name@),
        before.slots[name@] == slot,
        before.type_of(name@) == expected,
        lowered(value, &source, before, after),
    ensures
        lowered(r, &(Node::Assign { name, value: Box::new(source) }), before, after),
{
    let ghost node = Node::Assign { name, value: Box::new(source) };
    match value {
        Err(e) => Err(e),
        Ok((ty, value)) => {
            if ty != expected {
                Err(CompileError::TypeMismatch { expected, found: ty })
            } else {
                let ghost inner = value;
                let thunk = Thunk { code: Box::new(Store { slot, value }) };
                proof {
                    lemma_extends_keeps(after, before, name@);
                    lemma_extends_reflexive(after);
                    lemma_store_simulates(thunk, inner, slot, node, name, source, after, after);
                }
                Ok((Type::Unit, thunk))
            }
        },
    }
}

/// Ends the lowering of a binary operator, whose left operand was lowered
/// to `lhs` and whose right operand was lowered to `rhs`: holds the
/// operands to the types that the operator takes and builds its closure.
fn finish_binary(
    op: Operator,
    lhs_ty: Type,
    lhs: Thunk,
    rhs: Lowered,
    Ghost(left): Ghost<Node>,
    Ghost(right): Ghost<Node>,
    Ghost(before): Ghost<Scope>,
    Ghost(middle): Ghost<Scope>,
    Ghost(after): Ghost<Scope>,
) -> (r: Lowered)
    requires
        left.check(before) is Ok,
        lowered(Ok((lhs_ty, lhs)), &left, before, middle),
        lowered(rhs, &right, middle, after),
        after.extends(middle),
    ensures
        lowered(r, &binary(op, left, right), before, after),
{
    let ghost node = binary(op, left, right);
    match rhs {
        Err(e) => Err(e),
        Ok((rhs_ty, rhs)) => {
            proof {
                lemma_extends_longer(after, middle);
            }
            match (lhs_ty, rhs_ty) {
                (Type::Int, Type::Int) => {
                    let ghost l = lhs;
                    let ghost r = rhs;
                    let (ty, thunk) = match op {
                        Operator::Gt => (Type::Bool, Thunk { code: Box::new(Greater { lhs, rhs }) }),
                        Operator::Add => (Type::Int, Thunk { code: Box::new(Sum { lhs, rhs }) }),
                        Operator::Sub => (Type::Int, Thunk { code: Box::new(Difference { lhs, rhs }) }),
                    };
                    proof {
                        lemma_binary_simulates(thunk, op, l, r, node, left, right, middle, after);
                    }
                    Ok((ty, thunk))
                },
                _ => Err(CompileError::UnsupportedOperation { op, lhs: lhs_ty, rhs: rhs_ty }),
            }
        },
    }
}

/// Ends the lowering of a loop, whose condition was lowered to `cond` and
/// has type boolean, and whose body was lowered to `body`: builds the
/// loop's closure.
fn finish_while(
    cond: Thunk,
    body: Lowered,
    Ghost(cond_node): Ghost<Node>,
    Ghost(body_node): Ghost<Node>,
    Ghost(before): Ghost<Scope>,
    Ghost(middle): Ghost<Scope>,
    Ghost(after): Ghost<Scope>,
) -> (r: Lowered)
    requires
        cond_node.check(before) is Ok,
        lowered(Ok((Type::Bool, cond)), &cond_node, before, middle),
        lowered(body, &body_node, middle, after),
        after.extends(middle),
    ensures
        lowered(
            r,
            &(Node::While { cond: Box::new(cond_node), body: Box::new(body_node) }),
            before,
            after,
        ),
{
    let ghost node = Node::While { cond: Box::new(cond_node), body: Box::new(body_node) };
    match body {
        Err(e) => Err(e),
        Ok((_, body)) => {
            let ghost cond_thunk = cond;
            let ghost body_thunk = body;
            let thunk = Thunk { code: Box::new(Loop { cond, body }) };
            proof {
                lemma_extends_longer(after, middle);
                lemma_loop_simulates(
                    thunk,
                    cond_thunk,
                    body_thunk,
                    node,
                    cond_node,
                    body_node,
                    middle,
                    after,
                );
            }
            Ok((Type::Unit, thunk))
        },
    }
}

/// Lowers a node: checks it in the context, gives each variable that it
/// declares a slot, and builds the closure that runs it.
///
/// The context only grows: every variable keeps its slot. Lowering stops at
/// the first fault, and then gives no closure.
pub fn compile_node(ctxt: &mut CompilationContext, node: Node) -> (r: Lowered)
    requires
        old(ctxt)@.wf(),
    ensures
        final(ctxt)@.wf(),
        final(ctxt)@.extends(old(ctxt)@),
        lowered(r, &node, old(ctxt)@, final(ctxt)@),
    decreases node,
{
    let ghost before = ctxt@;
    proof {
        lemma_extends_reflexive(before);
    }
    match node {
        Node::Let { name, value } => {
            let ghost source = *value;
            let value = compile_node(ctxt, *value);
            finish_let(ctxt, name, value, Ghost(source), Ghost(before))
        },
        Node::Assign { name, value } => {
            match ctxt.lookup(name) {
                None => Err(CompileError::UnresolvedName(name)),
                Some((slot, expected)) => {
                    let ghost source = *value;
                    let value = compile_node(ctxt, *value);
                    finish_assign(name, slot, expected, value, Ghost(source), Ghost(before), Ghost(ctxt@))
                },
            }
        },
        Node::Const(value) => lower_const(ctxt, value),
        Node::Var(name) => lower_var(ctxt, name),
        Node::Gt { lhs, rhs } => {
            let ghost left = *lhs;
            let ghost right = *rhs;
            match compile_node(ctxt, *lhs) {
                Err(e) => Err(e),
                Ok((lhs_ty, lhs)) => {
                    let ghost middle = ctxt@;
                    let rhs = compile_node(ctxt, *rhs);
                    proof {
                        lemma_extends_transitive(before, middle, ctxt@);
                    }
                    finish_binary(
                        Operator::Gt,
                        lhs_ty,
                        lhs,
                        rhs,
                        Ghost(left),
                        Ghost(right),
                        Ghost(before),
                        Ghost(middle),
                        Ghost(ctxt@),
                    )
                },
            }
        },
        Node::Add { lhs, rhs } => {
            let ghost left = *lhs;
            let ghost right = *rhs;
            match compile_node(ctxt, *lhs) {
                Err(e) => Err(e),
                Ok((lhs_ty, lhs)) => {
                    let ghost middle = ctxt@;
                    let rhs = compile_node(ctxt, *rhs);
                    proof {
                        lemma_extends_transitive(before, middle, ctxt@);
                    }
                    finish_binary(
                        Operator::Add,
                        lhs_ty,
                        lhs,
                        rhs,
                        Ghost(left),
                        Ghost(right),
                        Ghost(before),
                        Ghost(middle),
                        Ghost(ctxt@),
                    )
                },
            }
        },
        Node::Sub { lhs, rhs } => {
            let ghost left = *lhs;
            let ghost right = *rhs;
            match compile_node(ctxt, *lhs) {
                Err(e) => Err(e),
                Ok((lhs_ty, lhs)) => {
                    let ghost middle = ctxt@;
                    let rhs = compile_node(ctxt, *rhs);
                    proof {
                        lemma_extends_transitive(before, middle, ctxt@);
                    }
                    finish_binary(
                        Operator::Sub,
                        lhs_ty,
                        lhs,
                        rhs,
                        Ghost(left),
                        Ghost(right),
                        Ghost(before),
                        Ghost(middle),
                        Ghost(ctxt@),
                    )
                },
            }
        },
        Node::While { cond, body } => {
            let ghost cond_node = *cond;
            let ghost body_node = *body;
            match compile_node(ctxt, *cond) {
                Err(e) => Err(e),
                Ok((cond_ty, cond)) => {
                    if cond_ty != Type::Bool {
                        Err(CompileError::TypeMismatch { expected: Type::Bool, found: cond_ty })
                    } else {
                        let ghost middle = ctxt@;
                        let body = compile_node(ctxt, *body);
                        proof {
                            lemma_extends_transitive(before, middle, ctxt@);
                        }
                        finish_while(
                            cond,
                            body,
                            Ghost(cond_node),
                            Ghost(body_node),
                            Ghost(before),
                            Ghost(middle),
                            Ghost(ctxt@),
                        )
                    }
                },
            }
        },
        Node::Block(nodes) => {
            if nodes.len() == 0 {
                return Err(CompileError::EmptyBlock);
            }
            let ghost whole = nodes;
            let ghost all = nodes@;
            let mut ty = Type::Unit;
            let mut items: Vec<Thunk> = Vec::new();
            for child in it: nodes.into_iter()
                invariant
                    before == old(ctxt)@,
                    node == Node::Block(whole),
                    all == whole@,
                    it.seq() == all,
                    ctxt@.wf(),
                    ctxt@.extends(before),
                    node.check(before) == check_from(all, it.index() as int, ctxt@, ty),
                    span_of(items@) <= ctxt@.layout.len(),
                    items@.len() == it.index(),
                    forall|j: int|
                        0 <= j < items@.len() ==> simulates(&#[trigger] items@[j], &all[j], ctxt@),
            {
                let ghost middle = ctxt@;
                let ghost built = items@;
                let lowered = compile_node(ctxt, child);
                proof {
                    lemma_extends_transitive(before, middle, ctxt@);
                    lemma_extends_longer(ctxt@, middle);
                }
                match lowered {
                    Err(e) => {
                        return Err(e);
                    },
                    Ok((t, thunk)) => {
                        ty = t;
                        items.push(thunk);
                        proof {
                            assert(items@.drop_last() =~= built);
                            assert forall|j: int| 0 <= j < items@.len() implies simulates(
                                &#[trigger] items@[j],
                                &all[j],
                                ctxt@,
                            ) by {
                                if j < built.len() {
                                    lemma_simulates_later(built[j], all[j], middle, ctxt@);
                                }
                            }
                        }
                    },
                }
            }
            let thunk = Thunk { code: Box::new(Sequence { items }) };
            proof {
                lemma_sequence_simulates(thunk, items@, node, ctxt@);
            }
            Ok((ty, thunk))
        },
    }
}

} // verus!

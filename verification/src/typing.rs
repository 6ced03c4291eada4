//! The static meaning of a node: its type, and the variables it declares.

use vstd::prelude::*;
use crate::value::Type;
use crate::error::CompileError;
use crate::error::Operator;
use crate::syntax::Node;
use crate::syntax::Program;
use crate::scope::Scope;
use crate::scope::lemma_declare;
use crate::scope::lemma_extends_reflexive;
use crate::scope::lemma_extends_transitive;
use crate::scope::lemma_extends_keeps;

verus! {

/// The type of an operator's result on operands of the given types, or the
/// fault of an operator that has no meaning for them. Only integers can be
/// compared, added or subtracted.
pub open spec fn operator_type(op: Operator, lhs: Type, rhs: Type) -> Result<Type, CompileError> {
    if lhs == Type::Int && rhs == Type::Int {
        match op {
            Operator::Gt => Ok(Type::Bool),
            Operator::Add => Ok(Type::Int),
            Operator::Sub => Ok(Type::Int),
        }
    } else {
        Err(CompileError::UnsupportedOperation { op, lhs, rhs })
    }
}

/// The type of an operator's result, in the scope that checking its
/// operands left.
pub open spec fn in_scope(ty: Result<Type, CompileError>, scope: Scope) -> Result<
    (Type, Scope),
    CompileError,
> {
    match ty {
        Err(e) => Err(e),
        Ok(ty) => Ok((ty, scope)),
    }
}

impl Node {
    /// The type of this node in a scope, and the scope that it leaves: the
    /// one it was given and the variables that its `Let`s declare. A node
    /// that breaks a rule has the fault of the first rule broken, in the
    /// order in which the tree is walked.
    ///
    /// - A literal has the type of its value.
    /// - A variable must be declared, and has its declared type.
    /// - `Let` checks its value first, so that the new variable is not
    ///   visible in it; the name must be new, in the whole program.
    /// - `Assign` needs a declared variable and a value of its type.
    /// - An operator checks the left operand, then the right one, then
    ///   their types.
    /// - `While` needs a boolean condition; its body may have any type.
    /// - A block checks its nodes in order, each in the scope that the one
    ///   before left, and has the type of the last one. It may not be empty.
    pub open spec fn check(&self, scope: Scope) -> Result<(Type, Scope), CompileError>
        decreases self, 0nat,
    {
        match self {
            Node::Const(value) => Ok((value.tag(), scope)),
            Node::Var(name) => if scope.declares(name@) {
                Ok((scope.type_of(name@), scope))
            } else {
                Err(CompileError::UnresolvedName(*name))
            },
            Node::Let { name, value } => match value.check(scope) {
                Err(e) => Err(e),
                Ok((ty, inner)) => if inner.declares(name@) {
                    Err(CompileError::DuplicateDeclaration(*name))
                } else {
                    Ok((Type::Unit, inner.declare(name@, ty)))
                },
            },
            Node::Assign { name, value } => if !scope.declares(name@) {
                Err(CompileError::UnresolvedName(*name))
            } else {
                match value.check(scope) {
                    Err(e) => Err(e),
                    Ok((ty, inner)) => if ty != scope.type_of(name@) {
                        Err(CompileError::TypeMismatch { expected: scope.type_of(name@), found: ty })
                    } else {
                        Ok((Type::Unit, inner))
                    },
                }
            },
            Node::Gt { lhs, rhs } => match lhs.check(scope) {
                Err(e) => Err(e),
                Ok((lt, s1)) => match rhs.check(s1) {
                    Err(e) => Err(e),
                    Ok((rt, s2)) => in_scope(operator_type(Operator::Gt, lt, rt), s2),
                },
            },
            Node::Add { lhs, rhs } => match lhs.check(scope) {
                Err(e) => Err(e),
                Ok((lt, s1)) => match rhs.check(s1) {
                    Err(e) => Err(e),
                    Ok((rt, s2)) => in_scope(operator_type(Operator::Add, lt, rt), s2),
                },
            },
            Node::Sub { lhs, rhs } => match lhs.check(scope) {
                Err(e) => Err(e),
                Ok((lt, s1)) => match rhs.check(s1) {
                    Err(e) => Err(e),
                    Ok((rt, s2)) => in_scope(operator_type(Operator::Sub, lt, rt), s2),
                },
            },
            Node::While { cond, body } => match cond.check(scope) {
                Err(e) => Err(e),
                Ok((ct, s1)) => if ct != Type::Bool {
                    Err(CompileError::TypeMismatch { expected: Type::Bool, found: ct })
                } else {
                    match body.check(s1) {
                        Err(e) => Err(e),
                        Ok((_, s2)) => Ok((Type::Unit, s2)),
                    }
                },
            },
            Node::Block(nodes) => if nodes@.len() == 0 {
                Err(CompileError::EmptyBlock)
            } else {
                check_from(nodes@, 0, scope, Type::Unit)
            },
        }
    }
}

/// The type and scope of a block's nodes from the `from`-th on, when `last`
/// is the type of the one before.
pub open spec fn check_from(nodes: Seq<Node>, from: int, scope: Scope, last: Type) -> Result<
    (Type, Scope),
    CompileError,
>
    decreases nodes, nodes.len() - from,
{
    if from < 0 || from >= nodes.len() {
        Ok((last, scope))
    } else {
        match nodes[from].check(scope) {
            Err(e) => Err(e),
            Ok((ty, s1)) => check_from(nodes, from + 1, s1, ty),
        }
    }
}

/// Slots are stable: the scope that a checked node leaves is well formed
/// and extends the scope it was given. Every variable declared before the
/// node keeps its slot and its type, whatever the node declares.
pub proof fn lemma_check_extends(node: &Node, scope: Scope)
    requires
        scope.wf(),
        node.check(scope) is Ok,
    ensures
        node.check(scope)->Ok_0.1.wf(),
        node.check(scope)->Ok_0.1.extends(scope),
    decreases node, 0nat,
{
    lemma_extends_reflexive(scope);
    match node {
        Node::Const(_) => {},
        Node::Var(_) => {},
        Node::Let { name, value } => {
            lemma_check_extends(value, scope);
            let inner = value.check(scope)->Ok_0.1;
            let ty = value.check(scope)->Ok_0.0;
            lemma_declare(inner, name@, ty);
            lemma_extends_transitive(scope, inner, inner.declare(name@, ty));
        },
        Node::Assign { name, value } => {
            lemma_check_extends(value, scope);
        },
        Node::Gt { lhs, rhs } => {
            lemma_check_extends(lhs, scope);
            let middle = lhs.check(scope)->Ok_0.1;
            lemma_check_extends(rhs, middle);
            lemma_extends_transitive(scope, middle, rhs.check(middle)->Ok_0.1);
        },
        Node::Add { lhs, rhs } => {
            lemma_check_extends(lhs, scope);
            let middle = lhs.check(scope)->Ok_0.1;
            lemma_check_extends(rhs, middle);
            lemma_extends_transitive(scope, middle, rhs.check(middle)->Ok_0.1);
        },
        Node::Sub { lhs, rhs } => {
            lemma_check_extends(lhs, scope);
            let middle = lhs.check(scope)->Ok_0.1;
            lemma_check_extends(rhs, middle);
            lemma_extends_transitive(scope, middle, rhs.check(middle)->Ok_0.1);
        },
        Node::While { cond, body } => {
            lemma_check_extends(cond, scope);
            let middle = cond.check(scope)->Ok_0.1;
            lemma_check_extends(body, middle);
            lemma_extends_transitive(scope, middle, body.check(middle)->Ok_0.1);
        },
        Node::Block(nodes) => {
            lemma_check_from_extends(nodes@, 0, scope, Type::Unit);
        },
    }
}

/// The scope that the nodes of a block leave, from any place on, is well
/// formed and extends the scope they were given.
pub proof fn lemma_check_from_extends(nodes: Seq<Node>, from: int, scope: Scope, last: Type)
    requires
        scope.wf(),
        check_from(nodes, from, scope, last) is Ok,
    ensures
        check_from(nodes, from, scope, last)->Ok_0.1.wf(),
        check_from(nodes, from, scope, last)->Ok_0.1.extends(scope),
    decreases nodes, nodes.len() - from,
{
    lemma_extends_reflexive(scope);
    if 0 <= from < nodes.len() {
        lemma_check_extends(&nodes[from], scope);
        let ty = nodes[from].check(scope)->Ok_0.0;
        let middle = nodes[from].check(scope)->Ok_0.1;
        lemma_check_from_extends(nodes, from + 1, middle, ty);
        lemma_extends_transitive(scope, middle, check_from(nodes, from + 1, middle, ty)->Ok_0.1);
    }
}

/// Declarations made by the earlier nodes of a block are visible to its
/// last node, and the block has the type of that node: a block checks as
/// its last node does in the scope that the nodes before it leave, and a
/// fault among those is the block's fault.
pub proof fn lemma_block_checks_in_order(nodes: Seq<Node>, from: int, scope: Scope, last: Type)
    requires
        0 <= from < nodes.len(),
    ensures
        check_from(nodes, from, scope, last) == match check_from(nodes.drop_last(), from, scope, last) {
            Err(e) => Err(e),
            Ok((_, before_last)) => nodes.last().check(before_last),
        },
    decreases nodes.len() - from,
{
    let front = nodes.drop_last();
    if from < nodes.len() - 1 {
        assert(front[from] == nodes[from]);
        match nodes[from].check(scope) {
            Ok((ty, middle)) => {
                lemma_block_checks_in_order(nodes, from + 1, middle, ty);
            },
            Err(_) => {},
        }
    } else {
        match nodes[from].check(scope) {
            Ok((ty, middle)) => {
                assert(check_from(nodes, from + 1, middle, ty) == Ok::<(Type, Scope), CompileError>(
                    (ty, middle),
                ));
            },
            Err(_) => {},
        }
    }
}

/// A variable that is not declared can be neither read nor assigned.
pub proof fn lemma_undeclared_is_refused(name: &'static str, value: Node, scope: Scope)
    requires
        !scope.declares(name@),
    ensures
        Node::Var(name).check(scope) == Err::<(Type, Scope), CompileError>(
            CompileError::UnresolvedName(name),
        ),
        (Node::Assign { name, value: Box::new(value) }).check(scope) == Err::<(Type, Scope), CompileError>(
            CompileError::UnresolvedName(name),
        ),
{
}

/// A name can be declared once in a whole program: a `Let` of a name that
/// is declared, however long ago, is refused.
pub proof fn lemma_redeclared_is_refused(name: &'static str, value: Node, scope: Scope)
    requires
        scope.wf(),
        scope.declares(name@),
        value.check(scope) is Ok,
    ensures
        (Node::Let { name, value: Box::new(value) }).check(scope) == Err::<(Type, Scope), CompileError>(
            CompileError::DuplicateDeclaration(name),
        ),
{
    lemma_check_extends(&value, scope);
    lemma_extends_keeps(value.check(scope)->Ok_0.1, scope, name@);
}

/// A variable can only be assigned a value of its declared type.
pub proof fn lemma_mistyped_assign_is_refused(name: &'static str, value: Node, scope: Scope)
    requires
        scope.declares(name@),
        value.check(scope) matches Ok((ty, _)) && ty != scope.type_of(name@),
    ensures
        (Node::Assign { name, value: Box::new(value) }).check(scope) == Err::<(Type, Scope), CompileError>(
            CompileError::TypeMismatch {
                expected: scope.type_of(name@),
                found: value.check(scope)->Ok_0.0,
            },
        ),
{
}

/// A loop's condition must be a boolean, whatever its body is.
pub proof fn lemma_mistyped_condition_is_refused(cond: Node, body: Node, scope: Scope)
    requires
        cond.check(scope) matches Ok((ty, _)) && ty != Type::Bool,
    ensures
        (Node::While { cond: Box::new(cond), body: Box::new(body) }).check(scope) == Err::<
            (Type, Scope),
            CompileError,
        >(CompileError::TypeMismatch { expected: Type::Bool, found: cond.check(scope)->Ok_0.0 }),
{
}

/// A fault in a part of a node is the node's fault: a node whose first
/// part does not check is refused with that part's fault.
pub proof fn lemma_fault_is_passed_on(part: Node, other: Node, name: &'static str, scope: Scope)
    requires
        part.check(scope) is Err,
    ensures
        (Node::Let { name, value: Box::new(part) }).check(scope) == part.check(scope),
        scope.declares(name@) ==> (Node::Assign { name, value: Box::new(part) }).check(scope)
            == part.check(scope),
        (Node::Gt { lhs: Box::new(part), rhs: Box::new(other) }).check(scope) == part.check(scope),
        (Node::Add { lhs: Box::new(part), rhs: Box::new(other) }).check(scope) == part.check(scope),
        (Node::Sub { lhs: Box::new(part), rhs: Box::new(other) }).check(scope) == part.check(scope),
        (Node::While { cond: Box::new(part), body: Box::new(other) }).check(scope) == part.check(scope),
{
}

impl Program {
    /// Whether the program can be compiled for a host that gives inputs of
    /// type `host_input` and takes outputs of type `host_output`: the body
    /// must check in the scope that holds only the input, and have the
    /// declared output type; the host's types must be the declared ones.
    pub open spec fn check(&self, host_input: Type, host_output: Type) -> Result<Scope, CompileError> {
        match self.body.check(Scope::initial(self.input)) {
            Err(e) => Err(e),
            Ok((ty, scope)) => if ty != self.output {
                Err(CompileError::OutputMismatch { declared: self.output, found: ty })
            } else if host_input != self.input {
                Err(CompileError::HostInputMismatch { declared: self.input, host: host_input })
            } else if host_output != self.output {
                Err(CompileError::HostOutputMismatch { declared: self.output, host: host_output })
            } else {
                Ok(scope)
            },
        }
    }
}

} // verus!

use closure_compiler::driver::compile;
use closure_compiler::error::CompileError;
use closure_compiler::error::Operator;
use closure_compiler::syntax::Node;
use closure_compiler::syntax::Program;
use closure_compiler::value::Type;
use closure_compiler::value::Value;

fn num(n: i32) -> Box<Node> {
    Box::new(Node::Const(Value::Int(n)))
}

fn truth(b: bool) -> Box<Node> {
    Box::new(Node::Const(Value::Bool(b)))
}

fn read(name: &'static str) -> Box<Node> {
    Box::new(Node::Var(name))
}

fn refusal(output: Type, body: Node) -> Option<CompileError> {
    compile::<i32, i32>(Program { input: Type::Int, output, body }).err()
}

#[test]
fn reading_an_undeclared_name_is_refused() {
    assert_eq!(refusal(Type::Int, Node::Var("y")), Some(CompileError::UnresolvedName("y")));
}

#[test]
fn reading_an_undeclared_name_deep_in_the_body_is_refused() {
    let body = Node::Block(vec![
        Node::Let { name: "x", value: num(1) },
        Node::While {
            cond: Box::new(Node::Gt { lhs: read("x"), rhs: num(0) }),
            body: Box::new(Node::Assign {
                name: "x",
                value: Box::new(Node::Sub { lhs: read("x"), rhs: read("step") }),
            }),
        },
        Node::Var("x"),
    ]);
    assert_eq!(refusal(Type::Int, body), Some(CompileError::UnresolvedName("step")));
}

#[test]
fn assigning_an_undeclared_name_is_refused() {
    let body = Node::Assign { name: "x", value: num(1) };
    assert_eq!(refusal(Type::Unit, body), Some(CompileError::UnresolvedName("x")));
}

#[test]
fn assigning_an_undeclared_name_is_refused_before_its_value_is_looked_at() {
    let body = Node::Assign { name: "x", value: read("y") };
    assert_eq!(refusal(Type::Unit, body), Some(CompileError::UnresolvedName("x")));
}

#[test]
fn a_declaration_is_not_visible_in_its_own_value() {
    let body = Node::Let { name: "x", value: read("x") };
    assert_eq!(refusal(Type::Unit, body), Some(CompileError::UnresolvedName("x")));
}

#[test]
fn declaring_a_name_twice_is_refused() {
    let body = Node::Block(vec![
        Node::Let { name: "x", value: num(1) },
        Node::Let { name: "x", value: num(2) },
    ]);
    assert_eq!(refusal(Type::Unit, body), Some(CompileError::DuplicateDeclaration("x")));
}

#[test]
fn declaring_the_input_name_is_refused() {
    let body = Node::Let { name: "input", value: num(1) };
    assert_eq!(refusal(Type::Unit, body), Some(CompileError::DuplicateDeclaration("input")));
}

#[test]
fn declaring_a_name_again_in_a_sibling_block_is_refused() {
    let body = Node::Block(vec![
        Node::Block(vec![Node::Let { name: "t", value: num(1) }]),
        Node::Block(vec![Node::Let { name: "t", value: num(2) }]),
    ]);
    assert_eq!(refusal(Type::Unit, body), Some(CompileError::DuplicateDeclaration("t")));
}

#[test]
fn a_fault_in_a_declared_value_comes_before_the_duplicate() {
    let body = Node::Let { name: "input", value: read("nowhere") };
    assert_eq!(refusal(Type::Unit, body), Some(CompileError::UnresolvedName("nowhere")));
}

#[test]
fn assigning_a_value_of_another_type_is_refused() {
    let body = Node::Block(vec![
        Node::Let { name: "x", value: num(1) },
        Node::Assign { name: "x", value: truth(true) },
    ]);
    assert_eq!(
        refusal(Type::Unit, body),
        Some(CompileError::TypeMismatch { expected: Type::Int, found: Type::Bool })
    );
}

#[test]
fn assigning_unit_to_the_input_is_refused() {
    let body = Node::Assign {
        name: "input",
        value: Box::new(Node::Let { name: "x", value: num(1) }),
    };
    assert_eq!(
        refusal(Type::Unit, body),
        Some(CompileError::TypeMismatch { expected: Type::Int, found: Type::Unit })
    );
}

#[test]
fn a_loop_condition_that_is_no_boolean_is_refused() {
    let body = Node::While { cond: num(1), body: Box::new(Node::Const(Value::Unit)) };
    assert_eq!(
        refusal(Type::Unit, body),
        Some(CompileError::TypeMismatch { expected: Type::Bool, found: Type::Int })
    );
}

#[test]
fn a_loop_condition_is_held_to_its_type_before_the_body_is_lowered() {
    let body = Node::While { cond: num(1), body: read("nowhere") };
    assert_eq!(
        refusal(Type::Unit, body),
        Some(CompileError::TypeMismatch { expected: Type::Bool, found: Type::Int })
    );
}

#[test]
fn a_fault_in_a_loop_body_is_the_fault_of_the_loop() {
    let body = Node::While { cond: truth(false), body: read("nowhere") };
    assert_eq!(refusal(Type::Unit, body), Some(CompileError::UnresolvedName("nowhere")));
}

#[test]
fn operators_take_integers_only() {
    assert_eq!(
        refusal(Type::Int, Node::Add { lhs: truth(true), rhs: num(1) }),
        Some(CompileError::UnsupportedOperation { op: Operator::Add, lhs: Type::Bool, rhs: Type::Int })
    );
    assert_eq!(
        refusal(Type::Int, Node::Sub { lhs: num(1), rhs: truth(false) }),
        Some(CompileError::UnsupportedOperation { op: Operator::Sub, lhs: Type::Int, rhs: Type::Bool })
    );
    assert_eq!(
        refusal(Type::Bool, Node::Gt { lhs: truth(true), rhs: truth(false) }),
        Some(CompileError::UnsupportedOperation { op: Operator::Gt, lhs: Type::Bool, rhs: Type::Bool })
    );
    assert_eq!(
        refusal(
            Type::Int,
            Node::Add { lhs: Box::new(Node::Let { name: "x", value: num(1) }), rhs: num(1) }
        ),
        Some(CompileError::UnsupportedOperation { op: Operator::Add, lhs: Type::Unit, rhs: Type::Int })
    );
}

#[test]
fn both_operands_are_lowered_before_the_operator_is_checked() {
    let body = Node::Add { lhs: truth(true), rhs: read("nowhere") };
    assert_eq!(refusal(Type::Int, body), Some(CompileError::UnresolvedName("nowhere")));
}

#[test]
fn the_left_operand_is_lowered_first() {
    let body = Node::Gt { lhs: read("a"), rhs: read("b") };
    assert_eq!(refusal(Type::Bool, body), Some(CompileError::UnresolvedName("a")));
}

#[test]
fn an_empty_block_is_refused() {
    assert_eq!(refusal(Type::Unit, Node::Block(vec![])), Some(CompileError::EmptyBlock));
}

#[test]
fn an_empty_block_inside_a_block_is_refused() {
    let body = Node::Block(vec![Node::Const(Value::Int(1)), Node::Block(vec![])]);
    assert_eq!(refusal(Type::Unit, body), Some(CompileError::EmptyBlock));
}

#[test]
fn the_first_fault_of_a_block_is_reported() {
    let body = Node::Block(vec![
        Node::Let { name: "x", value: num(1) },
        Node::Assign { name: "x", value: truth(true) },
        Node::Var("nowhere"),
    ]);
    assert_eq!(
        refusal(Type::Int, body),
        Some(CompileError::TypeMismatch { expected: Type::Int, found: Type::Bool })
    );
}

#[test]
fn a_body_of_another_type_than_the_declared_output_is_refused() {
    assert_eq!(
        refusal(Type::Int, Node::Const(Value::Bool(true))),
        Some(CompileError::OutputMismatch { declared: Type::Int, found: Type::Bool })
    );
    assert_eq!(
        refusal(Type::Int, Node::Let { name: "x", value: num(1) }),
        Some(CompileError::OutputMismatch { declared: Type::Int, found: Type::Unit })
    );
}

#[test]
fn a_host_input_type_that_is_not_the_declared_one_is_refused() {
    let prog = Program { input: Type::Bool, output: Type::Int, body: Node::Const(Value::Int(1)) };
    assert_eq!(
        compile::<i32, i32>(prog).err(),
        Some(CompileError::HostInputMismatch { declared: Type::Bool, host: Type::Int })
    );
}

#[test]
fn a_host_output_type_that_is_not_the_declared_one_is_refused() {
    let prog = Program { input: Type::Int, output: Type::Bool, body: Node::Const(Value::Bool(true)) };
    assert_eq!(
        compile::<i32, i32>(prog).err(),
        Some(CompileError::HostOutputMismatch { declared: Type::Bool, host: Type::Int })
    );
}

#[test]
fn the_body_type_is_held_to_the_output_before_the_host_types() {
    let prog = Program { input: Type::Bool, output: Type::Bool, body: Node::Const(Value::Int(1)) };
    assert_eq!(
        compile::<i32, i32>(prog).err(),
        Some(CompileError::OutputMismatch { declared: Type::Bool, found: Type::Int })
    );
}

#[test]
fn the_host_input_is_held_to_its_type_before_the_host_output() {
    let prog = Program { input: Type::Bool, output: Type::Bool, body: Node::Const(Value::Bool(true)) };
    assert_eq!(
        compile::<i32, i32>(prog).err(),
        Some(CompileError::HostInputMismatch { declared: Type::Bool, host: Type::Int })
    );
}

#[test]
fn a_body_fault_comes_before_any_mismatch_of_the_program() {
    let prog = Program { input: Type::Bool, output: Type::Bool, body: Node::Var("nowhere") };
    assert_eq!(compile::<i32, i32>(prog).err(), Some(CompileError::UnresolvedName("nowhere")));
}

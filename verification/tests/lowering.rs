use closure_compiler::closure::Difference;
use closure_compiler::closure::Greater;
use closure_compiler::closure::Literal;
use closure_compiler::closure::Load;
use closure_compiler::closure::Loop;
use closure_compiler::closure::Sequence;
use closure_compiler::closure::Store;
use closure_compiler::closure::Sum;
use closure_compiler::closure::Thunk;
use closure_compiler::error::CompileError;
use closure_compiler::error::RunError;
use closure_compiler::lower::compile_node;
use closure_compiler::runtime::RuntimeContext;
use closure_compiler::scope::CompilationContext;
use closure_compiler::scope::INPUT;
use closure_compiler::syntax::Node;
use closure_compiler::value::Type;
use closure_compiler::value::Value;

fn literal(value: Value) -> Thunk {
    Thunk { code: Box::new(Literal { value }) }
}

fn load(slot: usize) -> Thunk {
    Thunk { code: Box::new(Load { slot }) }
}

fn store(slot: usize, value: Thunk) -> Thunk {
    Thunk { code: Box::new(Store { slot, value }) }
}

fn frame(values: Vec<Value>, fuel: u64) -> RuntimeContext {
    RuntimeContext { stack: values, fuel }
}

#[test]
fn a_fresh_context_holds_the_input_in_slot_0() {
    let ctxt = CompilationContext::new(Type::Bool);
    assert_eq!(ctxt.stack, vec![Type::Bool]);
    assert_eq!(INPUT, "input");
    assert_eq!(ctxt.lookup("input"), Some((0, Type::Bool)));
    assert_eq!(ctxt.lookup("x"), None);
}

#[test]
fn declaring_gives_the_next_slot() {
    let mut ctxt = CompilationContext::new(Type::Int);
    assert_eq!(ctxt.declare("a", Type::Bool), 1);
    assert_eq!(ctxt.declare("b", Type::Unit), 2);
    assert_eq!(ctxt.stack, vec![Type::Int, Type::Bool, Type::Unit]);
    assert_eq!(ctxt.lookup("a"), Some((1, Type::Bool)));
    assert_eq!(ctxt.lookup("b"), Some((2, Type::Unit)));
    assert_eq!(ctxt.lookup("input"), Some((0, Type::Int)));
}

#[test]
fn a_fresh_frame_holds_unit_in_every_slot() {
    let ctxt = RuntimeContext::new(3, 9);
    assert_eq!(ctxt.stack, vec![Value::Unit, Value::Unit, Value::Unit]);
    assert_eq!(ctxt.fuel, 9);
    assert_eq!(RuntimeContext::new(0, 0).stack, vec![]);
}

#[test]
fn lowering_a_literal_changes_no_context() {
    let mut ctxt = CompilationContext::new(Type::Int);
    let (ty, thunk) = compile_node(&mut ctxt, Node::Const(Value::Bool(true))).unwrap();
    assert_eq!(ty, Type::Bool);
    assert_eq!(ctxt.stack, vec![Type::Int]);
    let mut run = frame(vec![Value::Int(5)], 0);
    assert_eq!(thunk.call(&mut run), Ok(Value::Bool(true)));
    assert_eq!(run.stack, vec![Value::Int(5)]);
}

#[test]
fn lowering_a_variable_gives_its_declared_type() {
    let mut ctxt = CompilationContext::new(Type::Int);
    ctxt.declare("flag", Type::Bool);
    let (ty, thunk) = compile_node(&mut ctxt, Node::Var("flag")).unwrap();
    assert_eq!(ty, Type::Bool);
    let mut run = frame(vec![Value::Int(5), Value::Bool(true)], 0);
    assert_eq!(thunk.call(&mut run), Ok(Value::Bool(true)));
    assert_eq!(run.stack, vec![Value::Int(5), Value::Bool(true)]);
}

#[test]
fn lowering_a_declaration_gives_unit_and_a_new_slot() {
    let mut ctxt = CompilationContext::new(Type::Int);
    let node = Node::Let { name: "x", value: Box::new(Node::Const(Value::Bool(false))) };
    let (ty, thunk) = compile_node(&mut ctxt, node).unwrap();
    assert_eq!(ty, Type::Unit);
    assert_eq!(ctxt.stack, vec![Type::Int, Type::Bool]);
    assert_eq!(ctxt.lookup("x"), Some((1, Type::Bool)));
    let mut run = frame(vec![Value::Int(5), Value::Unit], 0);
    assert_eq!(thunk.call(&mut run), Ok(Value::Unit));
    assert_eq!(run.stack, vec![Value::Int(5), Value::Bool(false)]);
}

#[test]
fn lowering_an_assignment_gives_unit_and_no_new_slot() {
    let mut ctxt = CompilationContext::new(Type::Int);
    let node = Node::Assign { name: "input", value: Box::new(Node::Const(Value::Int(9))) };
    let (ty, thunk) = compile_node(&mut ctxt, node).unwrap();
    assert_eq!(ty, Type::Unit);
    assert_eq!(ctxt.stack, vec![Type::Int]);
    let mut run = frame(vec![Value::Int(5)], 0);
    assert_eq!(thunk.call(&mut run), Ok(Value::Unit));
    assert_eq!(run.stack, vec![Value::Int(9)]);
}

#[test]
fn lowering_a_loop_gives_unit() {
    let mut ctxt = CompilationContext::new(Type::Int);
    let node = Node::While {
        cond: Box::new(Node::Gt {
            lhs: Box::new(Node::Var("input")),
            rhs: Box::new(Node::Const(Value::Int(0))),
        }),
        body: Box::new(Node::Assign {
            name: "input",
            value: Box::new(Node::Sub {
                lhs: Box::new(Node::Var("input")),
                rhs: Box::new(Node::Const(Value::Int(2))),
            }),
        }),
    };
    let (ty, thunk) = compile_node(&mut ctxt, node).unwrap();
    assert_eq!(ty, Type::Unit);
    let mut run = frame(vec![Value::Int(5)], 10);
    assert_eq!(thunk.call(&mut run), Ok(Value::Unit));
    assert_eq!(run.stack, vec![Value::Int(-1)]);
    assert_eq!(run.fuel, 7);
}

#[test]
fn slots_are_given_in_the_order_of_the_walk_and_kept() {
    let mut ctxt = CompilationContext::new(Type::Int);
    let first = Node::Block(vec![
        Node::Let { name: "a", value: Box::new(Node::Const(Value::Int(1))) },
        Node::While {
            cond: Box::new(Node::Const(Value::Bool(false))),
            body: Box::new(Node::Let { name: "b", value: Box::new(Node::Const(Value::Bool(true))) }),
        },
        Node::Let {
            name: "c",
            value: Box::new(Node::Let { name: "d", value: Box::new(Node::Var("a")) }),
        },
    ]);
    let (ty, _) = compile_node(&mut ctxt, first).unwrap();
    assert_eq!(ty, Type::Unit);
    assert_eq!(ctxt.stack, vec![Type::Int, Type::Int, Type::Bool, Type::Int, Type::Unit]);
    let slots = [("input", 0), ("a", 1), ("b", 2), ("d", 3), ("c", 4)];
    for (name, slot) in slots {
        assert_eq!(ctxt.lookup(name).map(|found| found.0), Some(slot));
    }
    let second = Node::Let { name: "e", value: Box::new(Node::Var("b")) };
    let (_, thunk) = compile_node(&mut ctxt, second).unwrap();
    assert_eq!(ctxt.lookup("e"), Some((5, Type::Bool)));
    for (name, slot) in slots {
        assert_eq!(ctxt.lookup(name).map(|found| found.0), Some(slot));
    }
    let mut run = frame(
        vec![
            Value::Int(0),
            Value::Int(1),
            Value::Bool(true),
            Value::Int(1),
            Value::Unit,
            Value::Unit,
        ],
        0,
    );
    assert_eq!(thunk.call(&mut run), Ok(Value::Unit));
    assert_eq!(run.stack[5], Value::Bool(true));
}

#[test]
fn a_refused_node_gives_no_closure() {
    let mut ctxt = CompilationContext::new(Type::Int);
    let node = Node::Block(vec![
        Node::Let { name: "a", value: Box::new(Node::Const(Value::Int(1))) },
        Node::Var("b"),
    ]);
    assert_eq!(compile_node(&mut ctxt, node).err(), Some(CompileError::UnresolvedName("b")));
    assert_eq!(compile_node(&mut ctxt, Node::Block(vec![])).err(), Some(CompileError::EmptyBlock));
}

#[test]
fn a_store_writes_its_slot_only() {
    let thunk = store(1, literal(Value::Int(4)));
    let mut run = frame(vec![Value::Int(1), Value::Int(2), Value::Int(3)], 6);
    assert_eq!(thunk.call(&mut run), Ok(Value::Unit));
    assert_eq!(run.stack, vec![Value::Int(1), Value::Int(4), Value::Int(3)]);
    assert_eq!(run.fuel, 6);
}

#[test]
fn operator_closures_apply_to_integers() {
    let mut run = frame(vec![Value::Int(7), Value::Int(9), Value::Bool(true)], 0);
    let sum = Thunk { code: Box::new(Sum { lhs: load(0), rhs: load(1) }) };
    assert_eq!(sum.call(&mut run), Ok(Value::Int(16)));
    let difference = Thunk { code: Box::new(Difference { lhs: load(0), rhs: load(1) }) };
    assert_eq!(difference.call(&mut run), Ok(Value::Int(-2)));
    let greater = Thunk { code: Box::new(Greater { lhs: load(1), rhs: load(0) }) };
    assert_eq!(greater.call(&mut run), Ok(Value::Bool(true)));
    let equal = Thunk { code: Box::new(Greater { lhs: load(0), rhs: load(0) }) };
    assert_eq!(equal.call(&mut run), Ok(Value::Bool(false)));
    assert_eq!(run.stack, vec![Value::Int(7), Value::Int(9), Value::Bool(true)]);
}

#[test]
fn an_operand_that_is_no_integer_is_a_fault() {
    let mut run = frame(vec![Value::Int(7), Value::Bool(true)], 0);
    let left = Thunk { code: Box::new(Sum { lhs: load(1), rhs: store(0, literal(Value::Int(0))) }) };
    assert_eq!(
        left.call(&mut run),
        Err(RunError::Expected { ty: Type::Int, got: Value::Bool(true) })
    );
    // The right operand did not run.
    assert_eq!(run.stack[0], Value::Int(7));
    let right = Thunk { code: Box::new(Difference { lhs: load(0), rhs: literal(Value::Unit) }) };
    assert_eq!(right.call(&mut run), Err(RunError::Expected { ty: Type::Int, got: Value::Unit }));
}

#[test]
fn a_loop_closure_spends_fuel_by_the_round() {
    let countdown = || Thunk {
        code: Box::new(Loop {
            cond: Thunk { code: Box::new(Greater { lhs: load(0), rhs: literal(Value::Int(0)) }) },
            body: store(
                0,
                Thunk { code: Box::new(Difference { lhs: load(0), rhs: literal(Value::Int(1)) }) },
            ),
        }),
    };
    let mut run = frame(vec![Value::Int(3)], 5);
    assert_eq!(countdown().call(&mut run), Ok(Value::Unit));
    assert_eq!(run.stack, vec![Value::Int(0)]);
    assert_eq!(run.fuel, 2);
    let mut short = frame(vec![Value::Int(3)], 2);
    assert_eq!(countdown().call(&mut short), Err(RunError::OutOfFuel));
    let mut none = frame(vec![Value::Int(0)], 0);
    assert_eq!(countdown().call(&mut none), Ok(Value::Unit));
    assert_eq!(none.fuel, 0);
}

#[test]
fn a_loop_closure_needs_a_boolean_condition() {
    let thunk = Thunk { code: Box::new(Loop { cond: load(0), body: literal(Value::Unit) }) };
    let mut run = frame(vec![Value::Int(3)], 5);
    assert_eq!(
        thunk.call(&mut run),
        Err(RunError::Expected { ty: Type::Bool, got: Value::Int(3) })
    );
}

#[test]
fn a_sequence_closure_gives_its_last_value() {
    let thunk = Thunk {
        code: Box::new(Sequence {
            items: vec![store(0, literal(Value::Int(2))), literal(Value::Bool(true)), load(0)],
        }),
    };
    let mut run = frame(vec![Value::Int(1)], 0);
    assert_eq!(thunk.call(&mut run), Ok(Value::Int(2)));
    let empty = Thunk { code: Box::new(Sequence { items: vec![] }) };
    assert_eq!(empty.call(&mut run), Ok(Value::Unit));
}

#[test]
fn a_sequence_closure_stops_at_the_first_fault() {
    let thunk = Thunk {
        code: Box::new(Sequence {
            items: vec![
                store(0, literal(Value::Int(2))),
                Thunk {
                    code: Box::new(Sum { lhs: literal(Value::Int(i32::MAX)), rhs: load(0) }),
                },
                store(0, literal(Value::Int(3))),
            ],
        }),
    };
    let mut run = frame(vec![Value::Int(1)], 0);
    assert_eq!(thunk.call(&mut run), Err(RunError::Overflow));
    assert_eq!(run.stack, vec![Value::Int(2)]);
}

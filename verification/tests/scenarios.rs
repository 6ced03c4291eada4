use closure_compiler::driver::compile;
use closure_compiler::error::CompileError;
use closure_compiler::error::Operator;
use closure_compiler::error::RunError;
use closure_compiler::syntax::Node;
use closure_compiler::syntax::Program;
use closure_compiler::value::Type;
use closure_compiler::value::Value;

fn lit(n: i32) -> Box<Node> {
    Box::new(Node::Const(Value::Int(n)))
}

fn var(name: &'static str) -> Box<Node> {
    Box::new(Node::Var(name))
}

fn fib() -> Program {
    Program {
        input: Type::Int,
        output: Type::Int,
        body: Node::Block(vec![
            Node::Let { name: "x", value: lit(0) },
            Node::Let { name: "y", value: lit(1) },
            Node::Let { name: "z", value: lit(1) },
            Node::Let { name: "n", value: var("input") },
            Node::While {
                cond: Box::new(Node::Gt { lhs: var("n"), rhs: lit(0) }),
                body: Box::new(Node::Block(vec![
                    Node::Assign { name: "x", value: var("y") },
                    Node::Assign { name: "y", value: var("z") },
                    Node::Assign {
                        name: "z",
                        value: Box::new(Node::Add { lhs: var("x"), rhs: var("y") }),
                    },
                    Node::Assign {
                        name: "n",
                        value: Box::new(Node::Sub { lhs: var("n"), rhs: lit(1) }),
                    },
                ])),
            },
            Node::Var("x"),
        ]),
    }
}

#[test]
fn fib_of_0_is_0() {
    let f = compile::<i32, i32>(fib()).unwrap();
    assert_eq!(f.call(0, 1000), Ok(0));
}

#[test]
fn fib_of_1_is_1() {
    let f = compile::<i32, i32>(fib()).unwrap();
    assert_eq!(f.call(1, 1000), Ok(1));
}

#[test]
fn fib_of_10_is_55() {
    let f = compile::<i32, i32>(fib()).unwrap();
    assert_eq!(f.call(10, 1000), Ok(55));
}

#[test]
fn let_assign_read_gives_8() {
    let prog = Program {
        input: Type::Int,
        output: Type::Int,
        body: Node::Block(vec![
            Node::Let { name: "x", value: lit(5) },
            Node::Assign {
                name: "x",
                value: Box::new(Node::Add { lhs: var("x"), rhs: lit(3) }),
            },
            Node::Var("x"),
        ]),
    };
    let f = compile::<i32, i32>(prog).unwrap();
    assert_eq!(f.call(0, 0), Ok(8));
    assert_eq!(f.call(-7, 0), Ok(8));
}

#[test]
fn two_is_not_greater_than_three() {
    let prog = Program {
        input: Type::Int,
        output: Type::Bool,
        body: Node::Gt { lhs: lit(2), rhs: lit(3) },
    };
    let f = compile::<i32, bool>(prog).unwrap();
    assert_eq!(f.call(0, 0), Ok(false));
}

#[test]
fn adding_a_bool_and_an_int_is_refused() {
    let prog = Program {
        input: Type::Int,
        output: Type::Int,
        body: Node::Add { lhs: Box::new(Node::Const(Value::Bool(true))), rhs: lit(1) },
    };
    let r = compile::<i32, i32>(prog);
    assert_eq!(
        r.err(),
        Some(CompileError::UnsupportedOperation { op: Operator::Add, lhs: Type::Bool, rhs: Type::Int })
    );
}

#[test]
fn adding_a_bool_and_an_int_never_runs() {
    let prog = Program {
        input: Type::Int,
        output: Type::Int,
        body: Node::Block(vec![
            Node::Let { name: "seen", value: lit(1) },
            Node::Add { lhs: Box::new(Node::Const(Value::Bool(true))), rhs: var("seen") },
        ]),
    };
    assert!(compile::<i32, i32>(prog).is_err());
}

#[test]
fn fib_grows_until_it_does_not_fit() {
    let f = compile::<i32, i32>(fib()).unwrap();
    assert_eq!(f.call(2, 1000), Ok(1));
    assert_eq!(f.call(3, 1000), Ok(2));
    assert_eq!(f.call(20, 1000), Ok(6765));
    assert_eq!(f.call(44, 1000), Ok(701408733));
    // The run keeps two numbers ahead of the one it gives.
    assert_eq!(f.call(45, 1000), Err(RunError::Overflow));
}

#[test]
fn fib_takes_one_unit_of_fuel_for_each_round() {
    let f = compile::<i32, i32>(fib()).unwrap();
    assert_eq!(f.call(10, 10), Ok(55));
    assert_eq!(f.call(10, 9), Err(RunError::OutOfFuel));
    assert_eq!(f.call(-3, 0), Ok(0));
}

//! Compiling a whole program, and calling what was compiled.

use vstd::prelude::*;
use core::marker::PhantomData;
use crate::value::IntoValue;
use crate::value::FromValue;
use crate::error::CompileError;
use crate::error::RunError;
use crate::syntax::Program;
use crate::scope::Scope;
use crate::scope::CompilationContext;
use crate::scope::lemma_extends_reflexive;
use crate::scope::lemma_extends_longer;
use crate::runtime::RuntimeContext;
use crate::closure::Thunk;
use crate::lower::compile_node;
use crate::simulation::simulates;
use crate::simulation::lemma_simulates_on;
use crate::simulation::lemma_start_represents;
use crate::semantics::Memory;

verus! {

impl Program {
    /// What a host gets from the program for an input, with fuel for that
    /// many loop iterations: the program's result as a host scalar, or the
    /// fault that ended the run. A result that the host's output type cannot
    /// hold is a fault.
    pub open spec fn answer<Input: IntoValue, Output: FromValue>(
        &self,
        input: Input,
        fuel: nat,
    ) -> Result<Output, RunError> {
        match self.run(input.spec_into_value(), fuel) {
            Err(e) => Err(e),
            Ok(value) => if value.tag() == Output::spec_ty() {
                Ok(Output::spec_from_value(value))
            } else {
                Err(RunError::Expected { ty: Output::spec_ty(), got: value })
            },
        }
    }
}

/// A compiled program: the closure of its body, and the length of the frame
/// that it runs on. It can be called any number of times; nothing of the
/// program is checked or lowered again.
pub struct Compiled<Input: IntoValue, Output: FromValue> {
    thunk: Thunk,
    stack_len: usize,
    source: Ghost<Program>,
    scope: Ghost<Scope>,
    host: PhantomData<(Input, Output)>,
}

impl<Input: IntoValue, Output: FromValue> Compiled<Input, Output> {
    /// The program checks for these host types; the frame has one slot for
    /// each variable of the scope that the body leaves; the closure fits in
    /// it and computes what the body means.
    #[verifier::type_invariant]
    spec fn wf(&self) -> bool {
        &&& self.source@.check(Input::spec_ty(), Output::spec_ty()) == Ok::<Scope, CompileError>(
            self.scope@,
        )
        &&& self.scope@.wf()
        &&& self.scope@.extends(Scope::initial(self.source@.input))
        &&& self.scope@.layout.len() == self.stack_len
        &&& self.thunk.span() <= self.stack_len
        &&& simulates(&self.thunk, &self.source@.body, self.scope@)
    }

    /// The program that was compiled.
    pub closed spec fn program(&self) -> Program {
        self.source@
    }

    /// Determinism: a call's result depends on the program, the input and
    /// the fuel alone. Two calls with the same input and fuel give the same
    /// result, whatever was called before.
    pub proof fn lemma_call_is_deterministic(
        &self,
        input: Input,
        fuel: nat,
        first: Result<Output, RunError>,
        second: Result<Output, RunError>,
    )
        requires
            first == self.program().answer::<Input, Output>(input, fuel),
            second == self.program().answer::<Input, Output>(input, fuel),
        ensures
            first == second,
    {
    }

    /// Runs the program on an input in a fresh frame, with fuel for `fuel`
    /// loop iterations.
    pub fn call(&self, input: Input, fuel: u64) -> (r: Result<Output, RunError>)
        ensures
            r == self.program().answer::<Input, Output>(input, fuel as nat),
    {
        proof {
            use_type_invariant(self);
            lemma_extends_longer(self.scope@, Scope::initial(self.source@.input));
        }
        let mut ctxt = RuntimeContext::new(self.stack_len, fuel);
        let value = input.into_value();
        ctxt.stack[0] = value;
        proof {
            lemma_start_represents(self.scope@, self.source@.input, value, fuel as nat);
            lemma_extends_reflexive(self.scope@);
            lemma_simulates_on(
                self.thunk,
                self.source@.body,
                self.scope@,
                self.scope@,
                ctxt@,
                Memory::initial(value, fuel as nat),
            );
        }
        match self.thunk.call(&mut ctxt) {
            Err(e) => Err(e),
            Ok(value) => {
                let ty = Output::ty();
                if value.ty() == ty {
                    Ok(Output::from_value(value))
                } else {
                    Err(RunError::Expected { ty, got: value })
                }
            },
        }
    }
}

/// Compiles a program for a host that gives inputs of type `Input` and
/// takes outputs of type `Output`.
///
/// The body is lowered once, in a context that holds only the input, in
/// slot 0. The program is refused where its body does not check, where the
/// body's type is not the declared output type, or where a host type is not
/// the declared one.
pub fn compile<Input: IntoValue, Output: FromValue>(prog: Program) -> (r: Result<
    Compiled<Input, Output>,
    CompileError,
>)
    ensures
        match prog.check(Input::spec_ty(), Output::spec_ty()) {
            Ok(_) => r matches Ok(compiled) && compiled.program() == prog,
            Err(e) => r matches Err(fault) && fault == e,
        },
{
    let ghost source = prog;
    let mut ctxt = CompilationContext::new(prog.input);
    let input = prog.input;
    let output = prog.output;
    match compile_node(&mut ctxt, prog.body) {
        Err(e) => Err(e),
        Ok((ty, thunk)) => {
            let host_input = Input::ty();
            let host_output = Output::ty();
            if ty != output {
                Err(CompileError::OutputMismatch { declared: output, found: ty })
            } else if host_input != input {
                Err(CompileError::HostInputMismatch { declared: input, host: host_input })
            } else if host_output != output {
                Err(CompileError::HostOutputMismatch { declared: output, host: host_output })
            } else {
                let stack_len = ctxt.stack.len();
                Ok(
                    Compiled {
                        thunk,
                        stack_len,
                        source: Ghost(source),
                        scope: Ghost(ctxt@),
                        host: PhantomData,
                    },
                )
            }
        },
    }
}

} // verus!

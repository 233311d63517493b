use vstd::prelude::*;
use vstd::string::*;

use crate::{
    interpreter::{
        bytecode::{
            compiler::{compile_function_spec, compile_to_bytecode},
            machine::{evaluate_function, find_function, initial_machine, run, FnModel, Program, RunOutcome},
        },
        error::{reports, Failure, InterpreterError, InterpreterResult},
        value::{value_text, Value},
    },
    parser::{ast::{function_decl::FunctionDecl, jang_file::JangFile}, token::ident::Ident},
};

verus! {

/// The most steps `run_main` lets the machine take.
pub const STEP_LIMIT: u64 = 0xffff_ffff_ffff_ffff;

/// A function declaration compiled and named, or why it does not compile.
pub open spec fn fn_model(f: FunctionDecl) -> Result<FnModel, Failure> {
    match compile_function_spec(f) {
        Ok((entrypoint, blocks)) => Ok(FnModel { name: f.name.name@, entrypoint, blocks }),
        Err(e) => Err(e),
    }
}

/// Every function declaration compiled, in order, or why the first one that
/// does not compile fails.
pub open spec fn compile_program(decls: Seq<FunctionDecl>) -> Result<Seq<FnModel>, Failure>
    decreases decls.len(),
{
    if decls.len() == 0 {
        Ok(Seq::empty())
    } else {
        match compile_program(decls.drop_last()) {
            Ok(p) => match fn_model(decls.last()) {
                Ok(m) => Ok(p.push(m)),
                Err(e) => Err(e),
            },
            Err(e) => Err(e),
        }
    }
}

/// A program ready to run: each of its functions compiled.
pub struct Interpreter {
    program: Program,
}

impl View for Interpreter {
    type V = Seq<FnModel>;

    closed spec fn view(&self) -> Seq<FnModel> {
        self.program@
    }
}

impl Interpreter {
    /// Compiles every function of the file; fails if one does not compile.
    pub fn new(jang_file: &JangFile) -> (r: InterpreterResult<Interpreter>)
        ensures
            match compile_program(jang_file.function_decls@) {
                Ok(p) => r is Ok && r->Ok_0@ == p,
                Err(f) => r is Err && reports(r->Err_0, f),
            },
    {
        let decls = jang_file.function_decls();
        let mut program = Program::new();
        let mut i: usize = 0;
        proof {
            assert(decls@.subrange(0, 0) =~= Seq::<FunctionDecl>::empty());
        }
        while i < decls.len()
            invariant
                i <= decls@.len(),
                decls@ == jang_file.function_decls@,
                compile_program(decls@.subrange(0, i as int)) == Ok::<Seq<FnModel>, Failure>(program@),
            decreases decls@.len() - i,
        {
            let f = &decls[i];
            proof {
                assert(decls@.subrange(0, i + 1).drop_last() =~= decls@.subrange(0, i as int));
            }
            match compile_to_bytecode(f) {
                Ok(compiled) => {
                    let name = f.name_decl().name().clone();
                    program.add_function(name, compiled);
                },
                Err(e) => {
                    proof {
                        lemma_compile_program_fails(decls@, i as int);
                        lemma_compile_program_extends(decls@, i + 1);
                    }
                    return Err(e);
                },
            }
            i = i + 1;
        }
        proof {
            assert(decls@.subrange(0, i as int) =~= decls@);
        }
        Ok(Interpreter { program })
    }

    /// Runs `main` with no arguments and returns the integer it returns.
    pub fn run_main(&self) -> (r: InterpreterResult<i64>)
        ensures
            match find_function(self@, "main"@) {
                None => r is Err && reports(r->Err_0, Failure::Generic("main function not found"@)),
                Some(i) => match run(self@, initial_machine(self@, i, Seq::empty()), STEP_LIMIT as nat) {
                    RunOutcome::Returned(Value::Int64(v)) => r == Ok::<i64, InterpreterError>(v),
                    RunOutcome::Returned(Value::Unit) => r is Err && reports(
                        r->Err_0,
                        Failure::Value("main must return a value"@),
                    ),
                    RunOutcome::Returned(v) => r is Err && reports(
                        r->Err_0,
                        Failure::Value("invalid return value from main: "@ + value_text(v)),
                    ),
                    RunOutcome::Failed(why) => r is Err && reports(r->Err_0, why),
                    RunOutcome::OutOfFuel => r is Err && reports(r->Err_0, Failure::Generic("step limit reached"@)),
                },
            },
    {
        let main_name = Ident::new("main");
        let main_fn = match self.program.find_function(&main_name) {
            Some(i) => i,
            None => return Err(InterpreterError::generic_err("main function not found")),
        };
        proof {
            crate::interpreter::bytecode::machine::lemma_find_function(self@, "main"@);
        }
        match evaluate_function(&self.program, main_fn, Vec::new(), STEP_LIMIT) {
            Ok(Value::Int64(v)) => Ok(v),
            Ok(Value::Unit) => Err(InterpreterError::value_err("main must return a value")),
            Ok(v) => {
                let mut m = String::from_str("invalid return value from main: ");
                v.append_text(&mut m);
                Err(InterpreterError::Value(m))
            },
            Err(e) => Err(e),
        }
    }
}

/// When the function at `i` is the first that does not compile, the prefix
/// of the file up to it fails as that function does.
proof fn lemma_compile_program_fails(decls: Seq<FunctionDecl>, i: int)
    requires
        0 <= i < decls.len(),
        compile_program(decls.subrange(0, i)) is Ok,
        fn_model(decls[i]) is Err,
    ensures
        compile_program(decls.subrange(0, i + 1)) == Err::<Seq<FnModel>, Failure>(fn_model(decls[i])->Err_0),
{
    assert(decls.subrange(0, i + 1).last() == decls[i]);
    assert(decls.subrange(0, i + 1).drop_last() =~= decls.subrange(0, i));
}

/// When a prefix of the file does not compile, the file fails as it does.
proof fn lemma_compile_program_extends(decls: Seq<FunctionDecl>, k: int)
    requires
        0 <= k <= decls.len(),
        compile_program(decls.subrange(0, k)) is Err,
    ensures
        compile_program(decls) == compile_program(decls.subrange(0, k)),
    decreases decls.len(),
{
    if k == decls.len() {
        assert(decls.subrange(0, k) =~= decls);
    } else {
        assert(decls.drop_last().subrange(0, k) =~= decls.subrange(0, k));
        lemma_compile_program_extends(decls.drop_last(), k);
    }
}

} // verus!

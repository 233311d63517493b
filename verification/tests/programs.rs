use jang::interpreter::bytecode::compiler::compile_to_bytecode;
use jang::interpreter::bytecode::instruction::{JitCompiledFunction, JitInstruction, JitTerminalInstruction};
use jang::interpreter::bytecode::instruction_block_list::BlockId;
use jang::interpreter::error::InterpreterError;
use jang::interpreter::interpreter::Interpreter;
use jang::parser::ast::ast::JangAst;
use jang::parser::ast::binary_expression::{BinaryExpression, BinaryOp};
use jang::parser::ast::bind_statement::BindStatement;
use jang::parser::ast::block::Block;
use jang::parser::ast::builder_context::AstBuilderContext;
use jang::parser::ast::call_expression::CallExpression;
use jang::parser::ast::expression::{Expression, ExpressionVariant};
use jang::parser::ast::expression_list::ExpressionList;
use jang::parser::ast::function_decl::{FunctionDecl, FunctionParameter, FunctionParameters};
use jang::parser::ast::if_statement::IfStatement;
use jang::parser::ast::jang_file::JangFile;
use jang::parser::ast::literal_expression::LiteralExpression;
use jang::parser::ast::loop_statement::LoopStatement;
use jang::parser::ast::rebind_statement::RebindStatement;
use jang::parser::ast::ret_statement::RetStatement;
use jang::parser::ast::statement::Statement;
use jang::parser::ast::type_expr::primitive::PrimitiveType;
use jang::parser::ast::type_expr::type_expr::TypeExpression;
use jang::parser::ast::unary_experssion::{UnaryExpression, UnaryOp};
use jang::parser::token::ident::Ident;
use jang::parser::token::literal::Literal;

/// Builds ASTs the way a parser would: names are resolved as they are read.
struct Src {
    ctx: AstBuilderContext,
}

impl Src {
    fn new() -> Self {
        Src { ctx: AstBuilderContext::default() }
    }

    fn lit(&mut self, text: &str) -> Expression {
        let v = ExpressionVariant::Literal(LiteralExpression::new(Literal::integral(text)));
        self.ctx.new_expression(v)
    }

    fn var(&mut self, name: &str) -> Expression {
        let r = self.ctx.new_var_ref(Ident::new(name));
        self.ctx.new_expression(ExpressionVariant::VarRef(r))
    }

    fn bin(&mut self, op: BinaryOp, lhs: Expression, rhs: Expression) -> Expression {
        let v = ExpressionVariant::BinaryExpression(BinaryExpression::new(lhs, rhs, op));
        self.ctx.new_expression(v)
    }

    fn not(&mut self, e: Expression) -> Expression {
        let v = ExpressionVariant::UnaryExpression(UnaryExpression::new(e, UnaryOp::LogicalNot));
        self.ctx.new_expression(v)
    }

    fn call_expr(&mut self, name: &str, args: Vec<Expression>) -> CallExpression {
        let target = self.var(name);
        CallExpression::new(target, ExpressionList::new(args))
    }

    fn call(&mut self, name: &str, args: Vec<Expression>) -> Expression {
        let c = self.call_expr(name, args);
        self.ctx.new_expression(ExpressionVariant::CallExpression(c))
    }

    fn call_value(&mut self, target: Expression, args: Vec<Expression>) -> Expression {
        let c = CallExpression::new(target, ExpressionList::new(args));
        self.ctx.new_expression(ExpressionVariant::CallExpression(c))
    }

    fn let_(&mut self, name: &str, e: Expression) -> Statement {
        let d = self.ctx.new_local_decl(Ident::new(name));
        Statement::Bind(BindStatement::new_let(d, None, e))
    }

    fn mut_(&mut self, name: &str, e: Expression) -> Statement {
        let d = self.ctx.new_local_decl(Ident::new(name));
        Statement::Bind(BindStatement::new_mut(d, None, e))
    }

    fn assign(&mut self, name: &str, e: Expression) -> Statement {
        let r = self.ctx.new_var_ref(Ident::new(name));
        Statement::Rebind(RebindStatement::new(r, e))
    }

    fn ret(&mut self, e: Expression) -> Statement {
        Statement::Ret(RetStatement::new(e))
    }

    fn block(&mut self, body: impl FnOnce(&mut Src) -> Vec<Statement>) -> Block {
        self.ctx.enter_block_scope();
        let statements = body(self);
        self.ctx.exit_block_scope();
        Block::new(statements)
    }

    fn if_(&mut self, c: Expression, body: impl FnOnce(&mut Src) -> Vec<Statement>) -> IfStatement {
        let b = self.block(body);
        IfStatement::new(c, b)
    }

    fn if_else(
        &mut self,
        c: Expression,
        body: impl FnOnce(&mut Src) -> Vec<Statement>,
        else_body: impl FnOnce(&mut Src) -> Vec<Statement>,
    ) -> IfStatement {
        let b = self.block(body);
        let e = self.block(else_body);
        IfStatement::new_with_else(c, b, e)
    }

    fn loop_(&mut self, body: impl FnOnce(&mut Src) -> Vec<Statement>) -> Statement {
        let b = self.block(body);
        Statement::LoopStatement(LoopStatement::new(b))
    }

    fn func(
        &mut self,
        name: &str,
        params: &[&str],
        returns_value: bool,
        body: impl FnOnce(&mut Src) -> Vec<Statement>,
    ) -> FunctionDecl {
        let g = self.ctx.new_global_decl(Ident::new(name)).unwrap();
        self.ctx.enter_block_scope();
        let mut ps = Vec::new();
        for p in params {
            let d = self.ctx.new_local_decl(Ident::new(p));
            ps.push(FunctionParameter::new(d, TypeExpression::new_primitive(PrimitiveType::I64)));
        }
        let b = self.block(body);
        self.ctx.exit_block_scope();
        let ret_ty = if returns_value { Some(TypeExpression::new_primitive(PrimitiveType::I64)) } else { None };
        FunctionDecl::new(g, FunctionParameters::new(ps), ret_ty, b)
    }
}

fn run(functions: Vec<FunctionDecl>) -> Result<i64, InterpreterError> {
    let file = JangFile::new(functions, Vec::new());
    let interp = Interpreter::new(&file).unwrap();
    interp.run_main()
}

fn error_text(e: &InterpreterError) -> String {
    e.to_string()
}

fn instr_text(i: &JitInstruction) -> String {
    match i {
        JitInstruction::BinaryOp(op) => format!("binop {:?}", op),
        JitInstruction::UnaryOp(op) => format!("unop {:?}", op),
        JitInstruction::LoadLiteral(Literal::Integral(s)) => format!("lit {}", s),
        JitInstruction::LoadUnit => "unit".to_string(),
        JitInstruction::LoadGlobal(name) => format!("global {}", name.name()),
        JitInstruction::LoadLocal(l) => format!("load {}", l.0),
        JitInstruction::StoreLocal(l) => format!("store {}", l.0),
        JitInstruction::Call(c) => format!("call {}", c.arity),
    }
}

fn term_text(t: &JitTerminalInstruction) -> String {
    match t {
        JitTerminalInstruction::Jump(b) => format!("jump {}", b.0),
        JitTerminalInstruction::ConditionalJump(t) => format!("cjump {} {}", t.true_target.0, t.false_target.0),
        JitTerminalInstruction::Return => "ret".to_string(),
    }
}

fn block_text(f: &JitCompiledFunction, id: usize) -> (Vec<String>, String) {
    let b = f.block(BlockId(id));
    (b.instructions().iter().map(instr_text).collect(), term_text(b.terminator()))
}

fn entry_text(f: &JitCompiledFunction) -> (Vec<String>, String) {
    block_text(f, f.entrypoint().0)
}

fn strs(v: &[&str]) -> Vec<String> {
    v.iter().map(|s| s.to_string()).collect()
}

// ---------------------------------------------------------------------------
// Compiling single functions.
// ---------------------------------------------------------------------------

#[test]
fn empty_function() {
    let mut s = Src::new();
    let f = s.func("f", &[], false, |_| vec![]);
    let c = compile_to_bytecode(&f).unwrap();
    assert_eq!(entry_text(&c), (strs(&["unit"]), "ret".to_string()));
}

#[test]
fn binary_operators() {
    // fn f() -> i64 { ret 2 * (3 + 4) }
    let mut s = Src::new();
    let f = s.func("f", &[], true, |s| {
        let two = s.lit("2");
        let three = s.lit("3");
        let four = s.lit("4");
        let sum = s.bin(BinaryOp::Add, three, four);
        let prod = s.bin(BinaryOp::Mul, two, sum);
        vec![s.ret(prod)]
    });
    let c = compile_to_bytecode(&f).unwrap();
    assert_eq!(
        entry_text(&c),
        (strs(&["lit 2", "lit 3", "lit 4", "binop Add", "binop Mul"]), "ret".to_string())
    );
}

#[test]
fn unary_operator() {
    // fn f() -> bool { ret !(2 == 3) }
    let mut s = Src::new();
    let f = s.func("f", &[], true, |s| {
        let two = s.lit("2");
        let three = s.lit("3");
        let eq = s.bin(BinaryOp::Equal, two, three);
        let n = s.not(eq);
        vec![s.ret(n)]
    });
    let c = compile_to_bytecode(&f).unwrap();
    assert_eq!(
        entry_text(&c),
        (strs(&["lit 2", "lit 3", "binop Equal", "unop LogicalNot"]), "ret".to_string())
    );
}

#[test]
fn if_statement() {
    // fn f() -> i64 { if 0 { ret 1 } else { } ret 2 }
    let mut s = Src::new();
    let f = s.func("f", &[], true, |s| {
        let c = s.lit("0");
        let i = s.if_else(c, |s| {
            let one = s.lit("1");
            vec![s.ret(one)]
        }, |_| vec![]);
        let two = s.lit("2");
        vec![Statement::IfStatement(i), s.ret(two)]
    });
    let c = compile_to_bytecode(&f).unwrap();
    assert_eq!(c.entrypoint().0, 0);
    assert_eq!(block_text(&c, 0), (strs(&["lit 0"]), "cjump 1 2".to_string()));
    assert_eq!(block_text(&c, 1), (strs(&["lit 1"]), "ret".to_string()));
    assert_eq!(block_text(&c, 2), (strs(&[]), "jump 3".to_string()));
    assert_eq!(block_text(&c, 3).1, "ret".to_string());
}

#[test]
fn loop_statement() {
    // fn f() -> i64 { loop { if x { break } } }
    let mut s = Src::new();
    let f = s.func("f", &[], true, |s| {
        let l = s.loop_(|s| {
            let x = s.var("x");
            let i = s.if_(x, |_| vec![Statement::Break]);
            vec![Statement::IfStatement(i)]
        });
        vec![l]
    });
    let c = compile_to_bytecode(&f).unwrap();
    assert_eq!(block_text(&c, 0), (strs(&[]), "jump 1".to_string()));
    assert_eq!(block_text(&c, 1), (strs(&["global x"]), "cjump 3 4".to_string()));
    assert_eq!(block_text(&c, 3), (strs(&[]), "jump 2".to_string()));
    assert_eq!(block_text(&c, 4), (strs(&[]), "jump 5".to_string()));
    assert_eq!(block_text(&c, 5), (strs(&[]), "jump 1".to_string()));
    assert_eq!(block_text(&c, 2).1, "ret".to_string());
}

#[test]
fn lexical_scoping() {
    // fn f() -> i64 { let x = 1 { let x = 2 { let x = 3 } ret x } }
    let mut s = Src::new();
    let f = s.func("f", &[], true, |s| {
        let one = s.lit("1");
        let outer = s.let_("x", one);
        let inner = s.block(|s| {
            let two = s.lit("2");
            let mid = s.let_("x", two);
            let innermost = s.block(|s| {
                let three = s.lit("3");
                vec![s.let_("x", three)]
            });
            let x = s.var("x");
            vec![mid, Statement::Block(innermost), s.ret(x)]
        });
        vec![outer, Statement::Block(inner)]
    });
    let c = compile_to_bytecode(&f).unwrap();
    assert_eq!(
        entry_text(&c),
        (strs(&["lit 1", "store 0", "lit 2", "store 1", "lit 3", "store 2", "load 1"]), "ret".to_string())
    );
}

#[test]
fn function_call_no_args() {
    // fn f() { func() }
    let mut s = Src::new();
    let f = s.func("f", &[], false, |s| {
        let c = s.call_expr("func", vec![]);
        vec![Statement::CallStatement(c)]
    });
    let c = compile_to_bytecode(&f).unwrap();
    assert_eq!(entry_text(&c), (strs(&["global func", "call 0", "unit"]), "ret".to_string()));
}

#[test]
fn store_and_load_local() {
    // fn f() -> i64 { let x = 1 + 2 ret x }
    let mut s = Src::new();
    let f = s.func("f", &[], true, |s| {
        let one = s.lit("1");
        let two = s.lit("2");
        let sum = s.bin(BinaryOp::Add, one, two);
        let b = s.let_("x", sum);
        let x = s.var("x");
        vec![b, s.ret(x)]
    });
    let c = compile_to_bytecode(&f).unwrap();
    assert_eq!(
        entry_text(&c),
        (strs(&["lit 1", "lit 2", "binop Add", "store 0", "load 0"]), "ret".to_string())
    );
}

#[test]
fn store_and_load_mutable_local() {
    // fn f() -> i64 { mut x = 1 + 2 ret x }
    let mut s = Src::new();
    let f = s.func("f", &[], true, |s| {
        let one = s.lit("1");
        let two = s.lit("2");
        let sum = s.bin(BinaryOp::Add, one, two);
        let b = s.mut_("x", sum);
        let x = s.var("x");
        vec![b, s.ret(x)]
    });
    let c = compile_to_bytecode(&f).unwrap();
    assert_eq!(
        entry_text(&c),
        (strs(&["lit 1", "lit 2", "binop Add", "store 0", "load 0"]), "ret".to_string())
    );
}

#[test]
fn rebind_mutable_local() {
    // fn f() -> i64 { mut x = 1 x = 70 ret x }
    let mut s = Src::new();
    let f = s.func("f", &[], true, |s| {
        let one = s.lit("1");
        let b = s.mut_("x", one);
        let seventy = s.lit("70");
        let a = s.assign("x", seventy);
        let x = s.var("x");
        vec![b, a, s.ret(x)]
    });
    let c = compile_to_bytecode(&f).unwrap();
    assert_eq!(
        entry_text(&c),
        (strs(&["lit 1", "store 0", "lit 70", "store 0", "load 0"]), "ret".to_string())
    );
}

#[test]
fn cannot_rebind_immutable_local() {
    // fn f() -> i64 { let x = 1 x = 70 ret x }
    let mut s = Src::new();
    let f = s.func("f", &[], true, |s| {
        let one = s.lit("1");
        let b = s.let_("x", one);
        let seventy = s.lit("70");
        let a = s.assign("x", seventy);
        let x = s.var("x");
        vec![b, a, s.ret(x)]
    });
    assert!(compile_to_bytecode(&f).is_err());
}

#[test]
fn cannot_rebind_unknown_local() {
    // fn f() -> i64 { mut x = 1 y = 70 ret x }
    let mut s = Src::new();
    let f = s.func("f", &[], true, |s| {
        let one = s.lit("1");
        let b = s.mut_("x", one);
        let seventy = s.lit("70");
        let a = s.assign("y", seventy);
        let x = s.var("x");
        vec![b, a, s.ret(x)]
    });
    assert!(compile_to_bytecode(&f).is_err());
}

#[test]
fn rebinding_an_immutable_local_names_it() {
    let mut s = Src::new();
    let f = s.func("f", &[], true, |s| {
        let one = s.lit("1");
        let b = s.let_("x", one);
        let seventy = s.lit("70");
        let a = s.assign("x", seventy);
        let x = s.var("x");
        vec![b, a, s.ret(x)]
    });
    let e = match compile_to_bytecode(&f) {
        Err(e) => e,
        Ok(_) => panic!("compiled"),
    };
    assert_eq!(error_text(&e), "in jit compiler: Cannot rebind immutable variable x");
}

#[test]
fn rebinding_an_unknown_local_names_it() {
    let mut s = Src::new();
    let f = s.func("f", &[], true, |s| {
        let one = s.lit("1");
        let b = s.mut_("x", one);
        let seventy = s.lit("70");
        let a = s.assign("y", seventy);
        let x = s.var("x");
        vec![b, a, s.ret(x)]
    });
    let e = match compile_to_bytecode(&f) {
        Err(e) => e,
        Ok(_) => panic!("compiled"),
    };
    assert_eq!(error_text(&e), "in jit compiler: Unknown variable y");
}

#[test]
fn break_outside_a_loop_is_refused() {
    let mut s = Src::new();
    let f = s.func("f", &[], true, |s| {
        let one = s.lit("1");
        vec![Statement::Break, s.ret(one)]
    });
    let e = match compile_to_bytecode(&f) {
        Err(e) => e,
        Ok(_) => panic!("compiled"),
    };
    assert_eq!(error_text(&e), "in jit compiler: Cannot break outside of a loop");
}

#[test]
fn statement_after_return_is_refused() {
    let mut s = Src::new();
    let f = s.func("f", &[], true, |s| {
        let one = s.lit("1");
        let two = s.lit("2");
        vec![s.ret(one), s.ret(two)]
    });
    let e = match compile_to_bytecode(&f) {
        Err(e) => e,
        Ok(_) => panic!("compiled"),
    };
    assert!(error_text(&e).starts_with("in jit compiler: jit compilation failed: unreachable statement"));
}

#[test]
fn call_with_multiple_args() {
    // fn f() { func(1, 2, 3) }
    let mut s = Src::new();
    let f = s.func("f", &[], false, |s| {
        let a = s.lit("1");
        let b = s.lit("2");
        let c = s.lit("3");
        let call = s.call_expr("func", vec![a, b, c]);
        vec![Statement::CallStatement(call)]
    });
    let c = compile_to_bytecode(&f).unwrap();
    assert_eq!(
        entry_text(&c),
        (strs(&["lit 1", "lit 2", "lit 3", "global func", "call 3", "unit"]), "ret".to_string())
    );
}

#[test]
fn call_argument_eval_order() {
    // fn f() { func(1 + 2, 3 + 4) }
    let mut s = Src::new();
    let f = s.func("f", &[], false, |s| {
        let a = s.lit("1");
        let b = s.lit("2");
        let ab = s.bin(BinaryOp::Add, a, b);
        let c = s.lit("3");
        let d = s.lit("4");
        let cd = s.bin(BinaryOp::Add, c, d);
        let call = s.call_expr("func", vec![ab, cd]);
        vec![Statement::CallStatement(call)]
    });
    let c = compile_to_bytecode(&f).unwrap();
    assert_eq!(
        entry_text(&c),
        (
            strs(&["lit 1", "lit 2", "binop Add", "lit 3", "lit 4", "binop Add", "global func", "call 2", "unit"]),
            "ret".to_string()
        )
    );
}

#[test]
fn fn_decl_with_parameters() {
    // fn f(a: i64, b: i64, c: i64) { ret a + (b + c) }
    let mut s = Src::new();
    let f = s.func("f", &["a", "b", "c"], false, |s| {
        let a = s.var("a");
        let b = s.var("b");
        let c = s.var("c");
        let bc = s.bin(BinaryOp::Add, b, c);
        let sum = s.bin(BinaryOp::Add, a, bc);
        vec![s.ret(sum)]
    });
    let c = compile_to_bytecode(&f).unwrap();
    assert_eq!(
        entry_text(&c),
        (
            strs(&["store 0", "store 1", "store 2", "load 2", "load 1", "load 0", "binop Add", "binop Add"]),
            "ret".to_string()
        )
    );
}

#[test]
fn values_as_functions() {
    // fn f() { let x = global_fn ret x(1) }
    let mut s = Src::new();
    let f = s.func("f", &[], false, |s| {
        let g = s.var("global_fn");
        let b = s.let_("x", g);
        let one = s.lit("1");
        let x = s.var("x");
        let call = s.call_value(x, vec![one]);
        vec![b, s.ret(call)]
    });
    let c = compile_to_bytecode(&f).unwrap();
    assert_eq!(
        entry_text(&c),
        (strs(&["global global_fn", "store 0", "lit 1", "load 0", "call 1"]), "ret".to_string())
    );
}

#[test]
fn simple_tail_recursion_no_args() {
    // fn f() -> i64 { ret f() }
    let mut s = Src::new();
    let f = s.func("f", &[], true, |s| {
        let call = s.call("f", vec![]);
        vec![s.ret(call)]
    });
    let c = compile_to_bytecode(&f).unwrap();
    assert_eq!(entry_text(&c), (strs(&[]), "jump 0".to_string()));
}

#[test]
fn simple_tail_recursion_with_args() {
    // fn f(a: i64, b: i64) -> i64 { ret f(a, b) }
    let mut s = Src::new();
    let f = s.func("f", &["a", "b"], true, |s| {
        let a = s.var("a");
        let b = s.var("b");
        let call = s.call("f", vec![a, b]);
        vec![s.ret(call)]
    });
    let c = compile_to_bytecode(&f).unwrap();
    assert_eq!(entry_text(&c), (strs(&["store 0", "store 1", "load 1", "load 0"]), "jump 0".to_string()));
}

// ---------------------------------------------------------------------------
// Running programs.
// ---------------------------------------------------------------------------

#[test]
fn calls_main() {
    let mut s = Src::new();
    let main = s.func("main", &[], true, |s| {
        let one = s.lit("1");
        vec![s.ret(one)]
    });
    assert_eq!(run(vec![main]).unwrap(), 1);
}

#[test]
fn fn_call() {
    let mut s = Src::new();
    let other = s.func("other", &[], true, |s| {
        let two = s.lit("2");
        vec![s.ret(two)]
    });
    let main = s.func("main", &[], true, |s| {
        let one = s.lit("1");
        let o = s.call("other", vec![]);
        let sum = s.bin(BinaryOp::Add, one, o);
        vec![s.ret(sum)]
    });
    assert_eq!(run(vec![other, main]).unwrap(), 3);
}

#[test]
fn locals() {
    let mut s = Src::new();
    let add_one = s.func("add_one", &["x"], true, |s| {
        let x = s.var("x");
        let one = s.lit("1");
        let sum = s.bin(BinaryOp::Add, x, one);
        vec![s.ret(sum)]
    });
    let main = s.func("main", &[], true, |s| {
        let one = s.lit("1");
        let a = s.call("add_one", vec![one]);
        let two = s.lit("2");
        let two_b = s.lit("2");
        let b = s.call("add_one", vec![two_b]);
        let prod = s.bin(BinaryOp::Mul, two, b);
        let sum = s.bin(BinaryOp::Add, a, prod);
        vec![s.ret(sum)]
    });
    assert_eq!(run(vec![add_one, main]).unwrap(), 8);
}

#[test]
fn integer_arithmetic() {
    // ret (8 + 9 % 5) / 2 * (7 - 3) + 6 - 5
    let mut s = Src::new();
    let main = s.func("main", &[], true, |s| {
        let eight = s.lit("8");
        let nine = s.lit("9");
        let five = s.lit("5");
        let m = s.bin(BinaryOp::Mod, nine, five);
        let p = s.bin(BinaryOp::Add, eight, m);
        let two = s.lit("2");
        let d = s.bin(BinaryOp::Div, p, two);
        let seven = s.lit("7");
        let three = s.lit("3");
        let diff = s.bin(BinaryOp::Sub, seven, three);
        let prod = s.bin(BinaryOp::Mul, d, diff);
        let six = s.lit("6");
        let plus = s.bin(BinaryOp::Add, prod, six);
        let five_b = s.lit("5");
        let r = s.bin(BinaryOp::Sub, plus, five_b);
        vec![s.ret(r)]
    });
    assert_eq!(run(vec![main]).unwrap(), 25);
}

#[test]
fn unbound_variable_throws_error() {
    let mut s = Src::new();
    let g = s.func("g", &[], true, |s| {
        let x = s.var("x");
        vec![s.ret(x)]
    });
    let f = s.func("f", &["x"], true, |s| {
        let c = s.call("g", vec![]);
        vec![s.ret(c)]
    });
    let main = s.func("main", &[], true, |s| {
        let one = s.lit("1");
        let c = s.call("f", vec![one]);
        vec![s.ret(c)]
    });
    let e = run(vec![g, f, main]).unwrap_err();
    assert!(error_text(&e).contains("unbound variable"));
}

#[test]
fn let_bindings() {
    let mut s = Src::new();
    let main = s.func("main", &[], true, |s| {
        let one = s.lit("1");
        let bx = s.let_("x", one);
        let two = s.lit("2");
        let by = s.let_("y", two);
        let x = s.var("x");
        let y = s.var("y");
        let sum = s.bin(BinaryOp::Add, x, y);
        vec![bx, by, s.ret(sum)]
    });
    assert_eq!(run(vec![main]).unwrap(), 3);
}

#[test]
fn divide_by_zero() {
    let mut s = Src::new();
    let main = s.func("main", &[], true, |s| {
        let one = s.lit("1");
        let zero = s.lit("0");
        let d = s.bin(BinaryOp::Div, one, zero);
        vec![s.ret(d)]
    });
    let e = run(vec![main]).unwrap_err();
    assert!(error_text(&e).contains("division by zero"));
}

fn eq_expr(s: &mut Src, a: &str, b: &str, op: BinaryOp) -> Expression {
    let x = s.lit(a);
    let y = s.lit(b);
    s.bin(op, x, y)
}

#[test]
fn if_body() {
    let mut s = Src::new();
    let main = s.func("main", &[], true, |s| {
        let c = eq_expr(s, "1", "1", BinaryOp::Equal);
        let i = s.if_(c, |s| {
            let one = s.lit("1");
            vec![s.ret(one)]
        });
        let two = s.lit("2");
        vec![Statement::IfStatement(i), s.ret(two)]
    });
    assert_eq!(run(vec![main]).unwrap(), 1);
}

#[test]
fn else_body() {
    let mut s = Src::new();
    let main = s.func("main", &[], true, |s| {
        let c = eq_expr(s, "1", "1", BinaryOp::NotEqual);
        let i = s.if_else(c, |s| {
            let one = s.lit("1");
            vec![s.ret(one)]
        }, |s| {
            let two = s.lit("2");
            vec![s.ret(two)]
        });
        let three = s.lit("3");
        vec![Statement::IfStatement(i), s.ret(three)]
    });
    assert_eq!(run(vec![main]).unwrap(), 2);
}

fn else_if_program(second: BinaryOp) -> FunctionDecl {
    let mut s = Src::new();
    s.func("main", &[], true, |s| {
        let c1 = eq_expr(s, "1", "1", BinaryOp::NotEqual);
        let b1 = s.block(|s| {
            let one = s.lit("1");
            vec![s.ret(one)]
        });
        let c2 = eq_expr(s, "1", "1", second);
        let inner = s.if_else(c2, |s| {
            let two = s.lit("2");
            vec![s.ret(two)]
        }, |s| {
            let three = s.lit("3");
            vec![s.ret(three)]
        });
        let i = IfStatement::new_with_else_if(c1, b1, inner);
        let four = s.lit("4");
        vec![Statement::IfStatement(i), s.ret(four)]
    })
}

#[test]
fn else_if_body() {
    assert_eq!(run(vec![else_if_program(BinaryOp::Equal)]).unwrap(), 2);
}

#[test]
fn else_if_else_body() {
    assert_eq!(run(vec![else_if_program(BinaryOp::NotEqual)]).unwrap(), 3);
}

#[test]
fn fibonacci() {
    let mut s = Src::new();
    let fib = s.func("fib", &["n"], true, |s| {
        let n = s.var("n");
        let two = s.lit("2");
        let c = s.bin(BinaryOp::LessThan, n, two);
        let i = s.if_(c, |s| {
            let one = s.lit("1");
            vec![s.ret(one)]
        });
        let n1 = s.var("n");
        let one = s.lit("1");
        let a = s.bin(BinaryOp::Sub, n1, one);
        let fa = s.call("fib", vec![a]);
        let n2 = s.var("n");
        let two_b = s.lit("2");
        let b = s.bin(BinaryOp::Sub, n2, two_b);
        let fb = s.call("fib", vec![b]);
        let sum = s.bin(BinaryOp::Add, fa, fb);
        vec![Statement::IfStatement(i), s.ret(sum)]
    });
    let main = s.func("main", &[], true, |s| {
        let nine = s.lit("9");
        let c = s.call("fib", vec![nine]);
        vec![s.ret(c)]
    });
    assert_eq!(run(vec![fib, main]).unwrap(), 55);
}

#[test]
fn deeply_recursive_function() {
    let mut s = Src::new();
    let rec = s.func("rec", &["n"], true, |s| {
        let c = {
            let n = s.var("n");
            let zero = s.lit("0");
            s.bin(BinaryOp::Equal, n, zero)
        };
        let i = s.if_(c, |s| {
            let zero = s.lit("0");
            vec![s.ret(zero)]
        });
        let n = s.var("n");
        let one = s.lit("1");
        let d = s.bin(BinaryOp::Sub, n, one);
        let r = s.call("rec", vec![d]);
        let one_b = s.lit("1");
        let sum = s.bin(BinaryOp::Add, r, one_b);
        vec![Statement::IfStatement(i), s.ret(sum)]
    });
    let main = s.func("main", &[], true, |s| {
        let n = s.lit("500");
        let c = s.call("rec", vec![n]);
        vec![s.ret(c)]
    });
    assert_eq!(run(vec![rec, main]).unwrap(), 500);
}

#[test]
fn errors_if_main_does_not_return_a_value() {
    let mut s = Src::new();
    let main = s.func("main", &[], false, |_| vec![]);
    let e = run(vec![main]).unwrap_err();
    assert!(error_text(&e).contains("main must return a value"));
}

#[test]
fn main_returning_a_bool_names_the_value() {
    let mut s = Src::new();
    let main = s.func("main", &[], true, |s| {
        let one = s.lit("1");
        let two = s.lit("2");
        let c = s.bin(BinaryOp::LessThan, one, two);
        vec![s.ret(c)]
    });
    let e = run(vec![main]).unwrap_err();
    assert_eq!(error_text(&e), "value error: invalid return value from main: Primitive(Bool(true))");
}

#[test]
fn missing_main_is_an_error() {
    let mut s = Src::new();
    let f = s.func("f", &[], false, |_| vec![]);
    let e = run(vec![f]).unwrap_err();
    assert!(matches!(e, InterpreterError::Generic(_)));
    assert!(error_text(&e).contains("main function not found"));
}

#[test]
fn lexical_scope() {
    let mut s = Src::new();
    let main = s.func("main", &[], true, |s| {
        let one = s.lit("1");
        let bx = s.let_("x", one);
        let inner = s.block(|s| {
            let two = s.lit("2");
            let bx2 = s.let_("x", two);
            let c = eq_expr(s, "0", "0", BinaryOp::Equal);
            let i = s.if_(c, |s| {
                let x = s.var("x");
                vec![s.ret(x)]
            });
            vec![bx2, Statement::IfStatement(i)]
        });
        let x = s.var("x");
        vec![bx, Statement::Block(inner), s.ret(x)]
    });
    assert_eq!(run(vec![main]).unwrap(), 2);
}

#[test]
fn deeply_nested_lexical_scope() {
    let mut s = Src::new();
    let main = s.func("main", &[], true, |s| {
        let zero = s.lit("0");
        let bx = s.let_("x", zero);
        let five = s.lit("5");
        let by = s.let_("y", five);
        let inner = s.block(|s| {
            let c = eq_expr(s, "1", "1", BinaryOp::Equal);
            let bx2 = s.let_("x", c);
            let b1 = s.block(|s| {
                let b2 = s.block(|s| {
                    let x = s.var("x");
                    let i = s.if_(x, |s| {
                        let y = s.var("y");
                        vec![s.ret(y)]
                    });
                    vec![Statement::IfStatement(i)]
                });
                vec![Statement::Block(b2)]
            });
            vec![bx2, Statement::Block(b1)]
        });
        let zero_b = s.lit("0");
        vec![bx, by, Statement::Block(inner), s.ret(zero_b)]
    });
    assert_eq!(run(vec![main]).unwrap(), 5);
}

#[test]
fn let_in_inner_scope_does_not_affect_outer() {
    let mut s = Src::new();
    let main = s.func("main", &[], true, |s| {
        let one = s.lit("1");
        let bx = s.let_("x", one);
        let inner = s.block(|s| {
            let zero = s.lit("0");
            vec![s.let_("x", zero)]
        });
        let x = s.var("x");
        vec![bx, Statement::Block(inner), s.ret(x)]
    });
    assert_eq!(run(vec![main]).unwrap(), 1);
}

fn sub_fn(s: &mut Src) -> FunctionDecl {
    s.func("sub", &["x", "y"], true, |s| {
        let x = s.var("x");
        let y = s.var("y");
        let d = s.bin(BinaryOp::Sub, x, y);
        vec![s.ret(d)]
    })
}

#[test]
fn function_call_preserves_argument_order_two_args() {
    let mut s = Src::new();
    let sub = sub_fn(&mut s);
    let main = s.func("main", &[], true, |s| {
        let ten = s.lit("10");
        let three = s.lit("3");
        let c = s.call("sub", vec![ten, three]);
        vec![s.ret(c)]
    });
    assert_eq!(run(vec![sub, main]).unwrap(), 7);
}

#[test]
fn function_call_preserves_argument_order_three_args() {
    let mut s = Src::new();
    let combine = s.func("combine", &["a", "b", "c"], true, |s| {
        let a = s.var("a");
        let h = s.lit("100");
        let ah = s.bin(BinaryOp::Mul, a, h);
        let b = s.var("b");
        let t = s.lit("10");
        let bt = s.bin(BinaryOp::Mul, b, t);
        let sum = s.bin(BinaryOp::Add, ah, bt);
        let c = s.var("c");
        let total = s.bin(BinaryOp::Add, sum, c);
        vec![s.ret(total)]
    });
    let main = s.func("main", &[], true, |s| {
        let one = s.lit("1");
        let two = s.lit("2");
        let three = s.lit("3");
        let c = s.call("combine", vec![one, two, three]);
        vec![s.ret(c)]
    });
    assert_eq!(run(vec![combine, main]).unwrap(), 123);
}

#[test]
fn nested_calls_preserve_argument_order() {
    let mut s = Src::new();
    let sub = sub_fn(&mut s);
    let id = s.func("id", &["x"], true, |s| {
        let x = s.var("x");
        vec![s.ret(x)]
    });
    let main = s.func("main", &[], true, |s| {
        let ten = s.lit("10");
        let a = s.call("id", vec![ten]);
        let three = s.lit("3");
        let b = s.call("id", vec![three]);
        let c = s.call("sub", vec![a, b]);
        vec![s.ret(c)]
    });
    assert_eq!(run(vec![sub, id, main]).unwrap(), 7);
}

#[test]
fn arithmetic_value_type_mismatch() {
    let mut s = Src::new();
    let test = s.func("test", &["x"], true, |s| {
        let x = s.var("x");
        let m = s.var("main");
        let sum = s.bin(BinaryOp::Add, x, m);
        vec![s.ret(sum)]
    });
    let main = s.func("main", &[], true, |s| {
        let one = s.lit("1");
        let c = s.call("test", vec![one]);
        vec![s.ret(c)]
    });
    match run(vec![test, main]) {
        Err(InterpreterError::Value(m)) => assert!(m.contains("add")),
        other => panic!("expected a value error, got {:?}", other),
    }
}

#[test]
fn reassign_in_if_statement() {
    let mut s = Src::new();
    let test = s.func("test", &["x"], true, |s| {
        let three = s.lit("3");
        let m = s.mut_("ret_val", three);
        let x = s.var("x");
        let two = s.lit("2");
        let c = s.bin(BinaryOp::Equal, x, two);
        let i = s.if_(c, |s| {
            let h = s.lit("100");
            vec![s.assign("ret_val", h)]
        });
        let r = s.var("ret_val");
        vec![m, Statement::IfStatement(i), s.ret(r)]
    });
    let main = s.func("main", &[], true, |s| {
        let one = s.lit("1");
        let a = s.call("test", vec![one]);
        let two = s.lit("2");
        let b = s.call("test", vec![two]);
        let sum = s.bin(BinaryOp::Add, a, b);
        vec![s.ret(sum)]
    });
    assert_eq!(run(vec![test, main]).unwrap(), 103);
}

#[test]
fn loop_break() {
    let mut s = Src::new();
    let test = s.func("test", &["x"], true, |s| {
        let x = s.var("x");
        let my = s.mut_("y", x);
        let one = s.lit("1");
        let macc = s.mut_("acc", one);
        let l = s.loop_(|s| {
            let y = s.var("y");
            let zero = s.lit("0");
            let c = s.bin(BinaryOp::Equal, y, zero);
            let i = s.if_else(c, |_| vec![Statement::Break], |s| {
                let y = s.var("y");
                let one = s.lit("1");
                let d = s.bin(BinaryOp::Sub, y, one);
                vec![s.assign("y", d)]
            });
            let acc = s.var("acc");
            let two = s.lit("2");
            let p = s.bin(BinaryOp::Mul, acc, two);
            let a = s.assign("acc", p);
            vec![Statement::IfStatement(i), a]
        });
        let acc = s.var("acc");
        vec![my, macc, l, s.ret(acc)]
    });
    let main = s.func("main", &[], true, |s| {
        let five = s.lit("5");
        let c = s.call("test", vec![five]);
        vec![s.ret(c)]
    });
    assert_eq!(run(vec![test, main]).unwrap(), 32);
}

#[test]
fn double_loop() {
    let mut s = Src::new();
    let test = s.func("test", &["width", "height"], true, |s| {
        let w = s.var("width");
        let z1 = s.lit("0");
        let c1 = s.bin(BinaryOp::Equal, w, z1);
        let h = s.var("height");
        let z2 = s.lit("0");
        let c2 = s.bin(BinaryOp::Equal, h, z2);
        let c = s.bin(BinaryOp::LogicalOr, c1, c2);
        let guard = s.if_(c, |s| {
            let zero = s.lit("0");
            vec![s.ret(zero)]
        });
        let z3 = s.lit("0");
        let mrow = s.mut_("row", z3);
        let z4 = s.lit("0");
        let macc = s.mut_("acc", z4);
        let outer = s.loop_(|s| {
            let z = s.lit("0");
            let mcol = s.mut_("col", z);
            let inner = s.loop_(|s| {
                let acc = s.var("acc");
                let one = s.lit("1");
                let p = s.bin(BinaryOp::Add, acc, one);
                let a1 = s.assign("acc", p);
                let col = s.var("col");
                let one_b = s.lit("1");
                let q = s.bin(BinaryOp::Add, col, one_b);
                let a2 = s.assign("col", q);
                let col2 = s.var("col");
                let w = s.var("width");
                let c = s.bin(BinaryOp::Equal, col2, w);
                let i = s.if_(c, |_| vec![Statement::Break]);
                vec![a1, a2, Statement::IfStatement(i)]
            });
            let row = s.var("row");
            let one = s.lit("1");
            let r = s.bin(BinaryOp::Add, row, one);
            let a = s.assign("row", r);
            let row2 = s.var("row");
            let h = s.var("height");
            let c = s.bin(BinaryOp::Equal, row2, h);
            let i = s.if_(c, |_| vec![Statement::Break]);
            vec![mcol, inner, a, Statement::IfStatement(i)]
        });
        let acc = s.var("acc");
        vec![Statement::IfStatement(guard), mrow, macc, outer, s.ret(acc)]
    });
    let main = s.func("main", &[], true, |s| {
        let ten = s.lit("10");
        let thirteen = s.lit("13");
        let c = s.call("test", vec![ten, thirteen]);
        vec![s.ret(c)]
    });
    assert_eq!(run(vec![test, main]).unwrap(), 130);
}

#[test]
fn project_euler_problem1() {
    let mut s = Src::new();
    let solve = s.func("solve", &["n", "acc"], true, |s| {
        let n = s.var("n");
        let k = s.lit("1000");
        let c = s.bin(BinaryOp::Equal, n, k);
        let i1 = s.if_(c, |s| {
            let acc = s.var("acc");
            vec![s.ret(acc)]
        });
        let mut guards = Vec::new();
        for d in ["3", "5"] {
            let n = s.var("n");
            let dd = s.lit(d);
            let m = s.bin(BinaryOp::Mod, n, dd);
            let zero = s.lit("0");
            let c = s.bin(BinaryOp::Equal, m, zero);
            let i = s.if_(c, |s| {
                let n = s.var("n");
                let one = s.lit("1");
                let n1 = s.bin(BinaryOp::Add, n, one);
                let acc = s.var("acc");
                let n2 = s.var("n");
                let a = s.bin(BinaryOp::Add, acc, n2);
                let call = s.call("solve", vec![n1, a]);
                vec![s.ret(call)]
            });
            guards.push(Statement::IfStatement(i));
        }
        let n = s.var("n");
        let one = s.lit("1");
        let n1 = s.bin(BinaryOp::Add, n, one);
        let acc = s.var("acc");
        let call = s.call("solve", vec![n1, acc]);
        let mut body = vec![Statement::IfStatement(i1)];
        body.extend(guards);
        body.push(s.ret(call));
        body
    });
    let main = s.func("main", &[], true, |s| {
        let a = s.lit("0");
        let b = s.lit("0");
        let c = s.call("solve", vec![a, b]);
        vec![s.ret(c)]
    });
    assert_eq!(run(vec![solve, main]).unwrap(), 233168);
}

#[test]
fn project_euler_problem2() {
    let mut s = Src::new();
    let solve = s.func("solve", &["t0", "t1", "acc"], true, |s| {
        let t0 = s.var("t0");
        let lim = s.lit("4000000");
        let c = s.bin(BinaryOp::GreaterThan, t0, lim);
        let i1 = s.if_(c, |s| {
            let acc = s.var("acc");
            vec![s.ret(acc)]
        });
        let t1 = s.var("t1");
        let t0b = s.var("t0");
        let sum = s.bin(BinaryOp::Add, t1, t0b);
        let b = s.let_("t2", sum);
        let t0c = s.var("t0");
        let two = s.lit("2");
        let m = s.bin(BinaryOp::Mod, t0c, two);
        let zero = s.lit("0");
        let c2 = s.bin(BinaryOp::Equal, m, zero);
        let i2 = s.if_(c2, |s| {
            let t1 = s.var("t1");
            let t2 = s.var("t2");
            let acc = s.var("acc");
            let t0 = s.var("t0");
            let a = s.bin(BinaryOp::Add, acc, t0);
            let call = s.call("solve", vec![t1, t2, a]);
            vec![s.ret(call)]
        });
        let t1 = s.var("t1");
        let t2 = s.var("t2");
        let acc = s.var("acc");
        let call = s.call("solve", vec![t1, t2, acc]);
        vec![Statement::IfStatement(i1), b, Statement::IfStatement(i2), s.ret(call)]
    });
    let main = s.func("main", &[], true, |s| {
        let a = s.lit("0");
        let b = s.lit("1");
        let c = s.lit("0");
        let call = s.call("solve", vec![a, b, c]);
        vec![s.ret(call)]
    });
    assert_eq!(run(vec![solve, main]).unwrap(), 4613732);
}

#[test]
fn project_euler_problem3() {
    let mut s = Src::new();
    let lpf = s.func("largest_prime_factor", &["n"], true, |s| {
        let n = s.var("n");
        let mn = s.mut_("n2", n);
        let two = s.lit("2");
        let mp = s.mut_("p", two);
        let l = s.loop_(|s| {
            let n2 = s.var("n2");
            let one = s.lit("1");
            let c1 = s.bin(BinaryOp::Equal, n2, one);
            let b1 = s.block(|s| {
                let p = s.var("p");
                vec![s.ret(p)]
            });
            let n2b = s.var("n2");
            let p = s.var("p");
            let m = s.bin(BinaryOp::Mod, n2b, p);
            let zero = s.lit("0");
            let c2 = s.bin(BinaryOp::Equal, m, zero);
            let inner = s.if_else(c2, |s| {
                let n2 = s.var("n2");
                let p = s.var("p");
                let d = s.bin(BinaryOp::Div, n2, p);
                vec![s.assign("n2", d)]
            }, |s| {
                let p = s.var("p");
                let one = s.lit("1");
                let q = s.bin(BinaryOp::Add, p, one);
                vec![s.assign("p", q)]
            });
            vec![Statement::IfStatement(IfStatement::new_with_else_if(c1, b1, inner))]
        });
        vec![mn, mp, l]
    });
    let main = s.func("main", &[], true, |s| {
        let n = s.lit("600851475143");
        let c = s.call("largest_prime_factor", vec![n]);
        vec![s.ret(c)]
    });
    assert_eq!(run(vec![lpf, main]).unwrap(), 6857);
}

#[test]
fn project_euler_problem5() {
    let mut s = Src::new();
    let gcd = s.func("gcd", &["a", "b"], true, |s| {
        let b = s.var("b");
        let zero = s.lit("0");
        let c1 = s.bin(BinaryOp::Equal, b, zero);
        let b1 = s.block(|s| {
            let a = s.var("a");
            vec![s.ret(a)]
        });
        let a = s.var("a");
        let b = s.var("b");
        let c2 = s.bin(BinaryOp::LessThan, a, b);
        let inner = s.if_else(c2, |s| {
            let b = s.var("b");
            let a = s.var("a");
            let call = s.call("gcd", vec![b, a]);
            vec![s.ret(call)]
        }, |s| {
            let a = s.var("a");
            let b = s.var("b");
            let d = s.bin(BinaryOp::Div, a, b);
            let ld = s.let_("d", d);
            let d = s.var("d");
            let b = s.var("b");
            let c = s.bin(BinaryOp::Mul, d, b);
            let lc = s.let_("c", c);
            let b = s.var("b");
            let a = s.var("a");
            let c = s.var("c");
            let diff = s.bin(BinaryOp::Sub, a, c);
            let call = s.call("gcd", vec![b, diff]);
            vec![ld, lc, s.ret(call)]
        });
        vec![Statement::IfStatement(IfStatement::new_with_else_if(c1, b1, inner))]
    });
    let solve = s.func("solve", &["n"], true, |s| {
        let one = s.lit("1");
        let ml = s.mut_("l", one);
        let two = s.lit("2");
        let mi = s.mut_("i", two);
        let lp = s.loop_(|s| {
            let i = s.var("i");
            let l = s.var("l");
            let i2 = s.var("i");
            let g = s.call("gcd", vec![l, i2]);
            let q = s.bin(BinaryOp::Div, i, g);
            let l2 = s.var("l");
            let p = s.bin(BinaryOp::Mul, q, l2);
            let a1 = s.assign("l", p);
            let i = s.var("i");
            let one = s.lit("1");
            let inc = s.bin(BinaryOp::Add, i, one);
            let a2 = s.assign("i", inc);
            let i = s.var("i");
            let n = s.var("n");
            let c = s.bin(BinaryOp::GreaterThan, i, n);
            let br = s.if_(c, |_| vec![Statement::Break]);
            vec![a1, a2, Statement::IfStatement(br)]
        });
        let l = s.var("l");
        vec![ml, mi, lp, s.ret(l)]
    });
    let main = s.func("main", &[], true, |s| {
        let n = s.lit("20");
        let c = s.call("solve", vec![n]);
        vec![s.ret(c)]
    });
    assert_eq!(run(vec![gcd, solve, main]).unwrap(), 232792560);
}

#[test]
fn project_euler_problem6() {
    let mut s = Src::new();
    let sos = s.func("sum_of_squares", &["n"], true, |s| {
        let z = s.lit("0");
        let ms = s.mut_("sum", z);
        let one = s.lit("1");
        let mi = s.mut_("i", one);
        let lp = s.loop_(|s| {
            let sum = s.var("sum");
            let i = s.var("i");
            let i2 = s.var("i");
            let sq = s.bin(BinaryOp::Mul, i, i2);
            let t = s.bin(BinaryOp::Add, sum, sq);
            let a1 = s.assign("sum", t);
            let i = s.var("i");
            let n = s.var("n");
            let c = s.bin(BinaryOp::Equal, i, n);
            let r = s.if_(c, |s| {
                let sum = s.var("sum");
                vec![s.ret(sum)]
            });
            let i = s.var("i");
            let one = s.lit("1");
            let inc = s.bin(BinaryOp::Add, i, one);
            let a2 = s.assign("i", inc);
            vec![a1, Statement::IfStatement(r), a2]
        });
        vec![ms, mi, lp]
    });
    let sqs = s.func("square_of_sum", &["n"], true, |s| {
        let n = s.var("n");
        let n2 = s.var("n");
        let one = s.lit("1");
        let np1 = s.bin(BinaryOp::Add, n2, one);
        let p = s.bin(BinaryOp::Mul, n, np1);
        let two = s.lit("2");
        let half = s.bin(BinaryOp::Div, p, two);
        let l = s.let_("sum", half);
        let a = s.var("sum");
        let b = s.var("sum");
        let sq = s.bin(BinaryOp::Mul, a, b);
        vec![l, s.ret(sq)]
    });
    let main = s.func("main", &[], true, |s| {
        let h = s.lit("100");
        let a = s.call("square_of_sum", vec![h]);
        let h2 = s.lit("100");
        let b = s.call("sum_of_squares", vec![h2]);
        let d = s.bin(BinaryOp::Sub, a, b);
        vec![s.ret(d)]
    });
    assert_eq!(run(vec![sos, sqs, main]).unwrap(), 25164150);
}

// ---------------------------------------------------------------------------
// Printing programs.
// ---------------------------------------------------------------------------

fn formatted(f: &FunctionDecl) -> String {
    let mut pieces = Vec::new();
    f.write_chunks(&mut pieces);
    let mut fmt = jang::parser::ast::code_formatter::CodeFormatter::new();
    let mut out: Vec<char> = Vec::new();
    for p in &pieces {
        assert!(fmt.accepts(p));
        out.extend(fmt.write_str(p));
    }
    out.extend(fmt.finish());
    out.into_iter().collect()
}

fn sample_function() -> FunctionDecl {
    // fn pick(x: i64) -> i64 { let y = x + 1 if y == 2 { ret f(y, 3) } else { ret !y } }
    let mut s = Src::new();
    s.func("pick", &["x"], true, |s| {
        let x = s.var("x");
        let one = s.lit("1");
        let sum = s.bin(BinaryOp::Add, x, one);
        let b = s.let_("y", sum);
        let y = s.var("y");
        let two = s.lit("2");
        let c = s.bin(BinaryOp::Equal, y, two);
        let i = s.if_else(c, |s| {
            let y = s.var("y");
            let three = s.lit("3");
            let call = s.call("f", vec![y, three]);
            vec![s.ret(call)]
        }, |s| {
            let y = s.var("y");
            let n = s.not(y);
            vec![s.ret(n)]
        });
        vec![b, Statement::IfStatement(i)]
    })
}

#[test]
fn function_source_text() {
    let f = sample_function();
    assert_eq!(
        f.to_source(),
        "fn pick(x: i64) -> i64 {\nlet y = (x + 1)\nif (y == 2) {\nret f(y, 3)\n} else {\nret !y\n}\n}\n"
    );
}

#[test]
fn formatted_function_is_indented() {
    let f = sample_function();
    assert_eq!(
        formatted(&f),
        "fn pick(x: i64) -> i64 {\n  let y = (x + 1)\n  if (y == 2) {\n    ret f(y, 3)\n  } else {\n    ret !y\n  }\n}\n"
    );
}

#[test]
fn file_source_text_lists_functions_in_order() {
    let mut s = Src::new();
    let a = s.func("a", &[], false, |_| vec![]);
    let b = s.func("b", &[], false, |_| vec![Statement::Break]);
    let file = JangFile::new(vec![a, b], Vec::new());
    assert_eq!(file.to_source(), "fn a() {\n}\nfn b() {\nbreak\n}\n");
}

#[test]
fn type_source_text() {
    let list = jang::parser::ast::type_expr::type_expr::TypeExpressionList::new(vec![
        TypeExpression::new_primitive(PrimitiveType::I64),
        TypeExpression::new_primitive(PrimitiveType::Bool),
    ]);
    let f = TypeExpression::new_inline_fn(list, TypeExpression::new_unit());
    assert_eq!(f.to_source(), "(i64,bool) -> unit");
    let empty = TypeExpression::new_inline_fn(
        jang::parser::ast::type_expr::type_expr::TypeExpressionList::empty(),
        TypeExpression::new_named(Ident::new("T")),
    );
    assert_eq!(empty.to_source(), "() -> T");
}

#[test]
fn unresolved_statements_print_as_let() {
    let mut s = Src::new();
    let one = s.lit("1");
    let two = s.lit("2");
    let three = s.lit("3");
    let a = jang::parser::ast::assignment_statement::AssignmentStatement::new_rebind(Ident::new("x"), one);
    let mut pieces = Vec::new();
    a.write_chunks(&mut pieces);
    assert_eq!(pieces.concat(), "let x = 1");
    let l = jang::parser::ast::let_statement::LetStatement::new(Ident::new("y"), two);
    let mut pieces = Vec::new();
    l.write_chunks(&mut pieces);
    assert_eq!(pieces, vec!["let ", "y", " = ", "2"]);
    let four = s.lit("4");
    let st = jang::parser::ast::struct_expression::StructExpression::new(vec![
        jang::parser::ast::struct_expression::StructFieldInitializer::new(Ident::new("a"), three),
        jang::parser::ast::struct_expression::StructFieldInitializer::new(Ident::new("b"), four),
    ]);
    let mut pieces = Vec::new();
    st.write_chunks(&mut pieces);
    assert_eq!(pieces.concat(), "a: 3 b: 4");
}

fn assert_jumps_in_range(c: &JitCompiledFunction) {
    let n = c.num_blocks();
    assert!(c.entrypoint().0 < n);
    for i in 0..n {
        match c.block(BlockId(i)).terminator() {
            JitTerminalInstruction::Jump(b) => assert!(b.0 < n),
            JitTerminalInstruction::ConditionalJump(t) => assert!(t.true_target.0 < n && t.false_target.0 < n),
            JitTerminalInstruction::Return => {},
        }
    }
}

#[test]
fn compiled_jumps_stay_inside_the_function() {
    let mut s = Src::new();
    let test = s.func("test", &["x"], true, |s| {
        let x = s.var("x");
        let my = s.mut_("y", x);
        let l = s.loop_(|s| {
            let y = s.var("y");
            let zero = s.lit("0");
            let c = s.bin(BinaryOp::Equal, y, zero);
            let i = s.if_else(c, |_| vec![Statement::Break], |s| {
                let y = s.var("y");
                let one = s.lit("1");
                let d = s.bin(BinaryOp::Sub, y, one);
                vec![s.assign("y", d)]
            });
            vec![Statement::IfStatement(i)]
        });
        let y = s.var("y");
        vec![my, l, s.ret(y)]
    });
    let c = compile_to_bytecode(&test).unwrap();
    assert!(c.num_blocks() > 3);
    assert_jumps_in_range(&c);
    assert_jumps_in_range(&compile_to_bytecode(&sample_function()).unwrap());
}

#[test]
fn built_tree_keeps_its_file_and_id_table() {
    let mut s = Src::new();
    let main = s.func("main", &["a"], true, |s| {
        let a = s.var("a");
        vec![s.ret(a)]
    });
    let counts = s.ctx.id_counts();
    let tree = JangAst::new(JangFile::new(vec![main], Vec::new()), counts);
    assert_eq!(tree.file().function_decls().len(), 1);
    assert_eq!(tree.id_table().global_decl_count(), 1);
    assert_eq!(tree.id_table().local_decl_count(), 1);
    assert_eq!(tree.id_table().expression_count(), 1);
}

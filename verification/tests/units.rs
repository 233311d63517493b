use jang::error::{JangError, ParseErrorKind};
use jang::interpreter::bytecode::instruction::{JitCallInstruction, JitCompiledFunction, JitInstruction, JitInstructionBlock, JitTerminalInstruction};
use jang::interpreter::bytecode::instruction_block_list::{BlockId, BlockListBuilder};
use jang::interpreter::bytecode::lexical_scope::JitCompilerLexicalScope;
use jang::interpreter::bytecode::local_table::{LocalId, LocalTable};
use jang::interpreter::bytecode::loop_context::LoopContext;
use jang::interpreter::bytecode::machine::{evaluate_function, Program};
use jang::interpreter::error::InterpreterError;
use jang::interpreter::parse_as::{parse_i64, ParseAs};
use jang::interpreter::value::Value;
use jang::parser::ast::binary_expression::BinaryOp;
use jang::parser::ast::bind_statement::Mutability;
use jang::parser::ast::builder_context::AstBuilderContext;
use jang::parser::ast::code_formatter::CodeFormatter;
use jang::parser::ast::id::adt::map::IdMap;
use jang::parser::ast::id::def::AstLocalDeclId;
use jang::parser::ast::var::var_ref::VarRef;
use jang::parser::token::ident::Ident;
use jang::parser::token::literal::Literal;
use jang::source_location::SourceSpan;

// ---------------------------------------------------------------------------
// Values.
// ---------------------------------------------------------------------------

fn value_message<T: std::fmt::Debug>(r: Result<T, InterpreterError>) -> String {
    match r {
        Err(InterpreterError::Value(m)) => m,
        other => panic!("expected a value error, got {:?}", other),
    }
}

#[test]
fn integer_operations() {
    let a = Value::Int64(17);
    let b = Value::Int64(5);
    assert_eq!(a.add(&b).unwrap(), Value::Int64(22));
    assert_eq!(a.subtract(&b).unwrap(), Value::Int64(12));
    assert_eq!(a.multiply(&b).unwrap(), Value::Int64(85));
    assert_eq!(a.divide(&b).unwrap(), Value::Int64(3));
    assert_eq!(a.modulo(&b).unwrap(), Value::Int64(2));
    assert_eq!(Value::Int32(-7).divide(&Value::Int32(2)).unwrap(), Value::Int32(-3));
    assert_eq!(Value::Int32(-7).modulo(&Value::Int32(2)).unwrap(), Value::Int32(-1));
}

#[test]
fn comparisons_and_equality() {
    let a = Value::Int64(3);
    let b = Value::Int64(4);
    assert_eq!(a.less_than(&b).unwrap(), Value::Bool(true));
    assert_eq!(a.less_than_equal(&a).unwrap(), Value::Bool(true));
    assert_eq!(a.greater_than(&b).unwrap(), Value::Bool(false));
    assert_eq!(b.greater_than_equal(&a).unwrap(), Value::Bool(true));
    assert_eq!(a.equal(&a).unwrap(), Value::Bool(true));
    assert_eq!(a.not_equal(&b).unwrap(), Value::Bool(true));
    assert_eq!(Value::Bool(true).equal(&Value::Bool(true)).unwrap(), Value::Bool(true));
    assert_eq!(Value::Int64(7).equal(&Value::Int64(8)).unwrap(), Value::Bool(false));
    assert!(value_message(Value::Unit.equal(&Value::Unit)).contains("equality"));
    assert!(value_message(Value::Bool(true).equal(&Value::Int64(1))).contains("equality"));
}

#[test]
fn logical_operations() {
    let t = Value::Bool(true);
    let f = Value::Bool(false);
    assert_eq!(t.logical_and(&f).unwrap(), Value::Bool(false));
    assert_eq!(t.logical_or(&f).unwrap(), Value::Bool(true));
    assert_eq!(f.logical_not().unwrap(), Value::Bool(true));
    assert!(value_message(Value::Int64(1).logical_not()).contains("bool"));
}

#[test]
fn division_by_zero_is_a_value_error() {
    assert!(value_message(Value::Int64(1).divide(&Value::Int64(0))).contains("division by zero"));
    assert!(value_message(Value::Int64(1).modulo(&Value::Int64(0))).contains("modulo by zero"));
}

#[test]
fn mismatched_operands_are_a_value_error() {
    let m = value_message(Value::Int64(1).add(&Value::Function(0)));
    assert!(m.contains("add"));
    assert!(m.contains("i64"));
    assert!(value_message(Value::Int32(1).add(&Value::Int64(1))).contains("add"));
}

#[test]
fn overflow_is_reported_by_apply_binary_op() {
    let r = Value::apply_binary_op(BinaryOp::Add, &Value::Int64(i64::MAX), &Value::Int64(1));
    assert!(matches!(r, Err(InterpreterError::Value(_))));
    let r = Value::apply_binary_op(BinaryOp::Mul, &Value::Int64(6), &Value::Int64(7));
    assert_eq!(r.unwrap(), Value::Int64(42));
    let r = Value::apply_binary_op(BinaryOp::Div, &Value::Int64(i64::MIN), &Value::Int64(-1));
    assert!(matches!(r, Err(InterpreterError::Value(_))));
}

#[test]
fn truthiness() {
    assert_eq!(Value::Bool(false).is_truthy().unwrap(), false);
    assert_eq!(Value::Int64(0).is_truthy().unwrap(), false);
    assert_eq!(Value::Int32(3).is_truthy().unwrap(), true);
    assert!(Value::Unit.is_truthy().is_err());
    assert_eq!(Value::Bool(true).expect_bool().unwrap(), true);
    assert!(Value::Int64(1).expect_bool().is_err());
}

#[test]
fn type_names_and_functions() {
    assert_eq!(Value::Unit.debug_type_name(), "unit");
    assert_eq!(Value::Int64(0).debug_type_name(), "i64");
    assert_eq!(Value::Function(3).as_jit_function().unwrap(), 3);
    assert!(Value::Bool(true).as_jit_function().is_err());
}

#[test]
fn literal_values() {
    assert_eq!(Value::from_literal(&Literal::integral("42")).unwrap(), Value::Int64(42));
    assert!(Value::from_literal(&Literal::integral("4x")).is_err());
}

// ---------------------------------------------------------------------------
// Parsing integers.
// ---------------------------------------------------------------------------

#[test]
fn parses_decimal_integers() {
    assert_eq!(parse_i64("123").unwrap(), 123);
    assert_eq!(parse_i64("-45").unwrap(), -45);
    assert_eq!(parse_i64("+7").unwrap(), 7);
    assert_eq!(parse_i64("0").unwrap(), 0);
    assert_eq!(parse_i64("9223372036854775807").unwrap(), i64::MAX);
    assert_eq!(parse_i64("-9223372036854775808").unwrap(), i64::MIN);
    let v: i64 = "600851475143".parse_as().unwrap();
    assert_eq!(v, 600851475143);
}

#[test]
fn rejects_what_is_not_an_integer() {
    for text in ["", "-", "+", "12a", " 1", "9223372036854775808", "-9223372036854775809", "1-"] {
        assert!(matches!(parse_i64(text), Err(InterpreterError::Value(_))), "{:?}", text);
    }
}

// ---------------------------------------------------------------------------
// Errors.
// ---------------------------------------------------------------------------

#[test]
fn error_texts() {
    assert_eq!(InterpreterError::generic_err("g").to_string(), "g");
    assert_eq!(InterpreterError::unimplemented("u").to_string(), "unimplemented: u");
    assert_eq!(InterpreterError::jit_err("j").to_string(), "in jit compiler: j");
    assert_eq!(InterpreterError::value_err("v").to_string(), "value error: v");
    assert_eq!(InterpreterError::internal_err("i").to_string(), "internal error (bug): i");
}

#[test]
fn duplicate_global_is_a_parse_error() {
    let mut ctx = AstBuilderContext::default();
    assert!(ctx.new_global_decl(Ident::new("f")).is_ok());
    match ctx.new_global_decl(Ident::new("f")) {
        Err(JangError::Parse(e)) => match e.kind() {
            ParseErrorKind::DuplicateIdent { ident } => assert_eq!(ident, "f"),
            other => panic!("unexpected kind {:?}", other),
        },
        other => panic!("expected a duplicate identifier error, got {:?}", other),
    }
}

// ---------------------------------------------------------------------------
// Names and IDs.
// ---------------------------------------------------------------------------

#[test]
fn forward_reference_resolves_to_the_later_declaration() {
    let mut ctx = AstBuilderContext::default();
    let r = ctx.new_var_ref(Ident::new("g"));
    let d = ctx.new_global_decl(Ident::new("g")).unwrap();
    match r {
        VarRef::Global(g) => assert_eq!(g.id, d.id),
        other => panic!("expected a global reference, got {:?}", other),
    }
}

#[test]
fn placeholder_global_is_reused_and_allocates_once() {
    let mut ctx = AstBuilderContext::default();
    let first = ctx.new_var_ref(Ident::new("g"));
    let second = ctx.new_var_ref(Ident::new("g"));
    assert_eq!(ctx.id_counts().global_decl_count(), 1);
    let d = ctx.new_global_decl(Ident::new("g")).unwrap();
    assert_eq!(ctx.id_counts().global_decl_count(), 1);
    match (first, second) {
        (VarRef::Global(a), VarRef::Global(b)) => {
            assert_eq!(a.id, d.id);
            assert_eq!(b.id, d.id);
        },
        other => panic!("expected global references, got {:?}", other),
    }
    assert!(ctx.new_global_decl(Ident::new("g")).is_err());
}

#[test]
fn local_stays_visible_while_its_scope_is_open() {
    let mut ctx = AstBuilderContext::default();
    ctx.enter_block_scope();
    let x = ctx.new_local_decl(Ident::new("x"));
    let _ = ctx.new_local_decl(Ident::new("y"));
    ctx.enter_block_scope();
    let _ = ctx.new_local_decl(Ident::new("z"));
    match ctx.new_var_ref(Ident::new("x")) {
        VarRef::Local(l) => assert_eq!(l.id, x.id),
        other => panic!("expected a local, got {:?}", other),
    }
    ctx.exit_block_scope();
    match ctx.new_var_ref(Ident::new("x")) {
        VarRef::Local(l) => assert_eq!(l.id, x.id),
        other => panic!("expected a local, got {:?}", other),
    }
    ctx.exit_block_scope();
    assert!(matches!(ctx.new_var_ref(Ident::new("x")), VarRef::Global(_)));
}

#[test]
fn local_keeps_its_value_across_other_writes() {
    let mut t: LocalTable<i64> = LocalTable::new();
    t.write(LocalId(1), 5);
    t.write(LocalId(0), 6);
    t.write(LocalId(4), 7);
    t.write(LocalId(0), 8);
    assert_eq!(*t.read(LocalId(1)).unwrap(), 5);
    assert_eq!(*t.read(LocalId(0)).unwrap(), 8);
}

#[test]
fn inner_local_shadows_outer_until_its_scope_ends() {
    let mut ctx = AstBuilderContext::default();
    ctx.enter_block_scope();
    let outer = ctx.new_local_decl(Ident::new("x"));
    ctx.enter_block_scope();
    let inner = ctx.new_local_decl(Ident::new("x"));
    match ctx.new_var_ref(Ident::new("x")) {
        VarRef::Local(l) => assert_eq!(l.id, inner.id),
        other => panic!("expected a local, got {:?}", other),
    }
    ctx.exit_block_scope();
    match ctx.new_var_ref(Ident::new("x")) {
        VarRef::Local(l) => assert_eq!(l.id, outer.id),
        other => panic!("expected a local, got {:?}", other),
    }
    assert_ne!(outer.id, inner.id);
}

#[test]
fn id_map_stores_by_id() {
    let mut m: IdMap<AstLocalDeclId, &str> = IdMap::from_range(AstLocalDeclId(3), AstLocalDeclId(6));
    assert!(m.get(AstLocalDeclId(4)).is_none());
    m.insert(AstLocalDeclId(4), "four");
    m.insert(AstLocalDeclId(3), "three");
    m.insert(AstLocalDeclId(4), "FOUR");
    assert_eq!(m.get(AstLocalDeclId(4)), Some(&"FOUR"));
    assert_eq!(m.get(AstLocalDeclId(3)), Some(&"three"));
    assert!(m.get(AstLocalDeclId(5)).is_none());
    let entries = m.into_entries();
    assert_eq!(entries, vec![(AstLocalDeclId(3), "three"), (AstLocalDeclId(4), "FOUR")]);
}

// ---------------------------------------------------------------------------
// Compiler state.
// ---------------------------------------------------------------------------

#[test]
fn local_table_reads_what_was_written() {
    let mut t: LocalTable<i64> = LocalTable::new();
    assert!(t.read(LocalId(0)).is_err());
    t.write(LocalId(2), 7);
    assert_eq!(*t.read(LocalId(2)).unwrap(), 7);
    assert!(t.read(LocalId(1)).is_err());
    t.write(LocalId(2), 8);
    assert_eq!(*t.read(LocalId(2)).unwrap(), 8);
}

#[test]
fn lexical_scope_binds_and_forgets() {
    let mut s = JitCompilerLexicalScope::default();
    let a = s.bind(AstLocalDeclId(0), Mutability::Immutable);
    assert_eq!(a, LocalId(0));
    let mut inner = s.enter_block();
    let b = inner.bind(AstLocalDeclId(1), Mutability::Mutable);
    assert_eq!(b, LocalId(1));
    assert_eq!(inner.get_binding(AstLocalDeclId(0)).unwrap().local_id(), LocalId(0));
    assert_eq!(*inner.get_binding(AstLocalDeclId(1)).unwrap().mutability(), Mutability::Mutable);
    let outer = inner.exit_block().unwrap();
    assert!(outer.get_binding(AstLocalDeclId(1)).is_none());
    // Leaving a block hands its slots out again.
    assert_eq!(outer.next_local_id(), LocalId(1));
    assert!(matches!(outer.exit_block(), Err(InterpreterError::JitCompile(_))));
}

#[test]
fn loop_context_exchanges_break_targets() {
    let mut c = LoopContext::default();
    assert!(c.break_target().is_none());
    let before = c.exchange(BlockId(4));
    assert!(before.break_target().is_none());
    assert_eq!(c.break_target(), Some(BlockId(4)));
    assert_eq!(LoopContext::new(BlockId(2)).break_target(), Some(BlockId(2)));
}

#[test]
fn block_list_needs_every_block_set() {
    let mut b: BlockListBuilder<u8> = BlockListBuilder::new();
    let x = b.allocate_uninitialized();
    let y = b.allocate_uninitialized();
    assert_eq!((x, y), (BlockId(0), BlockId(1)));
    b.set(y, 9).unwrap();
    assert!(b.set(BlockId(5), 1).is_err());
    match b.build() {
        Err(missing) => assert_eq!(missing, BlockId(0)),
        Ok(_) => panic!("block 0 was never set"),
    }
    let mut b: BlockListBuilder<u8> = BlockListBuilder::new();
    let x = b.allocate_uninitialized();
    b.set(x, 3).unwrap();
    let list = b.build().unwrap();
    assert_eq!(list.len(), 1);
    assert_eq!(*list.block(x), 3);
}

// ---------------------------------------------------------------------------
// The machine.
// ---------------------------------------------------------------------------

fn single_block(instructions: Vec<JitInstruction>, terminator: JitTerminalInstruction) -> JitCompiledFunction {
    let mut b = BlockListBuilder::new();
    let id = b.allocate_uninitialized();
    b.set(id, JitInstructionBlock::new(instructions, terminator)).unwrap();
    JitCompiledFunction::new(id, b.build().unwrap())
}

#[test]
fn later_function_of_a_name_wins() {
    let mut p = Program::new();
    p.add_function(Ident::new("f"), single_block(vec![JitInstruction::LoadLiteral(Literal::integral("1"))], JitTerminalInstruction::Return));
    p.add_function(Ident::new("f"), single_block(vec![JitInstruction::LoadLiteral(Literal::integral("2"))], JitTerminalInstruction::Return));
    assert_eq!(p.len(), 2);
    assert_eq!(p.find_function(&Ident::new("f")), Some(1));
    assert_eq!(p.find_function(&Ident::new("g")), None);
    assert_eq!(evaluate_function(&p, 1, Vec::new(), 10).unwrap(), Value::Int64(2));
}

#[test]
fn arguments_arrive_on_the_stack() {
    // Subtracts the second argument from the first.
    let mut p = Program::new();
    p.add_function(
        Ident::new("sub"),
        single_block(
            vec![
                JitInstruction::StoreLocal(LocalId(0)),
                JitInstruction::StoreLocal(LocalId(1)),
                JitInstruction::LoadLocal(LocalId(1)),
                JitInstruction::LoadLocal(LocalId(0)),
                JitInstruction::BinaryOp(BinaryOp::Sub),
            ],
            JitTerminalInstruction::Return,
        ),
    );
    let r = evaluate_function(&p, 0, vec![Value::Int64(10), Value::Int64(3)], 100).unwrap();
    assert_eq!(r, Value::Int64(7));
}

#[test]
fn machine_stops_at_its_step_limit() {
    let mut p = Program::new();
    p.add_function(Ident::new("spin"), single_block(vec![], JitTerminalInstruction::Jump(BlockId(0))));
    match evaluate_function(&p, 0, Vec::new(), 1000) {
        Err(InterpreterError::Generic(m)) => assert!(m.contains("step limit")),
        other => panic!("expected the step limit, got {:?}", other),
    }
}

#[test]
fn return_with_an_empty_stack_is_an_internal_error() {
    let mut p = Program::new();
    p.add_function(Ident::new("f"), single_block(vec![], JitTerminalInstruction::Return));
    assert!(matches!(evaluate_function(&p, 0, Vec::new(), 10), Err(InterpreterError::Internal(_))));
}

#[test]
fn call_with_too_few_arguments_finds_the_stack_empty() {
    let mut p = Program::new();
    p.add_function(
        Ident::new("f"),
        single_block(
            vec![
                JitInstruction::LoadGlobal(Ident::new("f")),
                JitInstruction::Call(JitCallInstruction::with_arity(1)),
            ],
            JitTerminalInstruction::Return,
        ),
    );
    match evaluate_function(&p, 0, Vec::new(), 10) {
        Err(InterpreterError::Internal(m)) => assert_eq!(m, "bad stack: empty"),
        other => panic!("expected an empty stack, got {:?}", other),
    }
}

#[test]
fn calling_a_number_names_the_value() {
    let mut p = Program::new();
    p.add_function(
        Ident::new("f"),
        single_block(
            vec![
                JitInstruction::LoadLiteral(Literal::integral("-42")),
                JitInstruction::Call(JitCallInstruction::with_arity(0)),
            ],
            JitTerminalInstruction::Return,
        ),
    );
    match evaluate_function(&p, 0, Vec::new(), 10) {
        Err(InterpreterError::Value(m)) => {
            assert_eq!(m, "expected value to be a JIT-compiled function: Primitive(Int64(-42))")
        },
        other => panic!("expected a value error, got {:?}", other),
    }
}

// ---------------------------------------------------------------------------
// The code formatter.
// ---------------------------------------------------------------------------

fn format_pieces(pieces: &[&str]) -> String {
    let mut f = CodeFormatter::new();
    let mut out: Vec<char> = Vec::new();
    for p in pieces {
        assert!(f.accepts(p));
        out.extend(f.write_str(p));
    }
    out.extend(f.finish());
    out.into_iter().collect()
}

#[test]
fn formatter_indents_inside_braces() {
    let text = format_pieces(&["fn f() ", "{\n", "let x = 1", "\n", "if x ", "{\n", "ret x", "\n", "}", "\n", "}", "\n"]);
    assert_eq!(text, "fn f() {\n  let x = 1\n  if x {\n    ret x\n  }\n}\n");
}

#[test]
fn formatter_closes_before_else() {
    let text = format_pieces(&["if c ", "{\n", "a", "\n", "}", " else ", "{\n", "b", "\n", "}", "\n"]);
    assert_eq!(text, "if c {\n  a\n} else {\n  b\n}\n");
}

#[test]
fn formatter_owes_line_breaks_until_text_follows() {
    // Blank lines collapse, and text in one piece after a line break joins
    // the line before it.
    assert_eq!(format_pieces(&["a\n", "\n", "b"]), "a\nb");
    assert_eq!(format_pieces(&["a\nb"]), "ab");
    assert_eq!(format_pieces(&["a", "\n"]), "a\n");
}

#[test]
fn formatter_refuses_a_brace_with_nothing_to_close() {
    let f = CodeFormatter::new();
    assert!(!f.accepts("}"));
    assert!(f.accepts("{\n}"));
}

#[test]
fn parse_error_texts() {
    match JangError::unexpected_symbol('$', SourceSpan::new(3, 4)) {
        JangError::Parse(e) => {
            assert_eq!(e.kind().to_string(), "Unexpected symbol: '$'");
            assert_eq!(*e.span(), SourceSpan::new(3, 4));
        },
        other => panic!("expected a parse error, got {:?}", other),
    }
    let d = JangError::duplicate_ident(&Ident::new("main"));
    match d {
        JangError::Parse(e) => assert_eq!(e.kind().to_string(), "Duplicate identifier: \"main\""),
        other => panic!("expected a parse error, got {:?}", other),
    }
}

#[test]
fn interpreter_errors_convert() {
    let e: JangError = InterpreterError::value_err("v").into();
    assert!(matches!(e, JangError::Interpret(InterpreterError::Value(_))));
}

#[test]
fn duplicate_error_points_at_the_first_occurrence() {
    let mut ctx = AstBuilderContext::default();
    let _ = ctx.new_var_ref(Ident::with_span("f", SourceSpan::new(10, 11)));
    ctx.new_global_decl(Ident::with_span("f", SourceSpan::new(20, 21))).unwrap();
    match ctx.new_global_decl(Ident::with_span("f", SourceSpan::new(30, 31))) {
        Err(JangError::Parse(e)) => assert_eq!(*e.span(), SourceSpan::new(10, 11)),
        other => panic!("expected a duplicate identifier error, got {:?}", other),
    }
}

#[test]
fn ids_are_handed_out_fresh() {
    let mut ids = jang::parser::ast::id::builder::IdBuilder::default();
    let a = ids.new_expr_id();
    let b = ids.new_expr_id();
    assert_ne!(a, b);
    assert_eq!((a.0, b.0), (0, 1));
}

#[test]
fn arithmetic_op_errors_for_mismatched_types() {
    assert!(value_message(Value::Int32(1).add(&Value::Int64(2))).contains("add:"));
}

#[test]
fn arithmetic_op_errors_for_non_numeric_operand() {
    assert!(value_message(Value::Int64(1).add(&Value::Bool(true))).contains("add:"));
}

#[test]
fn divide_by_zero_errors_for_int32() {
    assert!(value_message(Value::Int32(1).divide(&Value::Int32(0))).contains("division by zero"));
}

#[test]
fn less_than() {
    assert_eq!(Value::Int64(1).less_than(&Value::Int64(2)).unwrap(), Value::Bool(true));
    assert_eq!(Value::Int64(1).less_than(&Value::Int64(1)).unwrap(), Value::Bool(false));
    assert_eq!(Value::Int64(2).less_than(&Value::Int64(1)).unwrap(), Value::Bool(false));
}

#[test]
fn equality() {
    assert_eq!(Value::Bool(true).equal(&Value::Bool(true)).unwrap(), Value::Bool(true));
    assert_eq!(Value::Int64(7).equal(&Value::Int64(8)).unwrap(), Value::Bool(false));
}

#[test]
fn equality_with_unsupported_types() {
    assert!(value_message(Value::Bool(true).equal(&Value::Int64(1))).contains("equality"));
    assert!(value_message(Value::Function(0).equal(&Value::Function(0))).contains("equality"));
}

#[test]
fn expect_bool_rejects_non_bool() {
    match Value::Int64(1).expect_bool() {
        Err(InterpreterError::Value(m)) => assert!(m.contains("expected bool, got i64")),
        other => panic!("expected a value error, got {:?}", other),
    }
}

#[test]
fn error_messages_show_the_values() {
    assert_eq!(
        value_message(Value::Int32(-7).divide(&Value::Int32(0))),
        "division by zero: Primitive(Int32(-7)) / Primitive(Int32(0))"
    );
    assert_eq!(
        value_message(Value::Int64(i64::MIN).modulo(&Value::Int64(0))),
        "modulo by zero: Primitive(Int64(-9223372036854775808)) % Primitive(Int64(0))"
    );
    assert_eq!(
        value_message(Value::Int64(1234567890).expect_bool()),
        "expected bool, got i64 (Primitive(Int64(1234567890)))"
    );
    assert_eq!(value_message(Value::Unit.is_truthy()), "expected bool, got unit (Unit)");
    assert_eq!(
        value_message(Value::Function(12).logical_and(&Value::Bool(true))),
        "logical and: expected bool, got <compiled-bytecode> (JitCompiledFunctionRef(12))"
    );
    assert_eq!(
        value_message(Value::Bool(false).as_jit_function()),
        "expected value to be a JIT-compiled function: Primitive(Bool(false))"
    );
}

#[test]
fn logical_and() {
    assert_eq!(Value::Bool(true).logical_and(&Value::Bool(false)).unwrap(), Value::Bool(false));
}

#[test]
fn logical_or() {
    assert_eq!(Value::Bool(true).logical_or(&Value::Bool(false)).unwrap(), Value::Bool(true));
}

#[test]
fn logical_and_with_invalid_type() {
    assert!(value_message(Value::Int64(123).logical_and(&Value::Bool(false))).contains("logical and"));
}

#[test]
fn test_ast_expr_id() {
    let mut ctx = jang::parser::ast::id::builder::IdBuilder::default();
    let expr_id_a = ctx.new_expr_id();
    let expr_id_b = ctx.new_expr_id();
    assert_eq!(expr_id_a.0, 0);
    assert_eq!(expr_id_b.0, 1);
}

#[test]
fn integer_parse_errors_name_the_first_problem() {
    let msg = |t: &str| match parse_i64(t) {
        Err(InterpreterError::Value(m)) => m,
        other => panic!("expected a value error for {:?}, got {:?}", t, other),
    };
    assert_eq!(msg(""), "ParseIntError { kind: Empty }");
    assert_eq!(msg("-"), "ParseIntError { kind: InvalidDigit }");
    assert_eq!(msg("12a"), "ParseIntError { kind: InvalidDigit }");
    assert_eq!(msg("9223372036854775808"), "ParseIntError { kind: PosOverflow }");
    assert_eq!(msg("-9223372036854775809"), "ParseIntError { kind: NegOverflow }");
    assert_eq!(msg("99999999999999999999a"), "ParseIntError { kind: PosOverflow }");
    assert_eq!(msg("1a99999999999999999999"), "ParseIntError { kind: InvalidDigit }");
    // The same messages as the standard parser's errors.
    assert_eq!(format!("{:?}", "".parse::<i64>().unwrap_err()), msg(""));
    assert_eq!(format!("{:?}", "-9223372036854775809".parse::<i64>().unwrap_err()), msg("-9223372036854775809"));
}

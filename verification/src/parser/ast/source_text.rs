use vstd::prelude::*;

use crate::parser::{
    ast::{
        assignment_statement::AssignmentStatement,
        binary_expression::BinaryOp,
        bind_statement::{BindStatement, Mutability},
        block::Block,
        call_expression::CallExpression,
        enum_type_decl::{EnumTypeDecl, EnumVariant, EnumVariantType},
        expression::{Expression, ExpressionVariant},
        function_decl::{FunctionDecl, FunctionParameters},
        if_statement::{ElseClause, IfStatement},
        jang_file::JangFile,
        let_statement::LetStatement,
        statement::Statement,
        struct_expression::{StructExpression, StructFieldInitializer},
        type_decl::{TypeDecl, TypeDeclVariant},
        type_expr::{
            primitive::PrimitiveType,
            type_expr::{StructuredTypeDecl, TypeExpression, TypeExpressionList, TypeExpressionVariant},
        },
    },
    token::literal::Literal,
};

verus! {

broadcast use vstd::seq::Seq::lemma_flatten_push;

// ---------------------------------------------------------------------------
// The text of each node, as the sequence of pieces it is written in. Blocks
// put each statement on a line of its own; indentation is left to the code
// formatter, which sees the pieces one by one.
// ---------------------------------------------------------------------------

pub open spec fn binop_symbol(op: BinaryOp) -> Seq<char> {
    match op {
        BinaryOp::Add => "+"@,
        BinaryOp::Sub => "-"@,
        BinaryOp::Mul => "*"@,
        BinaryOp::Div => "/"@,
        BinaryOp::Mod => "%"@,
        BinaryOp::Equal => "=="@,
        BinaryOp::NotEqual => "!="@,
        BinaryOp::LessThan => "<"@,
        BinaryOp::LessThanEqual => "<="@,
        BinaryOp::GreaterThan => ">"@,
        BinaryOp::GreaterThanEqual => ">="@,
        BinaryOp::LogicalAnd => "&&"@,
        BinaryOp::LogicalOr => "||"@,
    }
}

pub open spec fn literal_text(l: Literal) -> Seq<char> {
    match l {
        Literal::Integral(s) => s@,
    }
}

/// An expression; a binary expression is written in parentheses.
pub open spec fn expr_chunks(e: Expression) -> Seq<Seq<char>>
    decreases e, 0nat,
{
    match e.variant {
        ExpressionVariant::Literal(l) => seq![literal_text(l.literal)],
        ExpressionVariant::VarRef(v) => seq![v.spec_name()@],
        ExpressionVariant::BinaryExpression(b) => seq!["("@] + expr_chunks(*b.lhs) + seq![" "@, binop_symbol(b.op), " "@]
            + expr_chunks(*b.rhs) + seq![")"@],
        ExpressionVariant::UnaryExpression(u) => seq!["!"@] + expr_chunks(*u.expr),
        ExpressionVariant::CallExpression(c) => call_chunks(c),
        ExpressionVariant::DotExpression(d) => expr_chunks(*d.base) + seq!["."@, d.member@],
    }
}

/// `target(arg, arg, ...)`.
pub open spec fn call_chunks(c: CallExpression) -> Seq<Seq<char>>
    decreases c, c.argument_list.expressions@.len() + 1,
{
    expr_chunks(*c.target) + seq!["("@] + args_chunks(c, c.argument_list.expressions@.len()) + seq![")"@]
}

/// The first `n` arguments of a call, separated by `, `.
pub open spec fn args_chunks(c: CallExpression, n: nat) -> Seq<Seq<char>>
    decreases c, n,
{
    if n == 0 || n > c.argument_list.expressions@.len() {
        Seq::empty()
    } else if n == 1 {
        expr_chunks(c.argument_list.expressions@[0])
    } else {
        args_chunks(c, (n - 1) as nat) + seq![", "@] + expr_chunks(c.argument_list.expressions@[n - 1])
    }
}

pub open spec fn stmt_chunks(s: Statement) -> Seq<Seq<char>>
    decreases s, 0nat,
{
    match s {
        Statement::Bind(b) => seq![
            if b.mutability == Mutability::Mutable { "mut "@ } else { "let "@ },
            b.var.name@,
            " = "@,
        ] + expr_chunks(b.expr),
        Statement::Rebind(r) => seq![r.var.spec_name()@, " = "@] + expr_chunks(r.expr),
        Statement::Ret(r) => seq!["ret "@] + expr_chunks(r.expr),
        Statement::CallStatement(c) => call_chunks(c),
        Statement::IfStatement(i) => if_chunks(i),
        Statement::LoopStatement(l) => seq!["loop "@] + block_chunks(l.body),
        Statement::Block(b) => block_chunks(b),
        Statement::Break => seq!["break"@],
    }
}

/// `{`, a line break, each statement followed by a line break, `}`.
pub open spec fn block_chunks(b: Block) -> Seq<Seq<char>>
    decreases b, b.statements@.len() + 1,
{
    seq!["{\n"@] + stmts_chunks(b, b.statements@.len()) + seq!["}"@]
}

/// The first `n` statements of a block, each followed by a line break.
pub open spec fn stmts_chunks(b: Block, n: nat) -> Seq<Seq<char>>
    decreases b, n,
{
    if n == 0 || n > b.statements@.len() {
        Seq::empty()
    } else {
        stmts_chunks(b, (n - 1) as nat) + stmt_chunks(b.statements@[n - 1]) + seq!["\n"@]
    }
}

pub open spec fn if_chunks(i: IfStatement) -> Seq<Seq<char>>
    decreases i, 0nat,
{
    seq!["if "@] + expr_chunks(*i.condition) + seq![" "@] + block_chunks(i.body) + match i.else_clause {
        ElseClause::Empty => Seq::empty(),
        ElseClause::Else(b) => seq![" else "@] + block_chunks(b),
        ElseClause::ElseIf(e) => seq![" else "@] + if_chunks(*e),
    }
}

pub open spec fn primitive_text(p: PrimitiveType) -> Seq<char> {
    match p {
        PrimitiveType::Bool => "bool"@,
        PrimitiveType::I32 => "i32"@,
        PrimitiveType::I64 => "i64"@,
        PrimitiveType::F32 => "f32"@,
        PrimitiveType::F64 => "f64"@,
    }
}

pub open spec fn type_chunks(t: TypeExpression) -> Seq<Seq<char>>
    decreases t, 0nat,
{
    match t.variant {
        TypeExpressionVariant::Unit => seq!["unit"@],
        TypeExpressionVariant::Primitive(p) => seq![primitive_text(p)],
        TypeExpressionVariant::Named(i) => seq![i@],
        TypeExpressionVariant::AnonymousStruct(s) => struct_chunks(s),
        TypeExpressionVariant::InlineFn(f) => type_list_chunks(f.args) + seq![" -> "@] + type_chunks(*f.return_type),
    }
}

/// `()`, or the types in parentheses separated by `,`; the types are
/// joined into one piece.
pub open spec fn type_list_chunks(l: TypeExpressionList) -> Seq<Seq<char>>
    decreases l, l.expressions@.len() + 1,
{
    if l.expressions@.len() == 0 {
        seq!["()"@]
    } else {
        seq!["("@, types_joined(l, l.expressions@.len()), ")"@]
    }
}

/// The text of the first `n` types of a list, separated by `,`.
pub open spec fn types_joined(l: TypeExpressionList, n: nat) -> Seq<char>
    decreases l, n,
{
    if n == 0 || n > l.expressions@.len() {
        Seq::empty()
    } else if n == 1 {
        type_chunks(l.expressions@[0]).flatten()
    } else {
        types_joined(l, (n - 1) as nat) + ","@ + type_chunks(l.expressions@[n - 1]).flatten()
    }
}

/// `{ name: type, ... }`.
pub open spec fn struct_chunks(s: StructuredTypeDecl) -> Seq<Seq<char>>
    decreases s, s.fields@.len() + 1,
{
    seq!["{ "@] + fields_chunks(s, s.fields@.len()) + seq![" }"@]
}

/// The first `n` fields of a structured type, separated by `, `.
pub open spec fn fields_chunks(s: StructuredTypeDecl, n: nat) -> Seq<Seq<char>>
    decreases s, n,
{
    if n == 0 || n > s.fields@.len() {
        Seq::empty()
    } else {
        let f = s.fields@[n - 1];
        let field = seq![f.name@, ": "@] + type_chunks(f.ty);
        if n == 1 {
            field
        } else {
            fields_chunks(s, (n - 1) as nat) + seq![", "@] + field
        }
    }
}

/// The first `n` parameters of a function, separated by `, `.
pub open spec fn params_chunks(p: FunctionParameters, n: nat) -> Seq<Seq<char>>
    decreases n,
{
    if n == 0 || n > p.parameters@.len() {
        Seq::empty()
    } else {
        let q = p.parameters@[n - 1];
        let param = seq![q.var.name@, ": "@] + type_chunks(q.ty);
        if n == 1 {
            param
        } else {
            params_chunks(p, (n - 1) as nat) + seq![", "@] + param
        }
    }
}

/// `fn name(params) -> type body` and a line break.
pub open spec fn fn_chunks(f: FunctionDecl) -> Seq<Seq<char>> {
    let head = seq!["fn "@, f.name.name@, "("@] + params_chunks(f.parameters, f.parameters.parameters@.len());
    let ret = match f.return_type {
        Some(t) => seq![") -> "@] + type_chunks(t) + seq![" "@],
        None => seq![") "@],
    };
    head + ret + block_chunks(f.body) + seq!["\n"@]
}

pub open spec fn variant_chunks(v: EnumVariant) -> Seq<Seq<char>> {
    seq![v.name@, " "@] + match v.ty {
        EnumVariantType::TypeExpression(t) => type_chunks(t),
        EnumVariantType::Empty => Seq::empty(),
    }
}

/// A line break, then the first `n` variants, each on a line of its own
/// after `| `.
pub open spec fn enum_chunks(e: EnumTypeDecl, n: nat) -> Seq<Seq<char>>
    decreases n,
{
    if n == 0 || n > e.variants@.len() {
        seq!["\n"@]
    } else {
        enum_chunks(e, (n - 1) as nat) + seq!["| "@] + variant_chunks(e.variants@[n - 1]) + seq!["\n"@]
    }
}

/// `type Name = decl` and a line break.
pub open spec fn type_decl_chunks(t: TypeDecl) -> Seq<Seq<char>> {
    seq!["type "@, t.name@, " = "@] + match t.decl {
        TypeDeclVariant::Enum(e) => enum_chunks(e, e.variants@.len()),
        TypeDeclVariant::Alias(a) => type_chunks(a),
    } + seq!["\n"@]
}

/// The first `n` function declarations of a file.
pub open spec fn fns_chunks(f: JangFile, n: nat) -> Seq<Seq<char>>
    decreases n,
{
    if n == 0 || n > f.function_decls@.len() {
        Seq::empty()
    } else {
        fns_chunks(f, (n - 1) as nat) + fn_chunks(f.function_decls@[n - 1])
    }
}

/// The first `n` type declarations of a file.
pub open spec fn type_decls_chunks(f: JangFile, n: nat) -> Seq<Seq<char>>
    decreases n,
{
    if n == 0 || n > f.type_decls@.len() {
        Seq::empty()
    } else {
        type_decls_chunks(f, (n - 1) as nat) + type_decl_chunks(f.type_decls@[n - 1])
    }
}

/// The type declarations of a file, then its functions.
pub open spec fn file_chunks(f: JangFile) -> Seq<Seq<char>> {
    type_decls_chunks(f, f.type_decls@.len()) + fns_chunks(f, f.function_decls@.len())
}

/// `let name = expr`; every kind of assignment is written with `let`.
pub open spec fn assignment_chunks(a: AssignmentStatement) -> Seq<Seq<char>> {
    seq!["let "@, a.var@, " = "@] + expr_chunks(a.expr)
}

/// `let name = expr`.
pub open spec fn let_chunks(l: LetStatement) -> Seq<Seq<char>> {
    seq!["let "@, l.var@, " = "@] + expr_chunks(l.expr)
}

/// `name: value`.
pub open spec fn field_init_chunks(f: StructFieldInitializer) -> Seq<Seq<char>> {
    seq![f.name@, ": "@] + expr_chunks(*f.value)
}

/// The first `n` field initializers, separated by a space.
pub open spec fn struct_expr_chunks(s: StructExpression, n: nat) -> Seq<Seq<char>>
    decreases n,
{
    if n == 0 || n > s.fields@.len() {
        Seq::empty()
    } else if n == 1 {
        field_init_chunks(s.fields@[0])
    } else {
        struct_expr_chunks(s, (n - 1) as nat) + seq![" "@] + field_init_chunks(s.fields@[n - 1])
    }
}

/// The text of each piece.
pub open spec fn views(v: Seq<String>) -> Seq<Seq<char>> {
    v.map_values(|s: String| s@)
}

// ---------------------------------------------------------------------------
// Writing the pieces.
// ---------------------------------------------------------------------------

fn push_piece(out: &mut Vec<String>, s: &str)
    ensures
        views(final(out)@) == views(old(out)@).push(s@),
{
    out.push(String::from_str(s));
    proof {
        assert(views(out@) =~= views(old(out)@).push(s@));
    }
}

/// The pieces joined into one text.
pub fn concat_pieces(pieces: &Vec<String>) -> (r: String)
    ensures
        r@ == views(pieces@).flatten(),
{
    let mut r = String::new();
    let mut i: usize = 0;
    proof {
        assert(views(pieces@).subrange(0, 0) =~= Seq::<Seq<char>>::empty());
    }
    while i < pieces.len()
        invariant
            i <= pieces@.len(),
            r@ == views(pieces@).subrange(0, i as int).flatten(),
        decreases pieces@.len() - i,
    {
        r.append(pieces[i].as_str());
        proof {
            assert(views(pieces@).subrange(0, i + 1) =~= views(pieces@).subrange(0, i as int).push(pieces@[i as int]@));
        }
        i = i + 1;
    }
    proof {
        assert(views(pieces@).subrange(0, i as int) =~= views(pieces@));
    }
    r
}

fn binop_str(op: BinaryOp) -> (r: &'static str)
    ensures
        r@ == binop_symbol(op),
{
    match op {
        BinaryOp::Add => "+",
        BinaryOp::Sub => "-",
        BinaryOp::Mul => "*",
        BinaryOp::Div => "/",
        BinaryOp::Mod => "%",
        BinaryOp::Equal => "==",
        BinaryOp::NotEqual => "!=",
        BinaryOp::LessThan => "<",
        BinaryOp::LessThanEqual => "<=",
        BinaryOp::GreaterThan => ">",
        BinaryOp::GreaterThanEqual => ">=",
        BinaryOp::LogicalAnd => "&&",
        BinaryOp::LogicalOr => "||",
    }
}

fn primitive_str(p: PrimitiveType) -> (r: &'static str)
    ensures
        r@ == primitive_text(p),
{
    match p {
        PrimitiveType::Bool => "bool",
        PrimitiveType::I32 => "i32",
        PrimitiveType::I64 => "i64",
        PrimitiveType::F32 => "f32",
        PrimitiveType::F64 => "f64",
    }
}

impl Expression {
    /// Appends the pieces of the expression to `out`.
    pub fn write_chunks(&self, out: &mut Vec<String>)
        ensures
            views(final(out)@) == views(old(out)@) + expr_chunks(*self),
        decreases *self, 0nat,
    {
        let ghost o = views(out@);
        match &self.variant {
            ExpressionVariant::Literal(l) => match &l.literal {
                Literal::Integral(s) => push_piece(out, s.as_str()),
            },
            ExpressionVariant::VarRef(v) => push_piece(out, v.name().name()),
            ExpressionVariant::BinaryExpression(b) => {
                push_piece(out, "(");
                b.lhs.write_chunks(out);
                push_piece(out, " ");
                push_piece(out, binop_str(b.op));
                push_piece(out, " ");
                b.rhs.write_chunks(out);
                push_piece(out, ")");
            },
            ExpressionVariant::UnaryExpression(u) => {
                push_piece(out, "!");
                u.expr.write_chunks(out);
            },
            ExpressionVariant::CallExpression(c) => c.write_chunks(out),
            ExpressionVariant::DotExpression(d) => {
                d.base.write_chunks(out);
                push_piece(out, ".");
                push_piece(out, d.member.name());
            },
        }
        proof {
            assert(views(out@) =~= o + expr_chunks(*self));
        }
    }

    /// The text of the expression.
    pub fn to_source(&self) -> (r: String)
        ensures
            r@ == expr_chunks(*self).flatten(),
    {
        let mut pieces = Vec::new();
        self.write_chunks(&mut pieces);
        proof {
            assert(views(pieces@) =~= expr_chunks(*self));
        }
        concat_pieces(&pieces)
    }
}

impl CallExpression {
    /// Appends the pieces of `target(arg, arg, ...)` to `out`.
    pub fn write_chunks(&self, out: &mut Vec<String>)
        ensures
            views(final(out)@) == views(old(out)@) + call_chunks(*self),
        decreases *self, self.argument_list.expressions@.len() + 1,
    {
        let ghost o = views(out@);
        self.target.write_chunks(out);
        push_piece(out, "(");
        let args = &self.argument_list.expressions;
        let n = args.len();
        let ghost start = views(out@);
        let mut i: usize = 0;
        proof {
            assert(start + args_chunks(*self, 0) =~= start);
        }
        while i < n
            invariant
                i <= n,
                n == self.argument_list.expressions@.len(),
                args@ == self.argument_list.expressions@,
                views(out@) == start + args_chunks(*self, i as nat),
            decreases n - i,
        {
            if i > 0 {
                push_piece(out, ", ");
            }
            args[i].write_chunks(out);
            proof {
                assert(views(out@) =~= start + args_chunks(*self, (i + 1) as nat));
            }
            i = i + 1;
        }
        push_piece(out, ")");
        proof {
            assert(views(out@) =~= o + call_chunks(*self));
        }
    }
}

impl Statement {
    /// Appends the pieces of the statement to `out`.
    pub fn write_chunks(&self, out: &mut Vec<String>)
        ensures
            views(final(out)@) == views(old(out)@) + stmt_chunks(*self),
        decreases *self, 0nat,
    {
        let ghost o = views(out@);
        match self {
            Statement::Bind(b) => {
                match b.mutability {
                    Mutability::Mutable => push_piece(out, "mut "),
                    Mutability::Immutable => push_piece(out, "let "),
                }
                push_piece(out, b.var.name.name());
                push_piece(out, " = ");
                b.expr.write_chunks(out);
            },
            Statement::Rebind(r) => {
                push_piece(out, r.var.name().name());
                push_piece(out, " = ");
                r.expr.write_chunks(out);
            },
            Statement::Ret(r) => {
                push_piece(out, "ret ");
                r.expr.write_chunks(out);
            },
            Statement::CallStatement(c) => c.write_chunks(out),
            Statement::IfStatement(i) => i.write_chunks(out),
            Statement::LoopStatement(l) => {
                push_piece(out, "loop ");
                l.body.write_chunks(out);
            },
            Statement::Block(b) => b.write_chunks(out),
            Statement::Break => push_piece(out, "break"),
        }
        proof {
            assert(views(out@) =~= o + stmt_chunks(*self));
        }
    }

    /// The text of the statement.
    pub fn to_source(&self) -> (r: String)
        ensures
            r@ == stmt_chunks(*self).flatten(),
    {
        let mut pieces = Vec::new();
        self.write_chunks(&mut pieces);
        proof {
            assert(views(pieces@) =~= stmt_chunks(*self));
        }
        concat_pieces(&pieces)
    }
}

impl Block {
    /// Appends the pieces of `{`, each statement on a line of its own, and
    /// `}` to `out`.
    pub fn write_chunks(&self, out: &mut Vec<String>)
        ensures
            views(final(out)@) == views(old(out)@) + block_chunks(*self),
        decreases *self, self.statements@.len() + 1,
    {
        let ghost o = views(out@);
        push_piece(out, "{\n");
        let ghost start = views(out@);
        let n = self.statements.len();
        let mut i: usize = 0;
        proof {
            assert(start + stmts_chunks(*self, 0) =~= start);
        }
        while i < n
            invariant
                i <= n,
                n == self.statements@.len(),
                views(out@) == start + stmts_chunks(*self, i as nat),
            decreases n - i,
        {
            self.statements[i].write_chunks(out);
            push_piece(out, "\n");
            proof {
                assert(views(out@) =~= start + stmts_chunks(*self, (i + 1) as nat));
            }
            i = i + 1;
        }
        push_piece(out, "}");
        proof {
            assert(views(out@) =~= o + block_chunks(*self));
        }
    }
}

impl IfStatement {
    /// Appends the pieces of `if condition body` and the else clause to `out`.
    pub fn write_chunks(&self, out: &mut Vec<String>)
        ensures
            views(final(out)@) == views(old(out)@) + if_chunks(*self),
        decreases *self, 0nat,
    {
        let ghost o = views(out@);
        push_piece(out, "if ");
        self.condition.write_chunks(out);
        push_piece(out, " ");
        self.body.write_chunks(out);
        match &self.else_clause {
            ElseClause::Empty => {},
            ElseClause::Else(b) => {
                push_piece(out, " else ");
                b.write_chunks(out);
            },
            ElseClause::ElseIf(e) => {
                push_piece(out, " else ");
                e.write_chunks(out);
            },
        }
        proof {
            assert(views(out@) =~= o + if_chunks(*self));
        }
    }
}

impl TypeExpression {
    /// Appends the pieces of the type to `out`.
    pub fn write_chunks(&self, out: &mut Vec<String>)
        ensures
            views(final(out)@) == views(old(out)@) + type_chunks(*self),
        decreases *self, 0nat,
    {
        let ghost o = views(out@);
        match &self.variant {
            TypeExpressionVariant::Unit => push_piece(out, "unit"),
            TypeExpressionVariant::Primitive(p) => push_piece(out, primitive_str(*p)),
            TypeExpressionVariant::Named(i) => push_piece(out, i.name()),
            TypeExpressionVariant::AnonymousStruct(d) => d.write_chunks(out),
            TypeExpressionVariant::InlineFn(f) => {
                f.args.write_chunks(out);
                push_piece(out, " -> ");
                f.return_type.write_chunks(out);
            },
        }
        proof {
            assert(views(out@) =~= o + type_chunks(*self));
        }
    }

    /// The text of the type.
    pub fn to_source(&self) -> (r: String)
        ensures
            r@ == type_chunks(*self).flatten(),
    {
        let mut pieces = Vec::new();
        self.write_chunks(&mut pieces);
        proof {
            assert(views(pieces@) =~= type_chunks(*self));
        }
        concat_pieces(&pieces)
    }
}

impl TypeExpressionList {
    /// Appends `()`, or the types in parentheses separated by `,` as one
    /// piece, to `out`.
    pub fn write_chunks(&self, out: &mut Vec<String>)
        ensures
            views(final(out)@) == views(old(out)@) + type_list_chunks(*self),
        decreases *self, self.expressions@.len() + 1,
    {
        let ghost o = views(out@);
        let n = self.expressions.len();
        if n == 0 {
            push_piece(out, "()");
            return;
        }
        let mut joined = String::new();
        let mut i: usize = 0;
        while i < n
            invariant
                i <= n,
                n == self.expressions@.len(),
                joined@ == types_joined(*self, i as nat),
            decreases n - i,
        {
            if i > 0 {
                joined.append(",");
            }
            let mut pieces = Vec::new();
            self.expressions[i].write_chunks(&mut pieces);
            proof {
                assert(views(pieces@) =~= type_chunks(self.expressions@[i as int]));
            }
            let text = concat_pieces(&pieces);
            joined.append(text.as_str());
            proof {
                if i == 0 {
                    assert(joined@ =~= types_joined(*self, 1));
                } else {
                    assert(joined@ =~= types_joined(*self, (i + 1) as nat));
                }
            }
            i = i + 1;
        }
        push_piece(out, "(");
        push_piece(out, joined.as_str());
        push_piece(out, ")");
        proof {
            assert(views(out@) =~= o + type_list_chunks(*self));
        }
    }
}

impl StructuredTypeDecl {
    /// Appends the pieces of `{ name: type, ... }` to `out`.
    pub fn write_chunks(&self, out: &mut Vec<String>)
        ensures
            views(final(out)@) == views(old(out)@) + struct_chunks(*self),
        decreases *self, self.fields@.len() + 1,
    {
        let ghost o = views(out@);
        push_piece(out, "{ ");
        let ghost start = views(out@);
        let n = self.fields.len();
        let mut i: usize = 0;
        proof {
            assert(start + fields_chunks(*self, 0) =~= start);
        }
        while i < n
            invariant
                i <= n,
                n == self.fields@.len(),
                views(out@) == start + fields_chunks(*self, i as nat),
            decreases n - i,
        {
            if i > 0 {
                push_piece(out, ", ");
            }
            push_piece(out, self.fields[i].name.name());
            push_piece(out, ": ");
            self.fields[i].ty.write_chunks(out);
            proof {
                assert(views(out@) =~= start + fields_chunks(*self, (i + 1) as nat));
            }
            i = i + 1;
        }
        push_piece(out, " }");
        proof {
            assert(views(out@) =~= o + struct_chunks(*self));
        }
    }
}

impl FunctionParameters {
    /// Appends the pieces of the parameters, `name: type` separated by
    /// `, `, to `out`.
    pub fn write_chunks(&self, out: &mut Vec<String>)
        ensures
            views(final(out)@) == views(old(out)@) + params_chunks(*self, self.parameters@.len()),
    {
        let ghost start = views(out@);
        let n = self.parameters.len();
        let mut i: usize = 0;
        proof {
            assert(start + params_chunks(*self, 0) =~= start);
        }
        while i < n
            invariant
                i <= n,
                n == self.parameters@.len(),
                views(out@) == start + params_chunks(*self, i as nat),
            decreases n - i,
        {
            if i > 0 {
                push_piece(out, ", ");
            }
            push_piece(out, self.parameters[i].var.name.name());
            push_piece(out, ": ");
            self.parameters[i].ty.write_chunks(out);
            proof {
                assert(views(out@) =~= start + params_chunks(*self, (i + 1) as nat));
            }
            i = i + 1;
        }
    }
}

impl FunctionDecl {
    /// Appends the pieces of `fn name(params) -> type body` and a line
    /// break to `out`.
    pub fn write_chunks(&self, out: &mut Vec<String>)
        ensures
            views(final(out)@) == views(old(out)@) + fn_chunks(*self),
    {
        let ghost o = views(out@);
        push_piece(out, "fn ");
        push_piece(out, self.name.name.name());
        push_piece(out, "(");
        self.parameters.write_chunks(out);
        match &self.return_type {
            Some(t) => {
                push_piece(out, ") -> ");
                t.write_chunks(out);
                push_piece(out, " ");
            },
            None => push_piece(out, ") "),
        }
        self.body.write_chunks(out);
        push_piece(out, "\n");
        proof {
            assert(views(out@) =~= o + fn_chunks(*self));
        }
    }

    /// The text of the function.
    pub fn to_source(&self) -> (r: String)
        ensures
            r@ == fn_chunks(*self).flatten(),
    {
        let mut pieces = Vec::new();
        self.write_chunks(&mut pieces);
        proof {
            assert(views(pieces@) =~= fn_chunks(*self));
        }
        concat_pieces(&pieces)
    }
}

impl EnumVariant {
    /// Appends the pieces of `name type` to `out`.
    pub fn write_chunks(&self, out: &mut Vec<String>)
        ensures
            views(final(out)@) == views(old(out)@) + variant_chunks(*self),
    {
        let ghost o = views(out@);
        push_piece(out, self.name.name());
        push_piece(out, " ");
        match &self.ty {
            EnumVariantType::TypeExpression(t) => t.write_chunks(out),
            EnumVariantType::Empty => {},
        }
        proof {
            assert(views(out@) =~= o + variant_chunks(*self));
        }
    }
}

impl EnumTypeDecl {
    /// Appends the pieces of a line break, then each variant on a line of
    /// its own after `| `, to `out`.
    pub fn write_chunks(&self, out: &mut Vec<String>)
        ensures
            views(final(out)@) == views(old(out)@) + enum_chunks(*self, self.variants@.len()),
    {
        let ghost o = views(out@);
        push_piece(out, "\n");
        let n = self.variants.len();
        let mut i: usize = 0;
        while i < n
            invariant
                i <= n,
                n == self.variants@.len(),
                views(out@) == o + enum_chunks(*self, i as nat),
            decreases n - i,
        {
            push_piece(out, "| ");
            self.variants[i].write_chunks(out);
            push_piece(out, "\n");
            proof {
                assert(views(out@) =~= o + enum_chunks(*self, (i + 1) as nat));
            }
            i = i + 1;
        }
    }
}

impl TypeDecl {
    /// Appends the pieces of `type Name = decl` and a line break to `out`.
    pub fn write_chunks(&self, out: &mut Vec<String>)
        ensures
            views(final(out)@) == views(old(out)@) + type_decl_chunks(*self),
    {
        let ghost o = views(out@);
        push_piece(out, "type ");
        push_piece(out, self.name.name());
        push_piece(out, " = ");
        match &self.decl {
            TypeDeclVariant::Enum(e) => e.write_chunks(out),
            TypeDeclVariant::Alias(a) => a.write_chunks(out),
        }
        push_piece(out, "\n");
        proof {
            assert(views(out@) =~= o + type_decl_chunks(*self));
        }
    }
}

impl JangFile {
    /// Appends the pieces of the type declarations, then of the functions,
    /// to `out`.
    pub fn write_chunks(&self, out: &mut Vec<String>)
        ensures
            views(final(out)@) == views(old(out)@) + file_chunks(*self),
    {
        let ghost o = views(out@);
        let n = self.type_decls.len();
        let mut i: usize = 0;
        proof {
            assert(o + type_decls_chunks(*self, 0) =~= o);
        }
        while i < n
            invariant
                i <= n,
                n == self.type_decls@.len(),
                views(out@) == o + type_decls_chunks(*self, i as nat),
            decreases n - i,
        {
            self.type_decls[i].write_chunks(out);
            proof {
                assert(views(out@) =~= o + type_decls_chunks(*self, (i + 1) as nat));
            }
            i = i + 1;
        }
        let ghost mid = views(out@);
        let m = self.function_decls.len();
        let mut j: usize = 0;
        proof {
            assert(mid + fns_chunks(*self, 0) =~= mid);
        }
        while j < m
            invariant
                j <= m,
                m == self.function_decls@.len(),
                views(out@) == mid + fns_chunks(*self, j as nat),
            decreases m - j,
        {
            self.function_decls[j].write_chunks(out);
            proof {
                assert(views(out@) =~= mid + fns_chunks(*self, (j + 1) as nat));
            }
            j = j + 1;
        }
        proof {
            assert(views(out@) =~= o + file_chunks(*self));
        }
    }

    /// The text of the file.
    pub fn to_source(&self) -> (r: String)
        ensures
            r@ == file_chunks(*self).flatten(),
    {
        let mut pieces = Vec::new();
        self.write_chunks(&mut pieces);
        proof {
            assert(views(pieces@) =~= file_chunks(*self));
        }
        concat_pieces(&pieces)
    }
}

impl AssignmentStatement {
    /// Appends the pieces of `let name = expr` to `out`.
    pub fn write_chunks(&self, out: &mut Vec<String>)
        ensures
            views(final(out)@) == views(old(out)@) + assignment_chunks(*self),
    {
        let ghost o = views(out@);
        push_piece(out, "let ");
        push_piece(out, self.var.name());
        push_piece(out, " = ");
        self.expr.write_chunks(out);
        proof {
            assert(views(out@) =~= o + assignment_chunks(*self));
        }
    }
}

impl LetStatement {
    /// Appends the pieces of `let name = expr` to `out`.
    pub fn write_chunks(&self, out: &mut Vec<String>)
        ensures
            views(final(out)@) == views(old(out)@) + let_chunks(*self),
    {
        let ghost o = views(out@);
        push_piece(out, "let ");
        push_piece(out, self.var.name());
        push_piece(out, " = ");
        self.expr.write_chunks(out);
        proof {
            assert(views(out@) =~= o + let_chunks(*self));
        }
    }
}

impl StructFieldInitializer {
    /// Appends the pieces of `name: value` to `out`.
    pub fn write_chunks(&self, out: &mut Vec<String>)
        ensures
            views(final(out)@) == views(old(out)@) + field_init_chunks(*self),
    {
        let ghost o = views(out@);
        push_piece(out, self.name.name());
        push_piece(out, ": ");
        self.value.write_chunks(out);
        proof {
            assert(views(out@) =~= o + field_init_chunks(*self));
        }
    }
}

impl StructExpression {
    /// Appends the pieces of the field initializers, separated by a space,
    /// to `out`.
    pub fn write_chunks(&self, out: &mut Vec<String>)
        ensures
            views(final(out)@) == views(old(out)@) + struct_expr_chunks(*self, self.fields@.len()),
    {
        let ghost start = views(out@);
        let n = self.fields.len();
        let mut i: usize = 0;
        proof {
            assert(start + struct_expr_chunks(*self, 0) =~= start);
        }
        while i < n
            invariant
                i <= n,
                n == self.fields@.len(),
                views(out@) == start + struct_expr_chunks(*self, i as nat),
            decreases n - i,
        {
            if i > 0 {
                push_piece(out, " ");
            }
            self.fields[i].write_chunks(out);
            proof {
                assert(views(out@) =~= start + struct_expr_chunks(*self, (i + 1) as nat));
            }
            i = i + 1;
        }
    }
}


/// The printed form of a binding begins with `mut ` exactly when the binding
/// is mutable and with `let ` exactly when it is immutable, followed by the
/// bound name: printing a binding keeps whether it may be rebound.
pub proof fn lemma_binding_text_shows_mutability(b: BindStatement)
    ensures
        ({
            let text = stmt_chunks(Statement::Bind(b)).flatten();
            &&& text.len() >= 4 + b.var.name@.len()
            &&& (text.subrange(0, 4) == "mut "@ <==> b.mutability == Mutability::Mutable)
            &&& (text.subrange(0, 4) == "let "@ <==> b.mutability == Mutability::Immutable)
            &&& text.subrange(4, 4 + b.var.name@.len() as int) == b.var.name@
        }),
{
    reveal_strlit("mut ");
    reveal_strlit("let ");
    let chunks = stmt_chunks(Statement::Bind(b));
    let keyword = if b.mutability == Mutability::Mutable { "mut "@ } else { "let "@ };
    let rest = chunks.drop_first().drop_first().flatten();
    assert(chunks.drop_first().flatten() == b.var.name@ + rest);
    assert(chunks.flatten() == keyword + chunks.drop_first().flatten());
    let text = chunks.flatten();
    assert(text =~= keyword + (b.var.name@ + rest));
    assert(text.subrange(0, 4) =~= keyword);
    assert(text.subrange(4, 4 + b.var.name@.len() as int) =~= b.var.name@);
    assert("mut "@[0] != "let "@[0]);
}


/// Different operators are printed differently: the printed symbol tells
/// which operator it was.
pub proof fn lemma_operators_print_distinctly(a: BinaryOp, b: BinaryOp)
    ensures
        binop_symbol(a) == binop_symbol(b) ==> a == b,
{
    reveal_strlit("+");
    reveal_strlit("-");
    reveal_strlit("*");
    reveal_strlit("/");
    reveal_strlit("%");
    reveal_strlit("==");
    reveal_strlit("!=");
    reveal_strlit("<");
    reveal_strlit("<=");
    reveal_strlit(">");
    reveal_strlit(">=");
    reveal_strlit("&&");
    reveal_strlit("||");
    if binop_symbol(a) == binop_symbol(b) {
        assert(binop_symbol(a).len() == binop_symbol(b).len());
        assert(binop_symbol(a)[0] == binop_symbol(b)[0]);
    }
}

} // verus!

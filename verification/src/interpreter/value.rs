use vstd::prelude::*;
use vstd::string::*;

use crate::{
    interpreter::{
        error::{InterpreterError, InterpreterResult},
        parse_as::{all_digits, digits_part, digits_value, is_digit, parse_error_message, parse_i64, spec_parse_i64},
    },
    parser::{
        ast::{binary_expression::BinaryOp, unary_experssion::UnaryOp},
        token::literal::Literal,
    },
};

verus! {

/// A value of the running program. A function value is the index of a
/// compiled function in the program.
#[derive(Clone, Copy, Debug, PartialEq, Eq, Structural)]
pub enum Value {
    Unit,
    Bool(bool),
    Int32(i32),
    Int64(i64),
    Function(usize),
}

/// A pair of two identically-typed numeric values.
#[derive(Clone, Copy, Debug)]
enum NumericValuePair {
    Int32(i32, i32),
    Int64(i64, i64),
}

/// The name of a value's type, as error messages show it.
pub open spec fn value_type_name(v: Value) -> Seq<char> {
    match v {
        Value::Unit => "unit"@,
        Value::Bool(_) => "bool"@,
        Value::Int32(_) => "i32"@,
        Value::Int64(_) => "i64"@,
        Value::Function(_) => "<compiled-bytecode>"@,
    }
}

/// The text of a decimal digit.
pub open spec fn digit_text(d: int) -> Seq<char> {
    if d == 0 {
        "0"@
    } else if d == 1 {
        "1"@
    } else if d == 2 {
        "2"@
    } else if d == 3 {
        "3"@
    } else if d == 4 {
        "4"@
    } else if d == 5 {
        "5"@
    } else if d == 6 {
        "6"@
    } else if d == 7 {
        "7"@
    } else if d == 8 {
        "8"@
    } else {
        "9"@
    }
}

/// The decimal digits of a natural number, most significant first.
pub open spec fn nat_text(n: nat) -> Seq<char>
    decreases n,
{
    if n < 10 {
        digit_text(n as int)
    } else {
        nat_text(n / 10) + digit_text((n % 10) as int)
    }
}

/// An integer in decimal, with a leading `-` when it is negative.
pub open spec fn int_text(i: int) -> Seq<char> {
    if i < 0 {
        "-"@ + nat_text((-i) as nat)
    } else {
        nat_text(i as nat)
    }
}

/// How a value is shown in error messages: the debug form of a runtime value,
/// a primitive inside `Primitive(..)`. A function is shown by its index in
/// the program.
pub open spec fn value_text(v: Value) -> Seq<char> {
    match v {
        Value::Unit => "Unit"@,
        Value::Bool(b) => if b {
            "Primitive(Bool(true))"@
        } else {
            "Primitive(Bool(false))"@
        },
        Value::Int32(x) => "Primitive(Int32("@ + int_text(x as int) + "))"@,
        Value::Int64(x) => "Primitive(Int64("@ + int_text(x as int) + "))"@,
        Value::Function(i) => "JitCompiledFunctionRef("@ + nat_text(i as nat) + ")"@,
    }
}

/// The text of a decimal digit.
fn digit_str(d: u64) -> (r: &'static str)
    requires
        d < 10,
    ensures
        r@ == digit_text(d as int),
{
    if d == 0 {
        "0"
    } else if d == 1 {
        "1"
    } else if d == 2 {
        "2"
    } else if d == 3 {
        "3"
    } else if d == 4 {
        "4"
    } else if d == 5 {
        "5"
    } else if d == 6 {
        "6"
    } else if d == 7 {
        "7"
    } else if d == 8 {
        "8"
    } else {
        "9"
    }
}

/// Appends the decimal digits of `n`.
fn append_nat(out: &mut String, n: u64)
    ensures
        final(out)@ == old(out)@ + nat_text(n as nat),
    decreases n,
{
    if n >= 10 {
        append_nat(out, n / 10);
        out.append(digit_str(n % 10));
        proof {
            assert(old(out)@ + nat_text(n as nat) =~= old(out)@ + nat_text((n / 10) as nat) + digit_text((n % 10) as int));
        }
    } else {
        out.append(digit_str(n));
    }
}

/// Appends an integer in decimal.
fn append_int(out: &mut String, i: i64)
    ensures
        final(out)@ == old(out)@ + int_text(i as int),
{
    if i < 0 {
        out.append("-");
        let wide: i128 = i as i128;
        let m: u64 = (0 - wide) as u64;
        append_nat(out, m);
        proof {
            assert(old(out)@ + int_text(i as int) =~= old(out)@ + "-"@ + nat_text(m as nat));
        }
    } else {
        append_nat(out, i as u64);
    }
}

/// Whether two values are integers of the same width.
pub open spec fn same_width_ints(a: Value, b: Value) -> bool {
    ||| (a is Int32 && b is Int32)
    ||| (a is Int64 && b is Int64)
}

/// The exact result of an integer operation on two values of the same width,
/// given as a function on mathematical integers, if it fits the width.
pub open spec fn int_result(a: Value, b: Value, f: spec_fn(int, int) -> int) -> Option<Value> {
    match (a, b) {
        (Value::Int32(x), Value::Int32(y)) => if i32::MIN <= f(x as int, y as int) <= i32::MAX {
            Some(Value::Int32(f(x as int, y as int) as i32))
        } else {
            None
        },
        (Value::Int64(x), Value::Int64(y)) => if i64::MIN <= f(x as int, y as int) <= i64::MAX {
            Some(Value::Int64(f(x as int, y as int) as i64))
        } else {
            None
        },
        _ => None,
    }
}

pub open spec fn spec_add(a: Value, b: Value) -> Option<Value> {
    int_result(a, b, |x: int, y: int| x + y)
}

pub open spec fn spec_sub(a: Value, b: Value) -> Option<Value> {
    int_result(a, b, |x: int, y: int| x - y)
}

pub open spec fn spec_mul(a: Value, b: Value) -> Option<Value> {
    int_result(a, b, |x: int, y: int| x * y)
}

/// Division truncating toward zero, as Rust's integer division does.
pub open spec fn spec_div(a: Value, b: Value) -> Option<Value> {
    match (a, b) {
        (Value::Int32(x), Value::Int32(y)) => match x.checked_div(y) {
            Some(z) => Some(Value::Int32(z)),
            None => None,
        },
        (Value::Int64(x), Value::Int64(y)) => match x.checked_div(y) {
            Some(z) => Some(Value::Int64(z)),
            None => None,
        },
        _ => None,
    }
}

/// The remainder of division truncating toward zero.
pub open spec fn spec_rem(a: Value, b: Value) -> Option<Value> {
    match (a, b) {
        (Value::Int32(x), Value::Int32(y)) => match x.checked_rem(y) {
            Some(z) => Some(Value::Int32(z)),
            None => None,
        },
        (Value::Int64(x), Value::Int64(y)) => match x.checked_rem(y) {
            Some(z) => Some(Value::Int64(z)),
            None => None,
        },
        _ => None,
    }
}

/// A comparison of two integers of the same width.
pub open spec fn spec_compare(a: Value, b: Value, f: spec_fn(int, int) -> bool) -> Option<Value> {
    match (a, b) {
        (Value::Int32(x), Value::Int32(y)) => Some(Value::Bool(f(x as int, y as int))),
        (Value::Int64(x), Value::Int64(y)) => Some(Value::Bool(f(x as int, y as int))),
        _ => None,
    }
}

/// Equality is defined for two booleans or two integers of the same width.
pub open spec fn spec_equal(a: Value, b: Value) -> Option<bool> {
    match (a, b) {
        (Value::Bool(x), Value::Bool(y)) => Some(x == y),
        (Value::Int32(x), Value::Int32(y)) => Some(x == y),
        (Value::Int64(x), Value::Int64(y)) => Some(x == y),
        _ => None,
    }
}

/// The result of a binary operator, or `None` when the operator fails:
/// operands of the wrong types, division by zero, or a result that does
/// not fit.
pub open spec fn binop_spec(op: BinaryOp, a: Value, b: Value) -> Option<Value> {
    match op {
        BinaryOp::Add => spec_add(a, b),
        BinaryOp::Sub => spec_sub(a, b),
        BinaryOp::Mul => spec_mul(a, b),
        BinaryOp::Div => spec_div(a, b),
        BinaryOp::Mod => spec_rem(a, b),
        BinaryOp::Equal => match spec_equal(a, b) {
            Some(e) => Some(Value::Bool(e)),
            None => None,
        },
        BinaryOp::NotEqual => match spec_equal(a, b) {
            Some(e) => Some(Value::Bool(!e)),
            None => None,
        },
        BinaryOp::LessThan => spec_compare(a, b, |x: int, y: int| x < y),
        BinaryOp::LessThanEqual => spec_compare(a, b, |x: int, y: int| x <= y),
        BinaryOp::GreaterThan => spec_compare(a, b, |x: int, y: int| x > y),
        BinaryOp::GreaterThanEqual => spec_compare(a, b, |x: int, y: int| x >= y),
        BinaryOp::LogicalAnd => match (a, b) {
            (Value::Bool(x), Value::Bool(y)) => Some(Value::Bool(x && y)),
            _ => None,
        },
        BinaryOp::LogicalOr => match (a, b) {
            (Value::Bool(x), Value::Bool(y)) => Some(Value::Bool(x || y)),
            _ => None,
        },
    }
}

/// The result of a unary operator, or `None` when the operand has the wrong
/// type.
pub open spec fn unop_spec(op: UnaryOp, a: Value) -> Option<Value> {
    match op {
        UnaryOp::LogicalNot => match a {
            Value::Bool(x) => Some(Value::Bool(!x)),
            _ => None,
        },
    }
}

/// Whether a value counts as true where a condition is expected: a boolean
/// by its value, an integer when it is not zero. Other values are errors.
pub open spec fn truthy_spec(a: Value) -> Option<bool> {
    match a {
        Value::Bool(x) => Some(x),
        Value::Int32(x) => Some(x != 0),
        Value::Int64(x) => Some(x != 0),
        _ => None,
    }
}

/// The name an operator's errors give it.
pub open spec fn op_name(op: BinaryOp) -> Seq<char> {
    match op {
        BinaryOp::Add => "add"@,
        BinaryOp::Sub => "subtract"@,
        BinaryOp::Mul => "multiply"@,
        BinaryOp::Div => "divide"@,
        BinaryOp::Mod => "modulo"@,
        BinaryOp::Equal => "equal"@,
        BinaryOp::NotEqual => "not equal"@,
        BinaryOp::LessThan => "less than"@,
        BinaryOp::LessThanEqual => "less than equal"@,
        BinaryOp::GreaterThan => "greater than"@,
        BinaryOp::GreaterThanEqual => "greater than equal"@,
        BinaryOp::LogicalAnd => "logical and"@,
        BinaryOp::LogicalOr => "logical or"@,
    }
}

/// The message of a numeric operator applied to other than two integers of
/// the same width.
pub open spec fn numeric_mismatch(op: Seq<char>, a: Value, b: Value) -> Seq<char> {
    op + ": expected matching numeric operands, got "@ + value_type_name(a) + " and "@ + value_type_name(b)
}

/// The message of a value that should have been a boolean.
pub open spec fn not_bool(a: Value) -> Seq<char> {
    "expected bool, got "@ + value_type_name(a) + " ("@ + value_text(a) + ")"@
}

/// The message of a value that should have been a function.
pub open spec fn not_a_function(a: Value) -> Seq<char> {
    "expected value to be a JIT-compiled function: "@ + value_text(a)
}

/// The message of a logical operator with an operand that is not a boolean;
/// it names the type of the left operand.
pub open spec fn bool_mismatch(op: Seq<char>, a: Value) -> Seq<char> {
    op + ": "@ + "expected bool, got "@ + value_type_name(a) + " ("@ + value_text(a) + ")"@
}

/// The message of equality between values it is not defined for.
pub open spec fn equality_mismatch(a: Value, b: Value) -> Seq<char> {
    "operands not supported for equality, got "@ + value_type_name(a) + " and "@ + value_type_name(b)
}

/// The message a binary operator fails with where [`binop_spec`] gives no
/// result.
pub open spec fn binop_error(op: BinaryOp, a: Value, b: Value) -> Seq<char> {
    match op {
        BinaryOp::Add | BinaryOp::Sub | BinaryOp::Mul => if same_width_ints(a, b) {
            "arithmetic overflow"@
        } else {
            numeric_mismatch(op_name(op), a, b)
        },
        BinaryOp::Div => if same_width_ints(a, b) {
            "division by zero: "@ + value_text(a) + " / "@ + value_text(b)
        } else {
            numeric_mismatch(op_name(op), a, b)
        },
        BinaryOp::Mod => if same_width_ints(a, b) {
            "modulo by zero: "@ + value_text(a) + " % "@ + value_text(b)
        } else {
            numeric_mismatch(op_name(op), a, b)
        },
        BinaryOp::Equal | BinaryOp::NotEqual => equality_mismatch(a, b),
        BinaryOp::LogicalAnd | BinaryOp::LogicalOr => bool_mismatch(op_name(op), a),
        _ => numeric_mismatch(op_name(op), a, b),
    }
}

/// The value of a literal.
pub open spec fn literal_spec(l: Literal) -> Option<Value> {
    match l {
        Literal::Integral(text) => match spec_parse_i64(text@) {
            Some(v) => Some(Value::Int64(v)),
            None => None,
        },
    }
}

/// `op` followed by a message.
fn message(op: &str, text: &str) -> (r: String)
    ensures
        r@ == op@ + text@,
{
    let mut m = String::from_str(op);
    m.append(text);
    m
}

impl Value {
    /// Appends how the value is shown in error messages.
    pub(crate) fn append_text(&self, out: &mut String)
        ensures
            final(out)@ == old(out)@ + value_text(*self),
    {
        match self {
            Value::Unit => out.append("Unit"),
            Value::Bool(b) => if *b {
                out.append("Primitive(Bool(true))")
            } else {
                out.append("Primitive(Bool(false))")
            },
            Value::Int32(x) => {
                out.append("Primitive(Int32(");
                append_int(out, *x as i64);
                out.append("))");
            },
            Value::Int64(x) => {
                out.append("Primitive(Int64(");
                append_int(out, *x);
                out.append("))");
            },
            Value::Function(i) => {
                out.append("JitCompiledFunctionRef(");
                append_nat(out, *i as u64);
                out.append(")");
            },
        }
        proof {
            assert(final(out)@ =~= old(out)@ + value_text(*self));
        }
    }

    /// The message of a value that should have been a boolean, after `prefix`.
    fn not_bool_message(&self, prefix: &str) -> (r: String)
        ensures
            r@ == prefix@ + "expected bool, got "@ + value_type_name(*self) + " ("@ + value_text(*self) + ")"@,
    {
        let mut m = message(prefix, "expected bool, got ");
        m.append(self.debug_type_name());
        m.append(" (");
        self.append_text(&mut m);
        m.append(")");
        m
    }

    /// The message of a division by zero: `what`, the two operands and `sign`
    /// between them.
    fn by_zero_message(&self, divisor: &Self, what: &str, sign: &str) -> (r: String)
        ensures
            r@ == what@ + value_text(*self) + sign@ + value_text(*divisor),
    {
        let mut m = String::from_str(what);
        self.append_text(&mut m);
        m.append(sign);
        divisor.append_text(&mut m);
        m
    }

    pub fn debug_type_name(&self) -> (r: &'static str)
        ensures
            r@ == value_type_name(*self),
    {
        match self {
            Value::Unit => "unit",
            Value::Bool(_) => "bool",
            Value::Int32(_) => "i32",
            Value::Int64(_) => "i64",
            Value::Function(_) => "<compiled-bytecode>",
        }
    }

    fn mismatch_error(&self, other: &Self, op: &str, what: &str) -> (r: InterpreterError)
        ensures
            r is Value,
            r->Value_0@ == op@ + what@ + value_type_name(*self) + " and "@ + value_type_name(*other),
    {
        let mut m = message(op, what);
        m.append(self.debug_type_name());
        m.append(" and ");
        m.append(other.debug_type_name());
        InterpreterError::Value(m)
    }

    fn expect_numeric_pair(&self, other: &Self, op: &str) -> (r: InterpreterResult<NumericValuePair>)
        ensures
            match (*self, *other) {
                (Value::Int32(a), Value::Int32(b)) => r matches Ok(NumericValuePair::Int32(x, y)) && x == a && y == b,
                (Value::Int64(a), Value::Int64(b)) => r matches Ok(NumericValuePair::Int64(x, y)) && x == a && y == b,
                _ => r is Err && r->Err_0 is Value && r->Err_0->Value_0@ == numeric_mismatch(op@, *self, *other),
            },
    {
        match (self, other) {
            (Value::Int32(a), Value::Int32(b)) => Ok(NumericValuePair::Int32(*a, *b)),
            (Value::Int64(a), Value::Int64(b)) => Ok(NumericValuePair::Int64(*a, *b)),
            _ => Err(self.mismatch_error(other, op, ": expected matching numeric operands, got ")),
        }
    }

    pub fn expect_bool(&self) -> (r: InterpreterResult<bool>)
        ensures
            match *self {
                Value::Bool(b) => r == Ok::<bool, InterpreterError>(b),
                _ => r is Err && r->Err_0 is Value && r->Err_0->Value_0@ == not_bool(*self),
            },
    {
        match self {
            Value::Bool(v) => Ok(*v),
            _ => {
                proof {
                    reveal_strlit("");
                }
                let m = self.not_bool_message("");
                Err(InterpreterError::Value(m))
            },
        }
    }

    fn expect_bool_pair(&self, other: &Self, op: &str) -> (r: InterpreterResult<(bool, bool)>)
        ensures
            match (*self, *other) {
                (Value::Bool(a), Value::Bool(b)) => r == Ok::<(bool, bool), InterpreterError>((a, b)),
                _ => r is Err && r->Err_0 is Value && r->Err_0->Value_0@ == bool_mismatch(op@, *self),
            },
    {
        match (self, other) {
            (Value::Bool(a), Value::Bool(b)) => Ok((*a, *b)),
            _ => {
                let prefix = message(op, ": ");
                let m = self.not_bool_message(prefix.as_str());
                proof {
                    assert(m@ =~= bool_mismatch(op@, *self));
                }
                Err(InterpreterError::Value(m))
            },
        }
    }

    pub fn logical_and(&self, other: &Self) -> (r: InterpreterResult<Self>)
        ensures
            match binop_spec(BinaryOp::LogicalAnd, *self, *other) {
                Some(v) => r == Ok::<Value, InterpreterError>(v),
                None => r is Err && r->Err_0 is Value && r->Err_0->Value_0@ == binop_error(BinaryOp::LogicalAnd, *self, *other),
            },
    {
        let (a, b) = self.expect_bool_pair(other, "logical and")?;
        Ok(Value::Bool(a && b))
    }

    pub fn logical_or(&self, other: &Self) -> (r: InterpreterResult<Self>)
        ensures
            match binop_spec(BinaryOp::LogicalOr, *self, *other) {
                Some(v) => r == Ok::<Value, InterpreterError>(v),
                None => r is Err && r->Err_0 is Value && r->Err_0->Value_0@ == binop_error(BinaryOp::LogicalOr, *self, *other),
            },
    {
        let (a, b) = self.expect_bool_pair(other, "logical or")?;
        Ok(Value::Bool(a || b))
    }

    pub fn logical_not(&self) -> (r: InterpreterResult<Self>)
        ensures
            match unop_spec(UnaryOp::LogicalNot, *self) {
                Some(v) => r == Ok::<Value, InterpreterError>(v),
                None => r is Err && r->Err_0 is Value && r->Err_0->Value_0@ == not_bool(*self),
            },
    {
        Ok(Value::Bool(!self.expect_bool()?))
    }

    /// Multiplies two integers of the same width. The product must fit.
    pub fn multiply(&self, other: &Self) -> (r: InterpreterResult<Self>)
        requires
            same_width_ints(*self, *other) ==> spec_mul(*self, *other) is Some,
        ensures
            match spec_mul(*self, *other) {
                Some(v) => r == Ok::<Value, InterpreterError>(v),
                None => r is Err && r->Err_0 is Value && r->Err_0->Value_0@ == binop_error(BinaryOp::Mul, *self, *other),
            },
    {
        match self.expect_numeric_pair(other, "multiply")? {
            NumericValuePair::Int32(a, b) => Ok(Value::Int32(a * b)),
            NumericValuePair::Int64(a, b) => Ok(Value::Int64(a * b)),
        }
    }

    /// Adds two integers of the same width. The sum must fit.
    pub fn add(&self, other: &Self) -> (r: InterpreterResult<Self>)
        requires
            same_width_ints(*self, *other) ==> spec_add(*self, *other) is Some,
        ensures
            match spec_add(*self, *other) {
                Some(v) => r == Ok::<Value, InterpreterError>(v),
                None => r is Err && r->Err_0 is Value && r->Err_0->Value_0@ == binop_error(BinaryOp::Add, *self, *other),
            },
    {
        match self.expect_numeric_pair(other, "add")? {
            NumericValuePair::Int32(a, b) => Ok(Value::Int32(a + b)),
            NumericValuePair::Int64(a, b) => Ok(Value::Int64(a + b)),
        }
    }

    /// Subtracts two integers of the same width. The difference must fit.
    pub fn subtract(&self, other: &Self) -> (r: InterpreterResult<Self>)
        requires
            same_width_ints(*self, *other) ==> spec_sub(*self, *other) is Some,
        ensures
            match spec_sub(*self, *other) {
                Some(v) => r == Ok::<Value, InterpreterError>(v),
                None => r is Err && r->Err_0 is Value && r->Err_0->Value_0@ == binop_error(BinaryOp::Sub, *self, *other),
            },
    {
        match self.expect_numeric_pair(other, "subtract")? {
            NumericValuePair::Int32(a, b) => Ok(Value::Int32(a - b)),
            NumericValuePair::Int64(a, b) => Ok(Value::Int64(a - b)),
        }
    }

    /// Divides two integers of the same width, rounding toward zero. Fails on
    /// division by zero and when the quotient does not fit.
    pub fn divide(&self, divisor: &Self) -> (r: InterpreterResult<Self>)
        ensures
            match spec_div(*self, *divisor) {
                Some(v) => r == Ok::<Value, InterpreterError>(v),
                None => r is Err && r->Err_0 is Value && r->Err_0->Value_0@ == binop_error(BinaryOp::Div, *self, *divisor),
            },
    {
        match self.expect_numeric_pair(divisor, "divide")? {
            NumericValuePair::Int32(a, b) => match a.checked_div(b) {
                Some(q) => Ok(Value::Int32(q)),
                None => Err(InterpreterError::Value(self.by_zero_message(divisor, "division by zero: ", " / "))),
            },
            NumericValuePair::Int64(a, b) => match a.checked_div(b) {
                Some(q) => Ok(Value::Int64(q)),
                None => Err(InterpreterError::Value(self.by_zero_message(divisor, "division by zero: ", " / "))),
            },
        }
    }

    /// The remainder of the division of two integers of the same width.
    /// Fails on division by zero and when the quotient does not fit.
    pub fn modulo(&self, divisor: &Self) -> (r: InterpreterResult<Self>)
        ensures
            match spec_rem(*self, *divisor) {
                Some(v) => r == Ok::<Value, InterpreterError>(v),
                None => r is Err && r->Err_0 is Value && r->Err_0->Value_0@ == binop_error(BinaryOp::Mod, *self, *divisor),
            },
    {
        match self.expect_numeric_pair(divisor, "modulo")? {
            NumericValuePair::Int32(a, b) => match a.checked_rem(b) {
                Some(q) => Ok(Value::Int32(q)),
                None => Err(InterpreterError::Value(self.by_zero_message(divisor, "modulo by zero: ", " % "))),
            },
            NumericValuePair::Int64(a, b) => match a.checked_rem(b) {
                Some(q) => Ok(Value::Int64(q)),
                None => Err(InterpreterError::Value(self.by_zero_message(divisor, "modulo by zero: ", " % "))),
            },
        }
    }

    pub fn less_than(&self, rhs: &Self) -> (r: InterpreterResult<Self>)
        ensures
            match binop_spec(BinaryOp::LessThan, *self, *rhs) {
                Some(v) => r == Ok::<Value, InterpreterError>(v),
                None => r is Err && r->Err_0 is Value && r->Err_0->Value_0@ == binop_error(BinaryOp::LessThan, *self, *rhs),
            },
    {
        match self.expect_numeric_pair(rhs, "less than")? {
            NumericValuePair::Int32(a, b) => Ok(Value::Bool(a < b)),
            NumericValuePair::Int64(a, b) => Ok(Value::Bool(a < b)),
        }
    }

    pub fn less_than_equal(&self, rhs: &Self) -> (r: InterpreterResult<Self>)
        ensures
            match binop_spec(BinaryOp::LessThanEqual, *self, *rhs) {
                Some(v) => r == Ok::<Value, InterpreterError>(v),
                None => r is Err && r->Err_0 is Value && r->Err_0->Value_0@ == binop_error(BinaryOp::LessThanEqual, *self, *rhs),
            },
    {
        match self.expect_numeric_pair(rhs, "less than equal")? {
            NumericValuePair::Int32(a, b) => Ok(Value::Bool(a <= b)),
            NumericValuePair::Int64(a, b) => Ok(Value::Bool(a <= b)),
        }
    }

    pub fn greater_than(&self, rhs: &Self) -> (r: InterpreterResult<Self>)
        ensures
            match binop_spec(BinaryOp::GreaterThan, *self, *rhs) {
                Some(v) => r == Ok::<Value, InterpreterError>(v),
                None => r is Err && r->Err_0 is Value && r->Err_0->Value_0@ == binop_error(BinaryOp::GreaterThan, *self, *rhs),
            },
    {
        match self.expect_numeric_pair(rhs, "greater than")? {
            NumericValuePair::Int32(a, b) => Ok(Value::Bool(a > b)),
            NumericValuePair::Int64(a, b) => Ok(Value::Bool(a > b)),
        }
    }

    pub fn greater_than_equal(&self, rhs: &Self) -> (r: InterpreterResult<Self>)
        ensures
            match binop_spec(BinaryOp::GreaterThanEqual, *self, *rhs) {
                Some(v) => r == Ok::<Value, InterpreterError>(v),
                None => r is Err && r->Err_0 is Value && r->Err_0->Value_0@ == binop_error(BinaryOp::GreaterThanEqual, *self, *rhs),
            },
    {
        match self.expect_numeric_pair(rhs, "greater than equal")? {
            NumericValuePair::Int32(a, b) => Ok(Value::Bool(a >= b)),
            NumericValuePair::Int64(a, b) => Ok(Value::Bool(a >= b)),
        }
    }

    pub fn equal(&self, rhs: &Self) -> (r: InterpreterResult<Self>)
        ensures
            match binop_spec(BinaryOp::Equal, *self, *rhs) {
                Some(v) => r == Ok::<Value, InterpreterError>(v),
                None => r is Err && r->Err_0 is Value && r->Err_0->Value_0@ == binop_error(BinaryOp::Equal, *self, *rhs),
            },
    {
        match (self, rhs) {
            (Value::Bool(a), Value::Bool(b)) => Ok(Value::Bool(*a == *b)),
            (Value::Int32(a), Value::Int32(b)) => Ok(Value::Bool(*a == *b)),
            (Value::Int64(a), Value::Int64(b)) => Ok(Value::Bool(*a == *b)),
            _ => {
                proof {
                    reveal_strlit("");
                }
                Err(self.mismatch_error(rhs, "", "operands not supported for equality, got "))
            },
        }
    }

    pub fn not_equal(&self, rhs: &Self) -> (r: InterpreterResult<Self>)
        ensures
            match binop_spec(BinaryOp::NotEqual, *self, *rhs) {
                Some(v) => r == Ok::<Value, InterpreterError>(v),
                None => r is Err && r->Err_0 is Value && r->Err_0->Value_0@ == binop_error(BinaryOp::NotEqual, *self, *rhs),
            },
    {
        self.equal(rhs)?.logical_not()
    }

    /// The function a value refers to.
    pub fn as_jit_function(&self) -> (r: InterpreterResult<usize>)
        ensures
            match *self {
                Value::Function(f) => r == Ok::<usize, InterpreterError>(f),
                _ => r is Err && r->Err_0 is Value && r->Err_0->Value_0@ == not_a_function(*self),
            },
    {
        match self {
            Value::Function(f) => Ok(*f),
            _ => {
                let mut m = String::from_str("expected value to be a JIT-compiled function: ");
                self.append_text(&mut m);
                Err(InterpreterError::Value(m))
            },
        }
    }

    /// Whether the value counts as true where a condition is expected: a
    /// boolean by its value, an integer when it is not zero; any other value
    /// is an error.
    pub fn is_truthy(&self) -> (r: InterpreterResult<bool>)
        ensures
            match truthy_spec(*self) {
                Some(b) => r == Ok::<bool, InterpreterError>(b),
                None => r is Err && r->Err_0 is Value && r->Err_0->Value_0@ == not_bool(*self),
            },
    {
        match self {
            Value::Bool(b) => Ok(*b),
            Value::Int32(v) => Ok(*v != 0),
            Value::Int64(v) => Ok(*v != 0),
            _ => {
                proof {
                    reveal_strlit("");
                }
                let m = self.not_bool_message("");
                Err(InterpreterError::Value(m))
            },
        }
    }

    /// The value of a literal.
    pub fn from_literal(literal: &Literal) -> (r: InterpreterResult<Self>)
        ensures
            match literal_spec(*literal) {
                Some(v) => r == Ok::<Value, InterpreterError>(v),
                None => r is Err && r->Err_0 is Value && r->Err_0->Value_0@ == match *literal {
                    Literal::Integral(text) => parse_error_message(text@),
                },
            },
    {
        match literal {
            Literal::Integral(text) => Ok(Value::Int64(parse_i64(text.as_str())?)),
        }
    }

    /// Applies a binary operator. Fails where [`binop_spec`] gives no result,
    /// an arithmetic overflow among them.
    pub fn apply_binary_op(op: BinaryOp, lhs: &Value, rhs: &Value) -> (r: InterpreterResult<Value>)
        ensures
            match binop_spec(op, *lhs, *rhs) {
                Some(v) => r == Ok::<Value, InterpreterError>(v),
                None => r is Err && r->Err_0 is Value && r->Err_0->Value_0@ == binop_error(op, *lhs, *rhs),
            },
    {
        match op {
            BinaryOp::Add | BinaryOp::Sub | BinaryOp::Mul => {
                if Self::arithmetic_overflows(op, lhs, rhs) {
                    return Err(InterpreterError::value_err("arithmetic overflow"));
                }
                match op {
                    BinaryOp::Add => lhs.add(rhs),
                    BinaryOp::Sub => lhs.subtract(rhs),
                    _ => lhs.multiply(rhs),
                }
            },
            BinaryOp::Div => lhs.divide(rhs),
            BinaryOp::Mod => lhs.modulo(rhs),
            BinaryOp::Equal => lhs.equal(rhs),
            BinaryOp::NotEqual => lhs.not_equal(rhs),
            BinaryOp::LessThan => lhs.less_than(rhs),
            BinaryOp::LessThanEqual => lhs.less_than_equal(rhs),
            BinaryOp::GreaterThan => lhs.greater_than(rhs),
            BinaryOp::GreaterThanEqual => lhs.greater_than_equal(rhs),
            BinaryOp::LogicalAnd => lhs.logical_and(rhs),
            BinaryOp::LogicalOr => lhs.logical_or(rhs),
        }
    }

    /// Whether an addition, subtraction or multiplication of two integers of
    /// the same width does not fit that width.
    fn arithmetic_overflows(op: BinaryOp, lhs: &Value, rhs: &Value) -> (r: bool)
        requires
            op == BinaryOp::Add || op == BinaryOp::Sub || op == BinaryOp::Mul,
        ensures
            r == (same_width_ints(*lhs, *rhs) && binop_spec(op, *lhs, *rhs) is None),
    {
        match (lhs, rhs) {
            (Value::Int32(a), Value::Int32(b)) => match op {
                BinaryOp::Add => a.checked_add(*b).is_none(),
                BinaryOp::Sub => a.checked_sub(*b).is_none(),
                _ => a.checked_mul(*b).is_none(),
            },
            (Value::Int64(a), Value::Int64(b)) => match op {
                BinaryOp::Add => a.checked_add(*b).is_none(),
                BinaryOp::Sub => a.checked_sub(*b).is_none(),
                _ => a.checked_mul(*b).is_none(),
            },
            _ => false,
        }
    }

    /// Applies a unary operator.
    pub fn apply_unary_op(op: UnaryOp, operand: &Value) -> (r: InterpreterResult<Value>)
        ensures
            match unop_spec(op, *operand) {
                Some(v) => r == Ok::<Value, InterpreterError>(v),
                None => r is Err && r->Err_0 is Value && r->Err_0->Value_0@ == not_bool(*operand),
            },
    {
        match op {
            UnaryOp::LogicalNot => operand.logical_not(),
        }
    }
}


/// Comparing two 64-bit integers gives their order as numbers: `<`, `<=`,
/// `>`, `>=`, `==` and `!=` hold exactly when they hold of the integers, so
/// `>=` is the negation of `<`, `>` that of `<=`, and every number is `<=`
/// and `>=` itself.
pub proof fn lemma_i64_comparisons_follow_the_order(x: i64, y: i64)
    ensures
        binop_spec(BinaryOp::LessThan, Value::Int64(x), Value::Int64(y)) == Some(Value::Bool(x < y)),
        binop_spec(BinaryOp::LessThanEqual, Value::Int64(x), Value::Int64(y)) == Some(Value::Bool(x <= y)),
        binop_spec(BinaryOp::GreaterThan, Value::Int64(x), Value::Int64(y)) == Some(Value::Bool(x > y)),
        binop_spec(BinaryOp::GreaterThanEqual, Value::Int64(x), Value::Int64(y)) == Some(Value::Bool(x >= y)),
        binop_spec(BinaryOp::Equal, Value::Int64(x), Value::Int64(y)) == Some(Value::Bool(x == y)),
        binop_spec(BinaryOp::NotEqual, Value::Int64(x), Value::Int64(y)) == Some(Value::Bool(x != y)),
        binop_spec(BinaryOp::GreaterThanEqual, Value::Int64(x), Value::Int64(y)) == Some(Value::Bool(!(x < y))),
        binop_spec(BinaryOp::GreaterThan, Value::Int64(x), Value::Int64(y)) == Some(Value::Bool(!(x <= y))),
        binop_spec(BinaryOp::GreaterThanEqual, Value::Int64(x), Value::Int64(x)) == Some(Value::Bool(true)),
        binop_spec(BinaryOp::LessThanEqual, Value::Int64(x), Value::Int64(x)) == Some(Value::Bool(true)),
        binop_spec(BinaryOp::LessThan, Value::Int64(x), Value::Int64(x)) == Some(Value::Bool(false)),
        binop_spec(BinaryOp::GreaterThan, Value::Int64(x), Value::Int64(x)) == Some(Value::Bool(false)),
        binop_spec(BinaryOp::LessThan, Value::Int64(x), Value::Int64(y)) == binop_spec(
            BinaryOp::GreaterThan,
            Value::Int64(y),
            Value::Int64(x),
        ),
        binop_spec(BinaryOp::LessThanEqual, Value::Int64(x), Value::Int64(y)) == binop_spec(
            BinaryOp::GreaterThanEqual,
            Value::Int64(y),
            Value::Int64(x),
        ),
{
}

/// Comparing two 32-bit integers gives their order as numbers.
pub proof fn lemma_i32_comparisons_follow_the_order(x: i32, y: i32)
    ensures
        binop_spec(BinaryOp::LessThan, Value::Int32(x), Value::Int32(y)) == Some(Value::Bool(x < y)),
        binop_spec(BinaryOp::LessThanEqual, Value::Int32(x), Value::Int32(y)) == Some(Value::Bool(x <= y)),
        binop_spec(BinaryOp::GreaterThan, Value::Int32(x), Value::Int32(y)) == Some(Value::Bool(x > y)),
        binop_spec(BinaryOp::GreaterThanEqual, Value::Int32(x), Value::Int32(y)) == Some(Value::Bool(x >= y)),
        binop_spec(BinaryOp::Equal, Value::Int32(x), Value::Int32(y)) == Some(Value::Bool(x == y)),
        binop_spec(BinaryOp::NotEqual, Value::Int32(x), Value::Int32(y)) == Some(Value::Bool(x != y)),
{
}

/// The logical operators are those of boolean logic: `||` is true when
/// either operand is, `&&` when both are, both are symmetric, `!` negates,
/// and booleans are equal when they are the same.
pub proof fn lemma_logical_operators(a: bool, b: bool)
    ensures
        binop_spec(BinaryOp::LogicalOr, Value::Bool(a), Value::Bool(b)) == Some(Value::Bool(a || b)),
        binop_spec(BinaryOp::LogicalAnd, Value::Bool(a), Value::Bool(b)) == Some(Value::Bool(a && b)),
        binop_spec(BinaryOp::LogicalOr, Value::Bool(a), Value::Bool(b)) == binop_spec(
            BinaryOp::LogicalOr,
            Value::Bool(b),
            Value::Bool(a),
        ),
        binop_spec(BinaryOp::LogicalAnd, Value::Bool(a), Value::Bool(b)) == binop_spec(
            BinaryOp::LogicalAnd,
            Value::Bool(b),
            Value::Bool(a),
        ),
        (a || b) ==> binop_spec(BinaryOp::LogicalOr, Value::Bool(a), Value::Bool(b)) == Some(Value::Bool(true)),
        !(a && b) ==> binop_spec(BinaryOp::LogicalAnd, Value::Bool(a), Value::Bool(b)) == Some(Value::Bool(false)),
        unop_spec(UnaryOp::LogicalNot, Value::Bool(a)) == Some(Value::Bool(!a)),
        binop_spec(BinaryOp::Equal, Value::Bool(a), Value::Bool(b)) == Some(Value::Bool(a == b)),
        binop_spec(BinaryOp::NotEqual, Value::Bool(a), Value::Bool(b)) == Some(Value::Bool(a != b)),
{
}

/// Adding, subtracting and multiplying 64-bit integers gives the exact
/// result where it fits in 64 bits, and no result where it does not.
pub proof fn lemma_i64_arithmetic_is_exact(x: i64, y: i64)
    ensures
        i64::MIN <= x + y <= i64::MAX ==> (binop_spec(BinaryOp::Add, Value::Int64(x), Value::Int64(y))
            matches Some(Value::Int64(z)) && z == x + y),
        i64::MIN <= x - y <= i64::MAX ==> (binop_spec(BinaryOp::Sub, Value::Int64(x), Value::Int64(y))
            matches Some(Value::Int64(z)) && z == x - y),
        i64::MIN <= x * y <= i64::MAX ==> (binop_spec(BinaryOp::Mul, Value::Int64(x), Value::Int64(y))
            matches Some(Value::Int64(z)) && z == x * y),
        !(i64::MIN <= x + y <= i64::MAX) ==> binop_spec(BinaryOp::Add, Value::Int64(x), Value::Int64(y)) is None,
        !(i64::MIN <= x - y <= i64::MAX) ==> binop_spec(BinaryOp::Sub, Value::Int64(x), Value::Int64(y)) is None,
        !(i64::MIN <= x * y <= i64::MAX) ==> binop_spec(BinaryOp::Mul, Value::Int64(x), Value::Int64(y)) is None,
        binop_spec(BinaryOp::Add, Value::Int64(x), Value::Int64(y)) == binop_spec(
            BinaryOp::Add,
            Value::Int64(y),
            Value::Int64(x),
        ),
{
}

/// Adding, subtracting and multiplying 32-bit integers gives the exact
/// result where it fits in 32 bits, and no result where it does not.
pub proof fn lemma_i32_arithmetic_is_exact(x: i32, y: i32)
    ensures
        i32::MIN <= x + y <= i32::MAX ==> (binop_spec(BinaryOp::Add, Value::Int32(x), Value::Int32(y))
            matches Some(Value::Int32(z)) && z == x + y),
        i32::MIN <= x - y <= i32::MAX ==> (binop_spec(BinaryOp::Sub, Value::Int32(x), Value::Int32(y))
            matches Some(Value::Int32(z)) && z == x - y),
        i32::MIN <= x * y <= i32::MAX ==> (binop_spec(BinaryOp::Mul, Value::Int32(x), Value::Int32(y))
            matches Some(Value::Int32(z)) && z == x * y),
        !(i32::MIN <= x + y <= i32::MAX) ==> binop_spec(BinaryOp::Add, Value::Int32(x), Value::Int32(y)) is None,
        !(i32::MIN <= x - y <= i32::MAX) ==> binop_spec(BinaryOp::Sub, Value::Int32(x), Value::Int32(y)) is None,
        !(i32::MIN <= x * y <= i32::MAX) ==> binop_spec(BinaryOp::Mul, Value::Int32(x), Value::Int32(y)) is None,
{
}

/// Operands of different kinds, or of different widths, give no result for
/// any arithmetic or ordering operator.
pub proof fn lemma_mixed_widths_have_no_result(op: BinaryOp, x: i32, y: i64)
    requires
        op != BinaryOp::LogicalAnd && op != BinaryOp::LogicalOr,
    ensures
        binop_spec(op, Value::Int32(x), Value::Int64(y)) is None,
        binop_spec(op, Value::Int64(y), Value::Int32(x)) is None,
{
}


/// Whether `q` and `r` are the quotient and remainder of `x` by `y` when the
/// quotient is rounded toward zero: `x == q * y + r`, the remainder is
/// smaller than the divisor in size, and it has the sign of `x` (or is zero).
pub open spec fn truncated_division(x: int, y: int, q: int, r: int) -> bool {
    &&& x == q * y + r
    &&& (y > 0 ==> -y < r < y)
    &&& (y < 0 ==> y < r < -y)
    &&& (x >= 0 ==> r >= 0)
    &&& (x <= 0 ==> r <= 0)
}

/// Dividing 64-bit integers rounds the quotient toward zero and gives the
/// remainder the sign of the dividend. Division by zero has no result, and
/// neither has the one quotient that does not fit, `i64::MIN / -1`.
pub proof fn lemma_i64_division_truncates(x: i64, y: i64)
    ensures
        y == 0 ==> binop_spec(BinaryOp::Div, Value::Int64(x), Value::Int64(y)) is None,
        y == 0 ==> binop_spec(BinaryOp::Mod, Value::Int64(x), Value::Int64(y)) is None,
        (x == i64::MIN && y == -1) ==> binop_spec(BinaryOp::Div, Value::Int64(x), Value::Int64(y)) is None,
        (y != 0 && !(x == i64::MIN && y == -1)) ==> ({
            let q = binop_spec(BinaryOp::Div, Value::Int64(x), Value::Int64(y));
            let r = binop_spec(BinaryOp::Mod, Value::Int64(x), Value::Int64(y));
            &&& q is Some && q->Some_0 is Int64
            &&& r is Some && r->Some_0 is Int64
            &&& truncated_division(x as int, y as int, q->Some_0->Int64_0 as int, r->Some_0->Int64_0 as int)
        }),
{
    if y != 0 && !(x == i64::MIN && y == -1) {
        let a: int = if x < 0 { -x } else { x as int };
        let b: int = if y < 0 { -y } else { y as int };
        lemma_division_by_magnitudes(a, b);
        let qa = a / b;
        let ra = a % b;
        let xi = x as int;
        let yi = y as int;
        if x >= 0 && y > 0 {
            assert(truncated_division(xi, yi, qa, ra)) by (nonlinear_arith)
                requires a == xi, b == yi, a == b * qa + ra, 0 <= ra < b, xi >= 0, yi > 0;
        } else if x < 0 && y < 0 {
            assert(truncated_division(xi, yi, qa, -ra)) by (nonlinear_arith)
                requires a == -xi, b == -yi, a == b * qa + ra, 0 <= ra < b, xi < 0, yi < 0;
        } else if x < 0 {
            assert(truncated_division(xi, yi, -qa, -ra)) by (nonlinear_arith)
                requires a == -xi, b == yi, a == b * qa + ra, 0 <= ra < b, xi < 0, yi > 0;
        } else {
            assert(truncated_division(xi, yi, -qa, ra)) by (nonlinear_arith)
                requires a == xi, b == -yi, a == b * qa + ra, 0 <= ra < b, xi >= 0, yi < 0;
        }
    }
}

/// Quotient and remainder of magnitudes: `a == b * (a / b) + a % b`, the
/// remainder below `b`, and the quotient no larger than `a`, and at most half
/// of it when `b` is at least 2.
proof fn lemma_division_by_magnitudes(a: int, b: int)
    requires
        0 <= a <= 0x8000_0000_0000_0000,
        1 <= b,
    ensures
        a == b * (a / b) + a % b,
        0 <= a % b < b,
        0 <= a / b <= a,
        b >= 2 ==> a / b <= 0x4000_0000_0000_0000,
{
    vstd::arithmetic::div_mod::lemma_fundamental_div_mod(a, b);
    vstd::arithmetic::div_mod::lemma_mod_bound(a, b);
    vstd::arithmetic::div_mod::lemma_div_pos_is_pos(a, b);
    vstd::arithmetic::div_mod::lemma_div_basics(a);
    vstd::arithmetic::div_mod::lemma_div_is_ordered_by_denominator(a, 1, b);
    if b >= 2 {
        vstd::arithmetic::div_mod::lemma_div_is_ordered_by_denominator(a, 2, b);
        assert(a / 2 <= 0x4000_0000_0000_0000);
    }
}


/// A decimal digit's text is that one digit.
proof fn lemma_digit_text(d: int)
    requires
        0 <= d < 10,
    ensures
        digit_text(d).len() == 1,
        is_digit(digit_text(d)[0]),
        digit_text(d)[0] as nat - '0' as nat == d,
{
    reveal_strlit("0");
    reveal_strlit("1");
    reveal_strlit("2");
    reveal_strlit("3");
    reveal_strlit("4");
    reveal_strlit("5");
    reveal_strlit("6");
    reveal_strlit("7");
    reveal_strlit("8");
    reveal_strlit("9");
}

/// The decimal text of a number is one or more digits, and their value is
/// the number.
proof fn lemma_nat_text_digits(n: nat)
    ensures
        nat_text(n).len() > 0,
        all_digits(nat_text(n)),
        digits_value(nat_text(n)) == n,
    decreases n,
{
    if n < 10 {
        lemma_digit_text(n as int);
        let t = nat_text(n);
        assert(t.drop_last() =~= Seq::<char>::empty());
        assert(t.last() == t[0]);
        assert(digits_value(t.drop_last()) == 0);
        assert(digits_value(t) == n);
    } else {
        lemma_nat_text_digits(n / 10);
        lemma_digit_text((n % 10) as int);
        let head = nat_text(n / 10);
        let t = nat_text(n);
        assert(t.drop_last() =~= head);
        assert(t.last() == digit_text((n % 10) as int)[0]);
        assert forall|i: int| 0 <= i < t.len() implies #[trigger] is_digit(t[i]) by {
            if i < head.len() {
                assert(t[i] == head[i]);
            }
        }
        assert(digits_value(t) == digits_value(head) * 10 + (n % 10));
        vstd::arithmetic::div_mod::lemma_fundamental_div_mod(n as int, 10);
        assert(digits_value(head) == n / 10);
        assert(n == 10 * (n / 10) + n % 10);
        assert(digits_value(t) == n);
    }
}

/// Reading back the decimal text of a 64-bit integer, as error messages and
/// literals write it, gives the integer.
pub proof fn lemma_integer_text_reads_back(x: i64)
    ensures
        spec_parse_i64(int_text(x as int)) == Some(x),
{
    reveal_strlit("-");
    if x < 0 {
        let n = (-(x as int)) as nat;
        lemma_nat_text_digits(n);
        let t = int_text(x as int);
        assert(t == "-"@ + nat_text(n));
        assert(t[0] == '-');
        assert(digits_part(t) =~= nat_text(n));
    } else {
        lemma_nat_text_digits(x as nat);
        let t = int_text(x as int);
        assert(is_digit(t[0]));
        assert(digits_part(t) == t);
    }
}


/// A condition holds for a boolean that is true and for an integer that is
/// not zero; unit and functions are no conditions.
pub proof fn lemma_conditions(b: bool, x: i32, y: i64, f: usize)
    ensures
        truthy_spec(Value::Bool(b)) == Some(b),
        truthy_spec(Value::Int32(x)) == Some(x != 0),
        truthy_spec(Value::Int64(y)) == Some(y != 0),
        truthy_spec(Value::Unit) is None,
        truthy_spec(Value::Function(f)) is None,
{
}

} // verus!

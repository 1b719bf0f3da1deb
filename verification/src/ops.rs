use crate::error::{outcome_view, AsaErrorKind, ErrorView, Outcome};
use crate::text::{display_text, is_utf8, plain_text};
use crate::value::{value_equal, Value, ValueView};
use vstd::arithmetic::power::{lemma_pow_increases, lemma_pow_positive, pow};
use vstd::prelude::*;
use vstd::utf8::valid_utf8;

verus! {

/// A number as a value, where a 32-bit signed integer can hold it.
pub open spec fn number_result(n: int) -> Outcome {
    if n > i32::MAX {
        Err(ErrorView::NumberOverflow)
    } else if n < i32::MIN {
        Err(ErrorView::NumberUnderflow)
    } else {
        Ok(ValueView::Number(n))
    }
}

/// The distance of an integer from zero.
pub open spec fn magnitude(a: int) -> int {
    if a < 0 {
        -a
    } else {
        a
    }
}

/// The quotient rounded toward zero, for `b != 0`.
pub open spec fn trunc_div(a: int, b: int) -> int {
    if (a < 0) == (b < 0) {
        magnitude(a) / magnitude(b)
    } else {
        -(magnitude(a) / magnitude(b))
    }
}

/// The remainder that goes with `trunc_div`: it has the sign of `a`.
pub open spec fn trunc_rem(a: int, b: int) -> int {
    if a < 0 {
        -(magnitude(a) % magnitude(b))
    } else {
        magnitude(a) % magnitude(b)
    }
}

/// The number that a run of decimal digits spells.
pub open spec fn digits_value(s: Seq<u8>) -> int
    decreases s.len(),
{
    if s.len() == 0 {
        0
    } else {
        digits_value(s.drop_last()) * 10 + (s.last() - 48)
    }
}

/// Whether every byte is a decimal digit.
pub open spec fn all_digits(s: Seq<u8>) -> bool {
    forall|i: int| 0 <= i < s.len() ==> 48 <= #[trigger] s[i] <= 57
}

/// The value of a number literal: its digits read in decimal. Text that
/// is empty or holds anything but digits is refused, and so is a number
/// too large for 32 bits.
pub open spec fn number_literal(s: Seq<u8>) -> Outcome {
    if s.len() == 0 || !all_digits(s) {
        Err(ErrorView::Generic("Invalid number literal"@))
    } else {
        number_result(digits_value(s))
    }
}

proof fn lemma_digits_grow(s: Seq<u8>, k: int)
    requires
        all_digits(s),
        0 <= k <= s.len(),
    ensures
        0 <= digits_value(s.take(k)) <= digits_value(s),
    decreases s.len() - k,
{
    if k == s.len() {
        assert(s.take(k) =~= s);
        lemma_digits_nonnegative(s);
    } else {
        lemma_digits_grow(s, k + 1);
        assert(s.take(k + 1).drop_last() =~= s.take(k));
        lemma_digits_nonnegative(s.take(k));
    }
}

proof fn lemma_digits_nonnegative(s: Seq<u8>)
    requires
        all_digits(s),
    ensures
        0 <= digits_value(s),
    decreases s.len(),
{
    if s.len() > 0 {
        lemma_digits_nonnegative(s.drop_last());
    }
}

/// Reads a number literal.
pub fn eval_number(value: &[u8]) -> (r: Result<Value, AsaErrorKind>)
    ensures
        outcome_view(r) == number_literal(value@),
{
    if value.len() == 0 {
        return Err(AsaErrorKind::Generic(String::from_str("Invalid number literal")));
    }
    let mut i: usize = 0;
    while i < value.len()
        invariant
            i <= value.len(),
            all_digits(value@.take(i as int)),
        decreases value.len() - i,
    {
        if value[i] < 48 || value[i] > 57 {
            return Err(AsaErrorKind::Generic(String::from_str("Invalid number literal")));
        }
        i += 1;
    }
    assert(value@.take(value.len() as int) =~= value@);
    let mut acc: i64 = 0;
    let mut k: usize = 0;
    while k < value.len()
        invariant
            k <= value.len(),
            all_digits(value@),
            acc == digits_value(value@.take(k as int)),
            0 <= acc <= i32::MAX,
        decreases value.len() - k,
    {
        let next: i64 = acc * 10 + (value[k] - 48) as i64;
        proof {
            assert(value@.take(k + 1).drop_last() =~= value@.take(k as int));
            lemma_digits_grow(value@, k + 1);
        }
        if next > i32::MAX as i64 {
            return Err(AsaErrorKind::NumberOverflow);
        }
        acc = next;
        k += 1;
    }
    assert(value@.take(value.len() as int) =~= value@);
    Ok(Value::Number(acc as i32))
}

/// What a binary operator makes of two values.
///
/// `+` adds numbers and joins text: where either side is a string, the
/// other is written out and joined to it. `==` and `!=` compare any two
/// values. The other operators of arithmetic and comparison take two
/// numbers, `&&` and `||` two booleans.
pub open spec fn binary_result(op: Seq<u8>, l: ValueView, r: ValueView) -> Outcome {
    if !valid_utf8(op) {
        Err(ErrorView::Generic("Invalid UTF-8 in operator"@))
    } else if op == seq![43u8] {
        match (l, r) {
            (ValueView::String(a), _) => Ok(ValueView::String(a + plain_text(r))),
            (_, ValueView::String(b)) => Ok(ValueView::String(plain_text(l) + b)),
            (ValueView::Number(a), ValueView::Number(b)) => number_result(a + b),
            _ => Err(ErrorView::TypeMismatch("Invalid types for `+` operation"@)),
        }
    } else if op == seq![61u8, 61u8] {
        Ok(ValueView::Bool(l == r))
    } else if op == seq![33u8, 61u8] {
        Ok(ValueView::Bool(l != r))
    } else {
        match (l, r) {
            (ValueView::Number(a), ValueView::Number(b)) => {
                if op == seq![45u8] {
                    number_result(a - b)
                } else if op == seq![42u8] {
                    number_result(a * b)
                } else if op == seq![37u8] {
                    if b == 0 {
                        Err(ErrorView::DivisionByZero)
                    } else {
                        Ok(ValueView::Number(trunc_rem(a, b)))
                    }
                } else if op == seq![47u8] {
                    if b == 0 {
                        Err(ErrorView::DivisionByZero)
                    } else {
                        number_result(trunc_div(a, b))
                    }
                } else if op == seq![94u8] {
                    if b < 0 {
                        Err(ErrorView::UnsupportedOperation("Negative exponent"@))
                    } else {
                        number_result(pow(a, b as nat))
                    }
                } else if op == seq![60u8] {
                    Ok(ValueView::Bool(a < b))
                } else if op == seq![62u8] {
                    Ok(ValueView::Bool(a > b))
                } else if op == seq![60u8, 61u8] {
                    Ok(ValueView::Bool(a <= b))
                } else if op == seq![62u8, 61u8] {
                    Ok(ValueView::Bool(a >= b))
                } else {
                    Err(ErrorView::Generic("Unknown operator"@))
                }
            },
            (ValueView::Bool(a), ValueView::Bool(b)) => {
                if op == seq![38u8, 38u8] {
                    Ok(ValueView::Bool(a && b))
                } else if op == seq![124u8, 124u8] {
                    Ok(ValueView::Bool(a || b))
                } else {
                    Err(ErrorView::Generic("Unknown operator for booleans"@))
                }
            },
            _ => Err(
                ErrorView::TypeMismatch(
                    "Type error in binary expression: expected matching types"@,
                ),
            ),
        }
    }
}

/// What a prefix operator makes of a value: `+` and `-` take a number,
/// `!` complements the bits of a number and negates a boolean.
pub open spec fn unary_result(op: Seq<u8>, v: ValueView) -> Outcome {
    match v {
        ValueView::Number(n) => if op == seq![43u8] {
            Ok(ValueView::Number(n))
        } else if op == seq![45u8] {
            number_result(-n)
        } else if op == seq![33u8] {
            Ok(ValueView::Number(-n - 1))
        } else {
            Err(ErrorView::TypeMismatch("Type error in unary expression"@))
        },
        ValueView::Bool(b) => if op == seq![33u8] {
            Ok(ValueView::Bool(!b))
        } else {
            Err(ErrorView::TypeMismatch("Type error in unary expression"@))
        },
        _ => Err(ErrorView::TypeMismatch("Type error in unary expression"@)),
    }
}

/// Bytes below 128 are valid UTF-8.
pub proof fn lemma_ascii_is_utf8(s: Seq<u8>)
    requires
        forall|i: int| 0 <= i < s.len() ==> #[trigger] s[i] < 128,
    ensures
        valid_utf8(s),
{
    assert(s.subrange(0, 0) =~= Seq::<u8>::empty());
    assert(vstd::utf8::partial_valid_utf8(s, 0));
    assert forall|i: int| 0 <= 0 <= i < s.len() <= s.len() implies #[trigger]
        vstd::utf8::is_leading_byte_width_1(s[i]) by {
        assert(s[i] < 128);
    }
    vstd::utf8::partial_valid_utf8_extend_ascii_block(s, 0, s.len() as int);
    assert(s.subrange(0, s.len() as int) =~= s);
}

/// Division and modulo by zero fail as `DivisionByZero`, whatever the
/// left operand.
pub proof fn lemma_division_by_zero(a: int)
    ensures
        binary_result(seq![47u8], ValueView::Number(a), ValueView::Number(0)) == Err::<
            ValueView,
            ErrorView,
        >(ErrorView::DivisionByZero),
        binary_result(seq![37u8], ValueView::Number(a), ValueView::Number(0)) == Err::<
            ValueView,
            ErrorView,
        >(ErrorView::DivisionByZero),
{
    lemma_ascii_is_utf8(seq![47u8]);
    lemma_ascii_is_utf8(seq![37u8]);
    assert(seq![47u8] != seq![43u8]) by {
        assert(seq![47u8][0] != seq![43u8][0]);
    }
    assert(seq![37u8] != seq![43u8]) by {
        assert(seq![37u8][0] != seq![43u8][0]);
    }
    assert(seq![37u8] != seq![45u8]) by {
        assert(seq![37u8][0] != seq![45u8][0]);
    }
    assert(seq![37u8] != seq![42u8]) by {
        assert(seq![37u8][0] != seq![42u8][0]);
    }
    assert(seq![47u8] != seq![45u8]) by {
        assert(seq![47u8][0] != seq![45u8][0]);
    }
    assert(seq![47u8] != seq![42u8]) by {
        assert(seq![47u8][0] != seq![42u8][0]);
    }
    assert(seq![47u8] != seq![37u8]) by {
        assert(seq![47u8][0] != seq![37u8][0]);
    }
    assert(seq![47u8].len() == 1 && seq![37u8].len() == 1);
    assert(seq![61u8, 61u8].len() == 2 && seq![33u8, 61u8].len() == 2);
}

/// Whether `op` spells one of `<`, `>`, `<=` and `>=`.
pub open spec fn is_comparison(op: Seq<u8>) -> bool {
    op == seq![60u8] || op == seq![62u8] || op == seq![60u8, 61u8] || op == seq![62u8, 61u8]
}

/// Comparing a number with a boolean fails as a type mismatch, whichever
/// side the number is on.
pub proof fn lemma_number_against_bool(op: Seq<u8>, a: int, b: bool)
    requires
        is_comparison(op),
    ensures
        binary_result(op, ValueView::Number(a), ValueView::Bool(b)) == Err::<ValueView, ErrorView>(
            ErrorView::TypeMismatch("Type error in binary expression: expected matching types"@),
        ),
        binary_result(op, ValueView::Bool(b), ValueView::Number(a)) == Err::<ValueView, ErrorView>(
            ErrorView::TypeMismatch("Type error in binary expression: expected matching types"@),
        ),
{
    assert(forall|i: int| 0 <= i < op.len() ==> #[trigger] op[i] < 128);
    lemma_ascii_is_utf8(op);
    assert(op != seq![43u8]) by {
        if op.len() == 1 {
            assert(op[0] != seq![43u8][0]);
        }
    }
    assert(op != seq![61u8, 61u8]) by {
        if op.len() == 2 {
            assert(op[0] != seq![61u8, 61u8][0]);
        }
    }
    assert(op != seq![33u8, 61u8]) by {
        if op.len() == 2 {
            assert(op[0] != seq![33u8, 61u8][0]);
        }
    }
}

fn is_op1(op: &[u8], a: u8) -> (r: bool)
    ensures
        r == (op@ == seq![a]),
{
    if op.len() == 1 && op[0] == a {
        assert(op@ =~= seq![a]);
        true
    } else {
        assert(op@.len() != 1 || op@[0] != seq![a][0]);
        false
    }
}

fn is_op2(op: &[u8], a: u8, b: u8) -> (r: bool)
    ensures
        r == (op@ == seq![a, b]),
{
    if op.len() == 2 && op[0] == a && op[1] == b {
        assert(op@ =~= seq![a, b]);
        true
    } else {
        assert(op@.len() != 2 || op@[0] != seq![a, b][0] || op@[1] != seq![a, b][1]);
        false
    }
}

fn number_value(n: i64) -> (r: Result<Value, AsaErrorKind>)
    ensures
        outcome_view(r) == number_result(n as int),
{
    if n > i32::MAX as i64 {
        Err(AsaErrorKind::NumberOverflow)
    } else if n < i32::MIN as i64 {
        Err(AsaErrorKind::NumberUnderflow)
    } else {
        Ok(Value::Number(n as i32))
    }
}

fn size_of(a: i32) -> (r: u64)
    ensures
        r == magnitude(a as int),
        r <= 0x8000_0000,
{
    if a < 0 {
        (-(a as i64)) as u64
    } else {
        a as u64
    }
}

proof fn lemma_pow_sign(b: int, e: nat)
    requires
        b < 0,
    ensures
        pow(b, e) == if e % 2 == 0 {
            pow(-b, e)
        } else {
            -pow(-b, e)
        },
    decreases e,
{
    reveal(pow);
    if e > 0 {
        lemma_pow_sign(b, (e - 1) as nat);
        let p = pow(-b, (e - 1) as nat);
        assert(b * p == -((-b) * p)) by (nonlinear_arith);
        assert(b * (-p) == (-b) * p) by (nonlinear_arith);
    }
}

fn power(base: i32, exp: i32) -> (r: Result<Value, AsaErrorKind>)
    requires
        exp >= 0,
    ensures
        outcome_view(r) == number_result(pow(base as int, exp as nat)),
{
    let m: u64 = size_of(base);
    let negative = base < 0 && exp % 2 == 1;
    let mut mag: u64 = 1;
    let mut k: i32 = 0;
    proof {
        reveal(pow);
        if base < 0 {
            lemma_pow_sign(base as int, exp as nat);
        }
    }
    if m == 0 {
        proof {
            if exp > 0 {
                vstd::arithmetic::power::lemma0_pow(exp as nat);
            }
        }
        return Ok(Value::Number(if exp == 0 { 1 } else { 0 }));
    }
    if m == 1 {
        proof {
            vstd::arithmetic::power::lemma1_pow(exp as nat);
        }
        return Ok(Value::Number(if negative { -1 } else { 1 }));
    }
    while k < exp
        invariant
            0 <= k <= exp,
            2 <= m <= 0x8000_0000,
            m == magnitude(base as int),
            negative == (base < 0 && exp % 2 == 1),
            mag == pow(m as int, k as nat),
            1 <= mag <= 0x8000_0000,
        decreases exp - k,
    {
        proof {
            reveal(pow);
            assert(pow(m as int, (k + 1) as nat) == m * pow(m as int, k as nat));
            assert(m * mag == mag * m) by (nonlinear_arith);
            assert(mag * m >= 1) by (nonlinear_arith)
                requires
                    mag >= 1,
                    m >= 2,
            ;
            assert(mag * m <= 0x8000_0000 * 0x8000_0000) by (nonlinear_arith)
                requires
                    mag <= 0x8000_0000,
                    m <= 0x8000_0000,
            ;
        }
        let next: u64 = mag * m;
        if next > 0x8000_0000 {
            proof {
                lemma_pow_increases(m as nat, (k + 1) as nat, exp as nat);
                if base < 0 {
                    lemma_pow_sign(base as int, exp as nat);
                }
            }
            return if negative {
                Err(AsaErrorKind::NumberUnderflow)
            } else {
                Err(AsaErrorKind::NumberOverflow)
            };
        }
        mag = next;
        k += 1;
    }
    proof {
        if base < 0 {
            lemma_pow_sign(base as int, exp as nat);
        }
    }
    if negative {
        number_value(-(mag as i64))
    } else {
        number_value(mag as i64)
    }
}

fn divide(a: i32, b: i32) -> (r: Result<Value, AsaErrorKind>)
    requires
        b != 0,
    ensures
        outcome_view(r) == number_result(trunc_div(a as int, b as int)),
{
    let q: u64 = size_of(a) / size_of(b);
    if (a < 0) == (b < 0) {
        number_value(q as i64)
    } else {
        number_value(-(q as i64))
    }
}

fn remainder(a: i32, b: i32) -> (r: Value)
    requires
        b != 0,
    ensures
        r@ == ValueView::Number(trunc_rem(a as int, b as int)),
{
    let m: u64 = size_of(a) % size_of(b);
    if a < 0 {
        Value::Number((-(m as i64)) as i32)
    } else {
        Value::Number(m as i32)
    }
}

fn mismatch() -> (r: Result<Value, AsaErrorKind>)
    ensures
        outcome_view(r) == Err::<ValueView, ErrorView>(
            ErrorView::TypeMismatch("Type error in binary expression: expected matching types"@),
        ),
{
    Err(
        AsaErrorKind::TypeMismatch(
            String::from_str("Type error in binary expression: expected matching types"),
        ),
    )
}

fn on_numbers(op: &[u8], a: i32, b: i32) -> (r: Result<Value, AsaErrorKind>)
    requires
        op@ != seq![43u8],
        op@ != seq![61u8, 61u8],
        op@ != seq![33u8, 61u8],
        valid_utf8(op@),
    ensures
        outcome_view(r) == binary_result(
            op@,
            ValueView::Number(a as int),
            ValueView::Number(b as int),
        ),
{
    if is_op1(op, 45) {
        number_value(a as i64 - b as i64)
    } else if is_op1(op, 42) {
        assert(i32::MIN * i32::MAX <= a * b <= i32::MIN * i32::MIN) by (nonlinear_arith)
            requires
                i32::MIN <= a <= i32::MAX,
                i32::MIN <= b <= i32::MAX,
        ;
        number_value(a as i64 * b as i64)
    } else if is_op1(op, 37) {
        if b == 0 {
            Err(AsaErrorKind::DivisionByZero)
        } else {
            Ok(remainder(a, b))
        }
    } else if is_op1(op, 47) {
        if b == 0 {
            Err(AsaErrorKind::DivisionByZero)
        } else {
            divide(a, b)
        }
    } else if is_op1(op, 94) {
        if b < 0 {
            Err(AsaErrorKind::UnsupportedOperation(String::from_str("Negative exponent")))
        } else {
            power(a, b)
        }
    } else if is_op1(op, 60) {
        Ok(Value::Bool(a < b))
    } else if is_op1(op, 62) {
        Ok(Value::Bool(a > b))
    } else if is_op2(op, 60, 61) {
        Ok(Value::Bool(a <= b))
    } else if is_op2(op, 62, 61) {
        Ok(Value::Bool(a >= b))
    } else {
        Err(AsaErrorKind::Generic(String::from_str("Unknown operator")))
    }
}

/// Applies a binary operator to two values.
pub fn eval_binary_op(op: &[u8], left: Value, right: Value) -> (r: Result<Value, AsaErrorKind>)
    ensures
        outcome_view(r) == binary_result(op@, left@, right@),
{
    if !is_utf8(op) {
        return Err(AsaErrorKind::Generic(String::from_str("Invalid UTF-8 in operator")));
    }
    if is_op1(op, 43) {
        return match (left, right) {
            (Value::String(a), other) => {
                let tail = display_text(&other);
                Ok(Value::String(a.concat(tail.as_str())))
            },
            (other, Value::String(b)) => {
                let head = display_text(&other);
                Ok(Value::String(head.concat(b.as_str())))
            },
            (Value::Number(a), Value::Number(b)) => number_value(a as i64 + b as i64),
            _ => Err(
                AsaErrorKind::TypeMismatch(String::from_str("Invalid types for `+` operation")),
            ),
        };
    }
    if is_op2(op, 61, 61) {
        return Ok(Value::Bool(value_equal(&left, &right)));
    }
    if is_op2(op, 33, 61) {
        return Ok(Value::Bool(!value_equal(&left, &right)));
    }
    match (left, right) {
        (Value::Number(a), Value::Number(b)) => on_numbers(op, a, b),
        (Value::Bool(a), Value::Bool(b)) => {
            if is_op2(op, 38, 38) {
                Ok(Value::Bool(a && b))
            } else if is_op2(op, 124, 124) {
                Ok(Value::Bool(a || b))
            } else {
                Err(AsaErrorKind::Generic(String::from_str("Unknown operator for booleans")))
            }
        },
        _ => mismatch(),
    }
}

/// Applies a prefix operator to a value.
pub fn eval_unary_op(op: &[u8], val: Value) -> (r: Result<Value, AsaErrorKind>)
    ensures
        outcome_view(r) == unary_result(op@, val@),
{
    match val {
        Value::Number(n) => {
            if is_op1(op, 43) {
                Ok(Value::Number(n))
            } else if is_op1(op, 45) {
                number_value(-(n as i64))
            } else if is_op1(op, 33) {
                Ok(Value::Number((-1 - n as i64) as i32))
            } else {
                Err(AsaErrorKind::TypeMismatch(String::from_str("Type error in unary expression")))
            }
        },
        Value::Bool(b) => {
            if is_op1(op, 33) {
                Ok(Value::Bool(!b))
            } else {
                Err(AsaErrorKind::TypeMismatch(String::from_str("Type error in unary expression")))
            }
        },
        _ => Err(AsaErrorKind::TypeMismatch(String::from_str("Type error in unary expression"))),
    }
}

} // verus!

use vstd::prelude::*;
use vstd::string::*;
use vstd::utf8::encode_utf8;
use crate::parser::ast::{BinOp, UnaryOp};
use crate::text::{chars_of, int_text, int_to_text, join2, text_is};
use crate::value::{DataType, Order, Value, ValueView};
use super::like::{ilike, ilike_match, like, like_match};
use super::strings::{ends_with_text, stands_at, text_lower, trim_text, trimmed};
use super::unit::{Ask, FloatOp, Reply, Unit, is_unit, model};
use super::unit::{ask_float, ask_int, ask_op, ask_order, ask_parse, ask_parse_float, ask_show, ask_show_float};
use super::unit::{float_of, float_of_text, float_op, int_of_float, text_of_float, text_of_value, unit_order, value_of_text};

verus! {

/// The order of two integers.
pub open spec fn int_order(a: int, b: int) -> Order {
    if a < b {
        Order::Less
    } else if a == b {
        Order::Equal
    } else {
        Order::Greater
    }
}

/// The order of two sequences of numbers from place `i` on: that of the first place where they
/// differ, and a sequence that ends comes before one that goes on.
pub open spec fn seq_order(a: Seq<int>, b: Seq<int>, i: int) -> Order
    decreases a.len() - i,
{
    if i >= a.len() || i >= b.len() {
        int_order(a.len() as int, b.len() as int)
    } else if a[i] == b[i] {
        seq_order(a, b, i + 1)
    } else {
        int_order(a[i], b[i])
    }
}

pub open spec fn codes(s: Seq<char>) -> Seq<int> {
    Seq::new(s.len(), |i: int| s[i] as u32 as int)
}

pub open spec fn byte_codes(s: Seq<u8>) -> Seq<int> {
    Seq::new(s.len(), |i: int| s[i] as int)
}

/// How two values stand to each other; a null stands to nothing.
pub open spec fn compare(m: Unit, a: ValueView, b: ValueView) -> Option<Order> {
    match (a, b) {
        (ValueView::Null, _) => None,
        (_, ValueView::Null) => None,
        (ValueView::Bool(x), ValueView::Bool(y)) => Some(int_order(if x { 1int } else { 0 }, if y { 1int } else { 0 })),
        (ValueView::Int64(x), ValueView::Int64(y)) => Some(int_order(x as int, y as int)),
        (ValueView::Timestamp(x), ValueView::Timestamp(y)) => Some(int_order(x as int, y as int)),
        (ValueView::Date(x), ValueView::Date(y)) => Some(int_order(x as int, y as int)),
        (ValueView::Interval(x), ValueView::Interval(y)) => Some(int_order(x as int, y as int)),
        (ValueView::Uuid(x), ValueView::Uuid(y)) => Some(int_order(x as int, y as int)),
        (ValueView::Text(x), ValueView::Text(y)) => Some(seq_order(codes(x), codes(y), 0)),
        (ValueView::Bytes(x), ValueView::Bytes(y)) => Some(seq_order(byte_codes(x), byte_codes(y), 0)),
        _ => unit_order(m, a, b),
    }
}

pub fn order_ints(a: i128, b: i128) -> (r: Order)
    ensures
        r == int_order(a as int, b as int),
{
    if a < b {
        Order::Less
    } else if a == b {
        Order::Equal
    } else {
        Order::Greater
    }
}

pub fn order_texts(a: &str, b: &str) -> (r: Order)
    ensures
        r == seq_order(codes(a@), codes(b@), 0),
{
    let v = chars_of(a);
    let w = chars_of(b);
    let mut i: usize = 0;
    while i < v.len() && i < w.len()
        invariant
            i <= v.len(),
            i <= w.len(),
            v@ == a@,
            w@ == b@,
            seq_order(codes(v@), codes(w@), 0) == seq_order(codes(v@), codes(w@), i as int),
        decreases v.len() - i,
    {
        let p: u32 = v[i] as u32;
        let q: u32 = w[i] as u32;
        assert(codes(v@)[i as int] == p as int);
        assert(codes(w@)[i as int] == q as int);
        if p != q {
            return order_ints(p as i128, q as i128);
        }
        i = i + 1;
    }
    order_ints(v.len() as i128, w.len() as i128)
}

pub fn order_bytes(v: &Vec<u8>, w: &Vec<u8>) -> (r: Order)
    ensures
        r == seq_order(byte_codes(v@), byte_codes(w@), 0),
{
    let mut i: usize = 0;
    while i < v.len() && i < w.len()
        invariant
            i <= v.len(),
            i <= w.len(),
            seq_order(byte_codes(v@), byte_codes(w@), 0) == seq_order(byte_codes(v@), byte_codes(w@), i as int),
        decreases v.len() - i,
    {
        if v[i] != w[i] {
            return order_ints(v[i] as i128, w[i] as i128);
        }
        i = i + 1;
    }
    order_ints(v.len() as i128, w.len() as i128)
}

pub fn order_of<U: Fn(Ask) -> Reply>(u: &U, a: &Value, b: &Value) -> (r: Option<Order>)
    requires
        is_unit(u),
    ensures
        r == compare(model(u), a@, b@),
{
    match (a, b) {
        (Value::Null, _) => None,
        (_, Value::Null) => None,
        (Value::Bool(x), Value::Bool(y)) => {
            let p: i128 = if *x { 1 } else { 0 };
            let q: i128 = if *y { 1 } else { 0 };
            Some(order_ints(p, q))
        },
        (Value::Int64(x), Value::Int64(y)) => Some(order_ints(*x as i128, *y as i128)),
        (Value::Timestamp(x), Value::Timestamp(y)) => Some(order_ints(*x as i128, *y as i128)),
        (Value::Date(x), Value::Date(y)) => Some(order_ints(*x as i128, *y as i128)),
        (Value::Interval(x), Value::Interval(y)) => Some(order_ints(*x as i128, *y as i128)),
        (Value::Uuid(x), Value::Uuid(y)) => {
            if *x < *y {
                Some(Order::Less)
            } else if *x == *y {
                Some(Order::Equal)
            } else {
                Some(Order::Greater)
            }
        },
        (Value::Text(x), Value::Text(y)) => Some(order_texts(x.as_str(), y.as_str())),
        (Value::Bytes(x), Value::Bytes(y)) => Some(order_bytes(x, y)),
        _ => ask_order(u, a, b),
    }
}

/// Whether two values compare as equal.
pub open spec fn equals(m: Unit, a: ValueView, b: ValueView) -> bool {
    compare(m, a, b) == Some(Order::Equal)
}

pub fn is_equal<U: Fn(Ask) -> Reply>(u: &U, a: &Value, b: &Value) -> (r: bool)
    requires
        is_unit(u),
    ensures
        r == equals(model(u), a@, b@),
{
    match order_of(u, a, b) {
        Some(Order::Equal) => true,
        _ => false,
    }
}

/// An integer as a value: a float where it does not fit.
pub open spec fn int_value(m: Unit, n: int) -> ValueView {
    if i64::MIN <= n <= i64::MAX {
        ValueView::Int64(n as i64)
    } else {
        ValueView::Float64(float_of(m, n as i128))
    }
}

pub fn int128_to_value<U: Fn(Ask) -> Reply>(u: &U, s: i128) -> (r: Value)
    requires
        is_unit(u),
    ensures
        r@ == int_value(model(u), s as int),
{
    if s >= i64::MIN as i128 && s <= i64::MAX as i128 {
        Value::Int64(s as i64)
    } else {
        Value::Float64(ask_float(u, s))
    }
}

/// Whether the bits are those of a zero.
pub open spec fn is_zero(b: u64) -> bool {
    b == 0 || b == 0x8000_0000_0000_0000
}

/// Whether the bits are those of no number.
pub open spec fn is_nan(b: u64) -> bool {
    (if b >= 0x8000_0000_0000_0000 { b - 0x8000_0000_0000_0000 } else { b as int }) > 0x7ff0_0000_0000_0000
}

pub open spec fn float_neg(b: u64) -> u64 {
    if b >= 0x8000_0000_0000_0000 {
        (b - 0x8000_0000_0000_0000) as u64
    } else {
        (b + 0x8000_0000_0000_0000) as u64
    }
}

pub open spec fn float_abs(b: u64) -> u64 {
    if b >= 0x8000_0000_0000_0000 {
        (b - 0x8000_0000_0000_0000) as u64
    } else {
        b
    }
}

/// The sign of a float: 1, -1, or 0 for a zero and for no number.
pub open spec fn float_sign(b: u64) -> int {
    if is_zero(b) || is_nan(b) {
        0
    } else if b >= 0x8000_0000_0000_0000 {
        -1
    } else {
        1
    }
}

pub fn zero_bits(b: u64) -> (r: bool)
    ensures
        r == is_zero(b),
{
    b == 0 || b == 0x8000_0000_0000_0000
}

pub fn neg_bits(b: u64) -> (r: u64)
    ensures
        r == float_neg(b),
{
    if b >= 0x8000_0000_0000_0000 {
        b - 0x8000_0000_0000_0000
    } else {
        b + 0x8000_0000_0000_0000
    }
}

pub fn abs_bits(b: u64) -> (r: u64)
    ensures
        r == float_abs(b),
{
    if b >= 0x8000_0000_0000_0000 {
        b - 0x8000_0000_0000_0000
    } else {
        b
    }
}

pub fn sign_bits(b: u64) -> (r: i64)
    ensures
        r == float_sign(b),
{
    let a: u64 = abs_bits(b);
    if zero_bits(b) || a > 0x7ff0_0000_0000_0000 {
        0
    } else if b >= 0x8000_0000_0000_0000 {
        -1
    } else {
        1
    }
}

pub open spec fn abs_int(a: int) -> int {
    if a < 0 {
        -a
    } else {
        a
    }
}

/// Division that cuts off toward zero.
pub open spec fn quotient(a: int, b: int) -> int {
    if (a < 0) == (b < 0) {
        abs_int(a) / abs_int(b)
    } else {
        -(abs_int(a) / abs_int(b))
    }
}

/// The remainder of that division, which has the sign of the dividend.
pub open spec fn remainder(a: int, b: int) -> int {
    if a < 0 {
        -(abs_int(a) % abs_int(b))
    } else {
        abs_int(a) % abs_int(b)
    }
}

fn magnitude(a: i64) -> (r: u64)
    ensures
        r == abs_int(a as int),
{
    if a < 0 {
        (-(a as i128)) as u64
    } else {
        a as u64
    }
}

pub fn divide(a: i64, b: i64) -> (r: i128)
    requires
        b != 0,
    ensures
        r == quotient(a as int, b as int),
        -0x8000_0000_0000_0000 <= r <= 0x8000_0000_0000_0000,
{
    let p: u64 = magnitude(a);
    let d: u64 = magnitude(b);
    let q: u64 = p / d;
    assert(q <= p) by (nonlinear_arith)
        requires
            q == p / d,
            d > 0,
    ;
    if (a < 0) == (b < 0) {
        q as i128
    } else {
        -(q as i128)
    }
}

pub fn modulo(a: i64, b: i64) -> (r: i64)
    requires
        b != 0,
    ensures
        r == remainder(a as int, b as int),
{
    let p: u64 = magnitude(a);
    let d: u64 = magnitude(b);
    let q: u64 = p % d;
    assert(q < d) by (nonlinear_arith)
        requires
            q == p % d,
            d > 0,
    ;
    if a < 0 {
        (-(q as i128)) as i64
    } else {
        q as i64
    }
}

pub open spec fn fits64(n: int) -> bool {
    i64::MIN <= n <= i64::MAX
}

pub open spec fn timestamp_value(n: int) -> ValueView {
    if fits64(n) {
        ValueView::Timestamp(n as i64)
    } else {
        ValueView::Null
    }
}

pub open spec fn interval_value(n: int) -> ValueView {
    if fits64(n) {
        ValueView::Interval(n as i64)
    } else {
        ValueView::Null
    }
}

pub open spec fn date_value(n: int) -> ValueView {
    if i32::MIN <= n <= i32::MAX {
        ValueView::Date(n as i32)
    } else {
        ValueView::Null
    }
}

fn make_timestamp(n: i128) -> (r: Value)
    ensures
        r@ == timestamp_value(n as int),
{
    if n >= i64::MIN as i128 && n <= i64::MAX as i128 {
        Value::Timestamp(n as i64)
    } else {
        Value::Null
    }
}

fn make_interval(n: i128) -> (r: Value)
    ensures
        r@ == interval_value(n as int),
{
    if n >= i64::MIN as i128 && n <= i64::MAX as i128 {
        Value::Interval(n as i64)
    } else {
        Value::Null
    }
}

fn make_date(n: i128) -> (r: Value)
    ensures
        r@ == date_value(n as int),
{
    if n >= i32::MIN as i128 && n <= i32::MAX as i128 {
        Value::Date(n as i32)
    } else {
        Value::Null
    }
}

/// `a + b`. A date moves by the lower half of the interval's bits.
pub open spec fn plus(m: Unit, a: ValueView, b: ValueView) -> ValueView {
    match (a, b) {
        (ValueView::Int64(x), ValueView::Int64(y)) => int_value(m, x + y),
        (ValueView::Float64(x), ValueView::Float64(y)) => ValueView::Float64(float_op(m, FloatOp::Plus, x, y)),
        (ValueView::Int64(x), ValueView::Float64(y)) => ValueView::Float64(
            float_op(m, FloatOp::Plus, float_of(m, x as i128), y),
        ),
        (ValueView::Float64(x), ValueView::Int64(y)) => ValueView::Float64(
            float_op(m, FloatOp::Plus, x, float_of(m, y as i128)),
        ),
        (ValueView::Text(x), ValueView::Text(y)) => ValueView::Text(x + y),
        (ValueView::Timestamp(x), ValueView::Interval(y)) => timestamp_value(x + y),
        (ValueView::Interval(x), ValueView::Timestamp(y)) => timestamp_value(y + x),
        (ValueView::Date(x), ValueView::Interval(y)) => date_value(x + (y as i32)),
        (ValueView::Interval(x), ValueView::Date(y)) => date_value(y + (x as i32)),
        (ValueView::Interval(x), ValueView::Interval(y)) => interval_value(x + y),
        _ => ValueView::Null,
    }
}

fn plus_value<U: Fn(Ask) -> Reply>(u: &U, a: &Value, b: &Value) -> (r: Value)
    requires
        is_unit(u),
    ensures
        r@ == plus(model(u), a@, b@),
{
    match (a, b) {
        (Value::Int64(x), Value::Int64(y)) => int128_to_value(u, *x as i128 + *y as i128),
        (Value::Float64(x), Value::Float64(y)) => Value::Float64(ask_op(u, FloatOp::Plus, *x, *y)),
        (Value::Int64(x), Value::Float64(y)) => {
            let f: u64 = ask_float(u, *x as i128);
            Value::Float64(ask_op(u, FloatOp::Plus, f, *y))
        },
        (Value::Float64(x), Value::Int64(y)) => {
            let f: u64 = ask_float(u, *y as i128);
            Value::Float64(ask_op(u, FloatOp::Plus, *x, f))
        },
        (Value::Text(x), Value::Text(y)) => Value::Text(join2(x.as_str(), y.as_str())),
        (Value::Timestamp(x), Value::Interval(y)) => make_timestamp(*x as i128 + *y as i128),
        (Value::Interval(x), Value::Timestamp(y)) => make_timestamp(*y as i128 + *x as i128),
        (Value::Date(x), Value::Interval(y)) => {
            let k: i32 = #[verifier::truncate] (*y as i32);
            make_date(*x as i128 + k as i128)
        },
        (Value::Interval(x), Value::Date(y)) => {
            let k: i32 = #[verifier::truncate] (*x as i32);
            make_date(*y as i128 + k as i128)
        },
        (Value::Interval(x), Value::Interval(y)) => make_interval(*x as i128 + *y as i128),
        _ => Value::Null,
    }
}

/// `a - b`.
pub open spec fn minus(m: Unit, a: ValueView, b: ValueView) -> ValueView {
    match (a, b) {
        (ValueView::Int64(x), ValueView::Int64(y)) => int_value(m, x - y),
        (ValueView::Float64(x), ValueView::Float64(y)) => ValueView::Float64(float_op(m, FloatOp::Minus, x, y)),
        (ValueView::Int64(x), ValueView::Float64(y)) => ValueView::Float64(
            float_op(m, FloatOp::Minus, float_of(m, x as i128), y),
        ),
        (ValueView::Float64(x), ValueView::Int64(y)) => ValueView::Float64(
            float_op(m, FloatOp::Minus, x, float_of(m, y as i128)),
        ),
        (ValueView::Timestamp(x), ValueView::Interval(y)) => timestamp_value(x - y),
        (ValueView::Date(x), ValueView::Interval(y)) => date_value(x - (y as i32)),
        (ValueView::Interval(x), ValueView::Interval(y)) => interval_value(x - y),
        _ => ValueView::Null,
    }
}

fn minus_value<U: Fn(Ask) -> Reply>(u: &U, a: &Value, b: &Value) -> (r: Value)
    requires
        is_unit(u),
    ensures
        r@ == minus(model(u), a@, b@),
{
    match (a, b) {
        (Value::Int64(x), Value::Int64(y)) => int128_to_value(u, *x as i128 - *y as i128),
        (Value::Float64(x), Value::Float64(y)) => Value::Float64(ask_op(u, FloatOp::Minus, *x, *y)),
        (Value::Int64(x), Value::Float64(y)) => {
            let f: u64 = ask_float(u, *x as i128);
            Value::Float64(ask_op(u, FloatOp::Minus, f, *y))
        },
        (Value::Float64(x), Value::Int64(y)) => {
            let f: u64 = ask_float(u, *y as i128);
            Value::Float64(ask_op(u, FloatOp::Minus, *x, f))
        },
        (Value::Timestamp(x), Value::Interval(y)) => make_timestamp(*x as i128 - *y as i128),
        (Value::Date(x), Value::Interval(y)) => {
            let k: i32 = #[verifier::truncate] (*y as i32);
            make_date(*x as i128 - k as i128)
        },
        (Value::Interval(x), Value::Interval(y)) => make_interval(*x as i128 - *y as i128),
        _ => Value::Null,
    }
}

/// `a * b`.
pub open spec fn times(m: Unit, a: ValueView, b: ValueView) -> ValueView {
    match (a, b) {
        (ValueView::Int64(x), ValueView::Int64(y)) => int_value(m, x * y),
        (ValueView::Float64(x), ValueView::Float64(y)) => ValueView::Float64(float_op(m, FloatOp::Times, x, y)),
        (ValueView::Int64(x), ValueView::Float64(y)) => ValueView::Float64(
            float_op(m, FloatOp::Times, float_of(m, x as i128), y),
        ),
        (ValueView::Float64(x), ValueView::Int64(y)) => ValueView::Float64(
            float_op(m, FloatOp::Times, x, float_of(m, y as i128)),
        ),
        (ValueView::Interval(x), ValueView::Int64(y)) => interval_value(x * y),
        (ValueView::Int64(x), ValueView::Interval(y)) => interval_value(x * y),
        _ => ValueView::Null,
    }
}

fn product(x: i64, y: i64) -> (r: i128)
    ensures
        r == x * y,
{
    assert(-0x4000_0000_0000_0000_0000_0000_0000_0000 <= x * y <= 0x4000_0000_0000_0000_0000_0000_0000_0000) by (
        nonlinear_arith)
        requires
            -0x8000_0000_0000_0000 <= x <= 0x7fff_ffff_ffff_ffff,
            -0x8000_0000_0000_0000 <= y <= 0x7fff_ffff_ffff_ffff,
    ;
    (x as i128) * (y as i128)
}

fn times_value<U: Fn(Ask) -> Reply>(u: &U, a: &Value, b: &Value) -> (r: Value)
    requires
        is_unit(u),
    ensures
        r@ == times(model(u), a@, b@),
{
    match (a, b) {
        (Value::Int64(x), Value::Int64(y)) => int128_to_value(u, product(*x, *y)),
        (Value::Float64(x), Value::Float64(y)) => Value::Float64(ask_op(u, FloatOp::Times, *x, *y)),
        (Value::Int64(x), Value::Float64(y)) => {
            let f: u64 = ask_float(u, *x as i128);
            Value::Float64(ask_op(u, FloatOp::Times, f, *y))
        },
        (Value::Float64(x), Value::Int64(y)) => {
            let f: u64 = ask_float(u, *y as i128);
            Value::Float64(ask_op(u, FloatOp::Times, *x, f))
        },
        (Value::Interval(x), Value::Int64(y)) => make_interval(product(*x, *y)),
        (Value::Int64(x), Value::Interval(y)) => make_interval(product(*x, *y)),
        _ => Value::Null,
    }
}

/// `a / b`; null for a zero divisor.
pub open spec fn over(m: Unit, a: ValueView, b: ValueView) -> ValueView {
    match (a, b) {
        (ValueView::Int64(x), ValueView::Int64(y)) => if y != 0 {
            int_value(m, quotient(x as int, y as int))
        } else {
            ValueView::Null
        },
        (ValueView::Float64(x), ValueView::Float64(y)) => if !is_zero(y) {
            ValueView::Float64(float_op(m, FloatOp::Over, x, y))
        } else {
            ValueView::Null
        },
        (ValueView::Int64(x), ValueView::Float64(y)) => if !is_zero(y) {
            ValueView::Float64(float_op(m, FloatOp::Over, float_of(m, x as i128), y))
        } else {
            ValueView::Null
        },
        (ValueView::Float64(x), ValueView::Int64(y)) => if y != 0 {
            ValueView::Float64(float_op(m, FloatOp::Over, x, float_of(m, y as i128)))
        } else {
            ValueView::Null
        },
        (ValueView::Interval(x), ValueView::Int64(y)) => if y != 0 {
            interval_value(quotient(x as int, y as int))
        } else {
            ValueView::Null
        },
        _ => ValueView::Null,
    }
}

fn over_value<U: Fn(Ask) -> Reply>(u: &U, a: &Value, b: &Value) -> (r: Value)
    requires
        is_unit(u),
    ensures
        r@ == over(model(u), a@, b@),
{
    match (a, b) {
        (Value::Int64(x), Value::Int64(y)) => if *y != 0 {
            int128_to_value(u, divide(*x, *y))
        } else {
            Value::Null
        },
        (Value::Float64(x), Value::Float64(y)) => if !zero_bits(*y) {
            Value::Float64(ask_op(u, FloatOp::Over, *x, *y))
        } else {
            Value::Null
        },
        (Value::Int64(x), Value::Float64(y)) => if !zero_bits(*y) {
            let f: u64 = ask_float(u, *x as i128);
            Value::Float64(ask_op(u, FloatOp::Over, f, *y))
        } else {
            Value::Null
        },
        (Value::Float64(x), Value::Int64(y)) => if *y != 0 {
            let f: u64 = ask_float(u, *y as i128);
            Value::Float64(ask_op(u, FloatOp::Over, *x, f))
        } else {
            Value::Null
        },
        (Value::Interval(x), Value::Int64(y)) => if *y != 0 {
            make_interval(divide(*x, *y))
        } else {
            Value::Null
        },
        _ => Value::Null,
    }
}

/// `a % b`; null for a zero divisor.
pub open spec fn rest(m: Unit, a: ValueView, b: ValueView) -> ValueView {
    match (a, b) {
        (ValueView::Int64(x), ValueView::Int64(y)) => if y != 0 {
            ValueView::Int64(remainder(x as int, y as int) as i64)
        } else {
            ValueView::Null
        },
        (ValueView::Float64(x), ValueView::Float64(y)) => if !is_zero(y) {
            ValueView::Float64(float_op(m, FloatOp::Rem, x, y))
        } else {
            ValueView::Null
        },
        _ => ValueView::Null,
    }
}

pub fn rest_value<U: Fn(Ask) -> Reply>(u: &U, a: &Value, b: &Value) -> (r: Value)
    requires
        is_unit(u),
    ensures
        r@ == rest(model(u), a@, b@),
{
    match (a, b) {
        (Value::Int64(x), Value::Int64(y)) => if *y != 0 {
            Value::Int64(modulo(*x, *y))
        } else {
            Value::Null
        },
        (Value::Float64(x), Value::Float64(y)) => if !zero_bits(*y) {
            Value::Float64(ask_op(u, FloatOp::Rem, *x, *y))
        } else {
            Value::Null
        },
        _ => Value::Null,
    }
}

/// Whether two values stand to each other as the comparison `op` asks.
pub open spec fn holds(op: BinOp, o: Option<Order>) -> bool {
    match op {
        BinOp::Eq => o == Some(Order::Equal),
        BinOp::Neq => o != Some(Order::Equal),
        BinOp::Lt => o == Some(Order::Less),
        BinOp::Gt => o == Some(Order::Greater),
        BinOp::Lte => o == Some(Order::Less) || o == Some(Order::Equal),
        BinOp::Gte => o == Some(Order::Greater) || o == Some(Order::Equal),
        _ => false,
    }
}

pub fn order_holds(op: BinOp, o: Option<Order>) -> (r: bool)
    ensures
        r == holds(op, o),
{
    match op {
        BinOp::Eq => o == Some(Order::Equal),
        BinOp::Neq => o != Some(Order::Equal),
        BinOp::Lt => o == Some(Order::Less),
        BinOp::Gt => o == Some(Order::Greater),
        BinOp::Lte => o == Some(Order::Less) || o == Some(Order::Equal),
        BinOp::Gte => o == Some(Order::Greater) || o == Some(Order::Equal),
        _ => false,
    }
}

/// A comparison: null where one side is null.
pub open spec fn compared(m: Unit, op: BinOp, a: ValueView, b: ValueView) -> ValueView {
    if a is Null || b is Null {
        ValueView::Null
    } else {
        ValueView::Bool(holds(op, compare(m, a, b)))
    }
}

pub fn compared_value<U: Fn(Ask) -> Reply>(u: &U, op: BinOp, a: &Value, b: &Value) -> (r: Value)
    requires
        is_unit(u),
    ensures
        r@ == compared(model(u), op, a@, b@),
{
    match (a, b) {
        (Value::Null, _) => Value::Null,
        (_, Value::Null) => Value::Null,
        _ => Value::Bool(order_holds(op, order_of(u, a, b))),
    }
}

/// AND, OR, LIKE and ILIKE: null unless both sides are of the type that they ask for.
pub open spec fn joined(op: BinOp, a: ValueView, b: ValueView) -> ValueView {
    match (a, b) {
        (ValueView::Bool(x), ValueView::Bool(y)) => match op {
            BinOp::And => ValueView::Bool(x && y),
            BinOp::Or => ValueView::Bool(x || y),
            _ => ValueView::Null,
        },
        (ValueView::Text(x), ValueView::Text(y)) => match op {
            BinOp::Like => ValueView::Bool(like(x, y)),
            BinOp::Ilike => ValueView::Bool(ilike(x, y)),
            _ => ValueView::Null,
        },
        _ => ValueView::Null,
    }
}

fn joined_value(op: BinOp, a: &Value, b: &Value) -> (r: Value)
    ensures
        r@ == joined(op, a@, b@),
{
    match (a, b) {
        (Value::Bool(x), Value::Bool(y)) => match op {
            BinOp::And => Value::Bool(*x && *y),
            BinOp::Or => Value::Bool(*x || *y),
            _ => Value::Null,
        },
        (Value::Text(x), Value::Text(y)) => match op {
            BinOp::Like => Value::Bool(like_match(x.as_str(), y.as_str())),
            BinOp::Ilike => Value::Bool(ilike_match(x.as_str(), y.as_str())),
            _ => Value::Null,
        },
        _ => Value::Null,
    }
}

/// `a op b`.
pub open spec fn binary_of(m: Unit, op: BinOp, a: ValueView, b: ValueView) -> ValueView {
    match op {
        BinOp::Plus => plus(m, a, b),
        BinOp::Minus => minus(m, a, b),
        BinOp::Mul => times(m, a, b),
        BinOp::Div => over(m, a, b),
        BinOp::Mod => rest(m, a, b),
        BinOp::And => joined(op, a, b),
        BinOp::Or => joined(op, a, b),
        BinOp::Like => joined(op, a, b),
        BinOp::Ilike => joined(op, a, b),
        _ => compared(m, op, a, b),
    }
}

pub fn binary_value<U: Fn(Ask) -> Reply>(u: &U, op: BinOp, a: &Value, b: &Value) -> (r: Value)
    requires
        is_unit(u),
    ensures
        r@ == binary_of(model(u), op, a@, b@),
{
    match op {
        BinOp::Plus => plus_value(u, a, b),
        BinOp::Minus => minus_value(u, a, b),
        BinOp::Mul => times_value(u, a, b),
        BinOp::Div => over_value(u, a, b),
        BinOp::Mod => rest_value(u, a, b),
        BinOp::And => joined_value(op, a, b),
        BinOp::Or => joined_value(op, a, b),
        BinOp::Like => joined_value(op, a, b),
        BinOp::Ilike => joined_value(op, a, b),
        _ => compared_value(u, op, a, b),
    }
}

/// `op a`.
pub open spec fn unary_of(m: Unit, op: UnaryOp, a: ValueView) -> ValueView {
    match (op, a) {
        (UnaryOp::Neg, ValueView::Int64(n)) => int_value(m, -n),
        (UnaryOp::Neg, ValueView::Float64(f)) => ValueView::Float64(float_neg(f)),
        (UnaryOp::Not, ValueView::Bool(b)) => ValueView::Bool(!b),
        _ => ValueView::Null,
    }
}

pub fn unary_value<U: Fn(Ask) -> Reply>(u: &U, op: UnaryOp, a: &Value) -> (r: Value)
    requires
        is_unit(u),
    ensures
        r@ == unary_of(model(u), op, a@),
{
    match (op, a) {
        (UnaryOp::Neg, Value::Int64(n)) => int128_to_value(u, -(*n as i128)),
        (UnaryOp::Neg, Value::Float64(f)) => Value::Float64(neg_bits(*f)),
        (UnaryOp::Not, Value::Bool(b)) => Value::Bool(!*b),
        _ => Value::Null,
    }
}

pub open spec fn is_digit(c: char) -> bool {
    '0' <= c <= '9'
}

/// The number that digits write out.
pub open spec fn digits_value(s: Seq<char>) -> nat
    decreases s.len(),
{
    if s.len() == 0 {
        0
    } else {
        digits_value(s.drop_last()) * 10 + (s.last() as nat - 48) as nat
    }
}

pub open spec fn all_digits(s: Seq<char>) -> bool {
    s.len() > 0 && forall|i: int| 0 <= i < s.len() ==> is_digit(#[trigger] s[i])
}

/// The integer that a text writes out with its sign, where it fits.
pub open spec fn int_of_text(s: Seq<char>) -> Option<i64> {
    let signed = s.len() > 0 && (s[0] == '-' || s[0] == '+');
    let d = if signed { s.skip(1) } else { s };
    let n = if signed && s[0] == '-' { -digits_value(d) } else { digits_value(d) as int };
    if all_digits(d) && fits64(n) {
        Some(n as i64)
    } else {
        None
    }
}

proof fn lemma_digits_grow(s: Seq<char>, k: int)
    requires
        0 <= k <= s.len(),
        forall|i: int| 0 <= i < s.len() ==> is_digit(#[trigger] s[i]),
    ensures
        digits_value(s.take(k)) <= digits_value(s),
    decreases s.len() - k,
{
    if k == s.len() {
        assert(s.take(k) =~= s);
    } else {
        lemma_digits_grow(s, k + 1);
        assert(s.take(k + 1).drop_last() =~= s.take(k));
        assert(is_digit(s[k]));
    }
}

pub fn parse_int(s: &str) -> (r: Option<i64>)
    ensures
        r == int_of_text(s@),
{
    let v = chars_of(s);
    let signed = v.len() > 0 && (v[0] == '-' || v[0] == '+');
    let start: usize = if signed { 1 } else { 0 };
    let ghost d = if signed { v@.skip(1) } else { v@ };
    assert(d =~= v@.skip(start as int));
    if start == v.len() {
        return None;
    }
    let mut acc: i128 = 0;
    let mut i: usize = start;
    assert(d.take(0) =~= Seq::empty());
    while i < v.len()
        invariant
            start <= i <= v.len(),
            v@ == s@,
            d == v@.skip(start as int),
            start == (if s@.len() > 0 && (s@[0] == '-' || s@[0] == '+') { 1int } else { 0 }),
            d == (if s@.len() > 0 && (s@[0] == '-' || s@[0] == '+') { s@.skip(1) } else { s@ }),
            forall|j: int| 0 <= j < i - start ==> is_digit(#[trigger] d[j]),
            acc == digits_value(d.take(i - start)),
            0 <= acc <= 0x8000_0000_0000_0000,
        decreases v.len() - i,
    {
        let c = v[i];
        if !(c >= '0' && c <= '9') {
            assert(!is_digit(d[i - start]));
            return None;
        }
        assert(d.take(i + 1 - start).drop_last() =~= d.take(i - start));
        let k: i128 = (c as u32 - 48) as i128;
        assert(d.take(i + 1 - start).last() == c);
        acc = acc * 10 + k;
        if acc > 0x8000_0000_0000_0000 {
            proof {
                if all_digits(d) {
                    lemma_digits_grow(d, i + 1 - start);
                }
            }
            return None;
        }
        i = i + 1;
    }
    assert(d.take(d.len() as int) =~= d);
    assert(all_digits(d));
    let n: i128 = if signed && v[0] == '-' { -acc } else { acc };
    if n <= i64::MAX as i128 {
        Some(n as i64)
    } else {
        None
    }
}

/// How many microseconds the unit of an interval has, by the word at its end.
pub open spec fn unit_micros(l: Seq<char>) -> Option<int> {
    if ends(l, "microsecond"@) || ends(l, "microseconds"@) {
        Some(1)
    } else if ends(l, "millisecond"@) || ends(l, "milliseconds"@) {
        Some(1_000)
    } else if ends(l, "second"@) || ends(l, "seconds"@) {
        Some(1_000_000)
    } else if ends(l, "minute"@) || ends(l, "minutes"@) {
        Some(60_000_000)
    } else if ends(l, "hour"@) || ends(l, "hours"@) {
        Some(3_600_000_000)
    } else if ends(l, "day"@) || ends(l, "days"@) {
        Some(86_400_000_000)
    } else if ends(l, "week"@) || ends(l, "weeks"@) {
        Some(604_800_000_000)
    } else {
        None
    }
}

pub open spec fn ends(s: Seq<char>, e: Seq<char>) -> bool {
    stands_at(s, e, s.len() - e.len())
}

/// A text without what stands behind its last digit.
pub open spec fn up_to_digit(s: Seq<char>) -> Seq<char>
    decreases s.len(),
{
    if s.len() > 0 && !is_digit(s.last()) {
        up_to_digit(s.drop_last())
    } else {
        s
    }
}

pub open spec fn clamp64(n: int) -> i64 {
    if n > i64::MAX {
        i64::MAX
    } else if n < i64::MIN {
        i64::MIN
    } else {
        n as i64
    }
}

/// The microseconds that a text such as `3 days` names, at most what fits.
pub open spec fn interval_of(s: Seq<char>) -> Option<i64> {
    let t = trimmed(s);
    match unit_micros(text_lower(t)) {
        None => None,
        Some(us) => match int_of_text(trimmed(up_to_digit(t))) {
            None => None,
            Some(n) => Some(clamp64(n * us)),
        },
    }
}

fn micros_of_unit(l: &str) -> (r: Option<i64>)
    ensures
        match r {
            Some(n) => unit_micros(l@) == Some(n as int) && 1 <= n <= 604_800_000_000,
            None => unit_micros(l@) is None,
        },
{
    if ends_with_text(l, "microsecond") || ends_with_text(l, "microseconds") {
        Some(1)
    } else if ends_with_text(l, "millisecond") || ends_with_text(l, "milliseconds") {
        Some(1_000)
    } else if ends_with_text(l, "second") || ends_with_text(l, "seconds") {
        Some(1_000_000)
    } else if ends_with_text(l, "minute") || ends_with_text(l, "minutes") {
        Some(60_000_000)
    } else if ends_with_text(l, "hour") || ends_with_text(l, "hours") {
        Some(3_600_000_000)
    } else if ends_with_text(l, "day") || ends_with_text(l, "days") {
        Some(86_400_000_000)
    } else if ends_with_text(l, "week") || ends_with_text(l, "weeks") {
        Some(604_800_000_000)
    } else {
        None
    }
}

fn cut_to_digit(s: &str) -> (r: String)
    ensures
        r@ == up_to_digit(s@),
{
    let v = chars_of(s);
    let mut n: usize = v.len();
    assert(v@.take(n as int) =~= v@);
    while n > 0 && !(v[n - 1] >= '0' && v[n - 1] <= '9')
        invariant
            n <= v.len(),
            v@ == s@,
            up_to_digit(v@.take(n as int)) == up_to_digit(s@),
        decreases n,
    {
        assert(v@.take(n as int).drop_last() =~= v@.take(n - 1));
        n = n - 1;
    }
    assert(v@.take(n as int) =~= v@.subrange(0, n as int));
    crate::text::string_of(&v, 0, n)
}

pub fn parse_interval(s: &str) -> (r: Option<i64>)
    ensures
        r == interval_of(s@),
{
    let t = trim_text(s);
    let l = t.as_str().to_lowercase();
    match micros_of_unit(l.as_str()) {
        None => None,
        Some(us) => {
            let head = cut_to_digit(t.as_str());
            let digits = trim_text(head.as_str());
            match parse_int(digits.as_str()) {
                None => None,
                Some(n) => {
                    let p: i128 = product(n, us);
                    if p > i64::MAX as i128 {
                        Some(i64::MAX)
                    } else if p < i64::MIN as i128 {
                        Some(i64::MIN)
                    } else {
                        Some(p as i64)
                    }
                },
            }
        },
    }
}

pub open spec fn or_null(v: Option<ValueView>) -> ValueView {
    match v {
        Some(x) => x,
        None => ValueView::Null,
    }
}

pub open spec fn bool_text(b: bool) -> Seq<char> {
    if b {
        "true"@
    } else {
        "false"@
    }
}

pub open spec fn cast_int(m: Unit, v: ValueView) -> ValueView {
    match v {
        ValueView::Int64(_) => v,
        ValueView::Float64(f) => ValueView::Int64(int_of_float(m, f)),
        ValueView::Text(s) => match int_of_text(s) {
            Some(n) => ValueView::Int64(n),
            None => ValueView::Null,
        },
        ValueView::Bool(b) => ValueView::Int64(if b { 1 } else { 0 }),
        _ => ValueView::Null,
    }
}

pub open spec fn cast_float(m: Unit, v: ValueView) -> ValueView {
    match v {
        ValueView::Float64(_) => v,
        ValueView::Int64(n) => ValueView::Float64(float_of(m, n as i128)),
        ValueView::Text(s) => match float_of_text(m, s) {
            Some(f) => ValueView::Float64(f),
            None => ValueView::Null,
        },
        _ => ValueView::Null,
    }
}

pub open spec fn cast_text(m: Unit, v: ValueView) -> ValueView {
    match v {
        ValueView::Null => ValueView::Null,
        ValueView::Text(_) => v,
        ValueView::Int64(n) => ValueView::Text(int_text(n as int)),
        ValueView::Float64(f) => ValueView::Text(text_of_float(m, f)),
        ValueView::Bool(b) => ValueView::Text(bool_text(b)),
        ValueView::Interval(n) => ValueView::Text(int_text(n as int) + " microseconds"@),
        _ => ValueView::Text(text_of_value(m, v)),
    }
}

pub open spec fn cast_bool(v: ValueView) -> ValueView {
    match v {
        ValueView::Bool(_) => v,
        ValueView::Int64(n) => ValueView::Bool(n != 0),
        ValueView::Text(s) => {
            let l = text_lower(s);
            if l == "true"@ || l == "t"@ || l == "1"@ || l == "yes"@ {
                ValueView::Bool(true)
            } else if l == "false"@ || l == "f"@ || l == "0"@ || l == "no"@ {
                ValueView::Bool(false)
            } else {
                ValueView::Null
            }
        },
        _ => ValueView::Null,
    }
}

pub open spec fn cast_time(m: Unit, v: ValueView, t: DataType) -> ValueView {
    match (t, v) {
        (DataType::Date, ValueView::Date(_)) => v,
        (DataType::Timestamp, ValueView::Timestamp(_)) => v,
        (DataType::Timestamp, ValueView::Int64(n)) => ValueView::Timestamp(n),
        (DataType::Uuid, ValueView::Uuid(_)) => v,
        (_, ValueView::Text(s)) => or_null(value_of_text(m, t, s)),
        _ => ValueView::Null,
    }
}

pub open spec fn cast_decimal(m: Unit, v: ValueView) -> ValueView {
    match v {
        ValueView::Decimal(_, _) => v,
        ValueView::Int64(n) => ValueView::Decimal(n as i128, 0),
        ValueView::Float64(f) => or_null(value_of_text(m, DataType::Decimal, text_of_float(m, f))),
        ValueView::Text(s) => or_null(value_of_text(m, DataType::Decimal, s)),
        _ => ValueView::Null,
    }
}

pub open spec fn cast_rest(v: ValueView, t: DataType) -> ValueView {
    match (t, v) {
        (DataType::Interval, ValueView::Interval(_)) => v,
        (DataType::Interval, ValueView::Text(s)) => match interval_of(s) {
            Some(n) => ValueView::Interval(n),
            None => ValueView::Null,
        },
        (DataType::Bytes, ValueView::Bytes(_)) => v,
        (DataType::Bytes, ValueView::Text(s)) => ValueView::Bytes(encode_utf8(s)),
        _ => ValueView::Null,
    }
}

/// A value made one of the type `t`; null where that cannot be. Any value can stand for JSON.
pub open spec fn cast(m: Unit, v: ValueView, t: DataType) -> ValueView {
    match t {
        DataType::Int64 => cast_int(m, v),
        DataType::Float64 => cast_float(m, v),
        DataType::Text => cast_text(m, v),
        DataType::Bool => cast_bool(v),
        DataType::Date => cast_time(m, v, t),
        DataType::Timestamp => cast_time(m, v, t),
        DataType::Uuid => cast_time(m, v, t),
        DataType::Decimal => cast_decimal(m, v),
        DataType::Interval => cast_rest(v, t),
        DataType::Bytes => cast_rest(v, t),
        DataType::Json => v,
    }
}

fn value_or_null(v: Option<Value>) -> (r: Value)
    ensures
        r@ == or_null(match v { Some(x) => Some(x@), None => None }),
{
    match v {
        Some(x) => x,
        None => Value::Null,
    }
}

pub fn show_bool(b: bool) -> (r: String)
    ensures
        r@ == bool_text(b),
{
    if b {
        "true".to_string()
    } else {
        "false".to_string()
    }
}

fn to_int<U: Fn(Ask) -> Reply>(u: &U, v: &Value) -> (r: Value)
    requires
        is_unit(u),
    ensures
        r@ == cast_int(model(u), v@),
{
    match v {
        Value::Int64(n) => Value::Int64(*n),
        Value::Float64(f) => Value::Int64(ask_int(u, *f)),
        Value::Text(s) => match parse_int(s.as_str()) {
            Some(n) => Value::Int64(n),
            None => Value::Null,
        },
        Value::Bool(b) => Value::Int64(if *b { 1 } else { 0 }),
        _ => Value::Null,
    }
}

fn to_float<U: Fn(Ask) -> Reply>(u: &U, v: &Value) -> (r: Value)
    requires
        is_unit(u),
    ensures
        r@ == cast_float(model(u), v@),
{
    match v {
        Value::Float64(f) => Value::Float64(*f),
        Value::Int64(n) => Value::Float64(ask_float(u, *n as i128)),
        Value::Text(s) => match ask_parse_float(u, s.as_str()) {
            Some(f) => Value::Float64(f),
            None => Value::Null,
        },
        _ => Value::Null,
    }
}

fn to_text<U: Fn(Ask) -> Reply>(u: &U, v: &Value) -> (r: Value)
    requires
        is_unit(u),
    ensures
        r@ == cast_text(model(u), v@),
{
    match v {
        Value::Null => Value::Null,
        Value::Text(s) => Value::Text(s.clone()),
        Value::Int64(n) => Value::Text(int_to_text(*n)),
        Value::Float64(f) => Value::Text(ask_show_float(u, *f)),
        Value::Bool(b) => Value::Text(show_bool(*b)),
        Value::Interval(n) => Value::Text(join2(int_to_text(*n).as_str(), " microseconds")),
        _ => Value::Text(ask_show(u, v)),
    }
}

fn to_bool(v: &Value) -> (r: Value)
    ensures
        r@ == cast_bool(v@),
{
    match v {
        Value::Bool(b) => Value::Bool(*b),
        Value::Int64(n) => Value::Bool(*n != 0),
        Value::Text(s) => {
            let l = s.as_str().to_lowercase();
            let t = l.as_str();
            if text_is(t, "true") || text_is(t, "t") || text_is(t, "1") || text_is(t, "yes") {
                Value::Bool(true)
            } else if text_is(t, "false") || text_is(t, "f") || text_is(t, "0") || text_is(t, "no") {
                Value::Bool(false)
            } else {
                Value::Null
            }
        },
        _ => Value::Null,
    }
}

fn to_time<U: Fn(Ask) -> Reply>(u: &U, v: &Value, t: DataType) -> (r: Value)
    requires
        is_unit(u),
    ensures
        r@ == cast_time(model(u), v@, t),
{
    match (t, v) {
        (DataType::Date, Value::Date(d)) => Value::Date(*d),
        (DataType::Timestamp, Value::Timestamp(n)) => Value::Timestamp(*n),
        (DataType::Timestamp, Value::Int64(n)) => Value::Timestamp(*n),
        (DataType::Uuid, Value::Uuid(n)) => Value::Uuid(*n),
        (_, Value::Text(s)) => value_or_null(ask_parse(u, t, s.as_str())),
        _ => Value::Null,
    }
}

fn to_decimal<U: Fn(Ask) -> Reply>(u: &U, v: &Value) -> (r: Value)
    requires
        is_unit(u),
    ensures
        r@ == cast_decimal(model(u), v@),
{
    match v {
        Value::Decimal(n, k) => Value::Decimal(*n, *k),
        Value::Int64(n) => Value::Decimal(*n as i128, 0),
        Value::Float64(f) => {
            let t = ask_show_float(u, *f);
            value_or_null(ask_parse(u, DataType::Decimal, t.as_str()))
        },
        Value::Text(s) => value_or_null(ask_parse(u, DataType::Decimal, s.as_str())),
        _ => Value::Null,
    }
}

fn to_rest(v: &Value, t: DataType) -> (r: Value)
    ensures
        r@ == cast_rest(v@, t),
{
    match (t, v) {
        (DataType::Interval, Value::Interval(n)) => Value::Interval(*n),
        (DataType::Interval, Value::Text(s)) => match parse_interval(s.as_str()) {
            Some(n) => Value::Interval(n),
            None => Value::Null,
        },
        (DataType::Bytes, Value::Bytes(b)) => Value::Bytes(crate::text::copy_vec(b)),
        (DataType::Bytes, Value::Text(s)) => Value::Bytes(s.as_str().as_bytes_vec()),
        _ => Value::Null,
    }
}

pub fn cast_value<U: Fn(Ask) -> Reply>(u: &U, v: &Value, t: DataType) -> (r: Value)
    requires
        is_unit(u),
    ensures
        r@ == cast(model(u), v@, t),
{
    match t {
        DataType::Int64 => to_int(u, v),
        DataType::Float64 => to_float(u, v),
        DataType::Text => to_text(u, v),
        DataType::Bool => to_bool(v),
        DataType::Date => to_time(u, v, t),
        DataType::Timestamp => to_time(u, v, t),
        DataType::Uuid => to_time(u, v, t),
        DataType::Decimal => to_decimal(u, v),
        DataType::Interval => to_rest(v, t),
        DataType::Bytes => to_rest(v, t),
        DataType::Json => v.dup(),
    }
}

} // verus!

use vstd::prelude::*;
use crate::value::{Order, Value, ValueView, values_view};
use super::scalar::{byte_codes, codes, compare, int_order, order_bytes, order_ints, order_texts, seq_order};
use super::sort::reversed;
use super::unit::{Unit, unit_order};

verus! {

/// The numbers by which keys are ordered: first the kind of the value, then the value.
pub open spec fn order_key(v: ValueView) -> Seq<int> {
    match v {
        ValueView::Null => seq![0int],
        ValueView::Bool(b) => seq![1int] + seq![if b { 1int } else { 0 }],
        ValueView::Int64(n) => seq![2int] + seq![n as int],
        ValueView::Float64(b) => seq![3int] + seq![float_rank(b)],
        ValueView::Text(s) => seq![4int] + codes(s),
        ValueView::Bytes(s) => seq![5int] + byte_codes(s),
        ValueView::Json(s) => seq![6int] + codes(s),
        ValueView::Timestamp(n) => seq![7int] + seq![n as int],
        ValueView::Date(n) => seq![8int] + seq![n as int],
        ValueView::Uuid(n) => seq![9int] + seq![n as int],
        ValueView::Decimal(m, s) => seq![10int] + seq![m as int, s as int],
        ValueView::Interval(n) => seq![11int] + seq![n as int],
    }
}

/// The place of a float among the floats: the bit patterns of negative ones run backwards.
pub open spec fn float_rank(b: u64) -> int {
    if b >= 0x8000_0000_0000_0000 {
        0x7fff_ffff_ffff_ffff - b
    } else {
        b as int
    }
}

/// The order of two values of a key.
pub open spec fn value_order(a: ValueView, b: ValueView) -> Order {
    seq_order(order_key(a), order_key(b), 0)
}

/// The order of two keys from place `i` on.
pub open spec fn key_order(a: Seq<ValueView>, b: Seq<ValueView>, i: int) -> Order
    decreases a.len() - i,
{
    if i >= a.len() || i >= b.len() {
        int_order(a.len() as int, b.len() as int)
    } else if value_order(a[i], b[i]) == Order::Equal {
        key_order(a, b, i + 1)
    } else {
        value_order(a[i], b[i])
    }
}

proof fn lemma_shift(r: int, x: Seq<int>, y: Seq<int>, i: int)
    requires
        0 <= i,
    ensures
        seq_order(seq![r] + x, seq![r] + y, i + 1) == seq_order(x, y, i),
    decreases x.len() - i,
{
    let a = seq![r] + x;
    let b = seq![r] + y;
    if i < x.len() && i < y.len() {
        assert(a[i + 1] == x[i]);
        assert(b[i + 1] == y[i]);
        lemma_shift(r, x, y, i + 1);
    }
}

proof fn lemma_headed(r: int, x: Seq<int>, s: int, y: Seq<int>)
    ensures
        seq_order(seq![r] + x, seq![s] + y, 0) == (if r == s {
            seq_order(x, y, 0)
        } else {
            int_order(r, s)
        }),
{
    let a = seq![r] + x;
    let b = seq![s] + y;
    assert(a[0] == r && b[0] == s);
    if r == s {
        lemma_shift(r, x, y, 0);
    }
}

proof fn lemma_single(n: int, m: int)
    ensures
        seq_order(seq![n], seq![m], 0) == int_order(n, m),
{
    reveal_with_fuel(seq_order, 3);
}

spec fn rank_of(v: ValueView) -> int {
    order_key(v)[0]
}

fn rank(v: &Value) -> (r: u8)
    ensures
        r as int == rank_of(v@),
{
    match v {
        Value::Null => 0,
        Value::Bool(_) => 1,
        Value::Int64(_) => 2,
        Value::Float64(_) => 3,
        Value::Text(_) => 4,
        Value::Bytes(_) => 5,
        Value::Json(_) => 6,
        Value::Timestamp(_) => 7,
        Value::Date(_) => 8,
        Value::Uuid(_) => 9,
        Value::Decimal(_, _) => 10,
        Value::Interval(_) => 11,
    }
}

fn float_rank_of(b: u64) -> (r: i128)
    ensures
        r as int == float_rank(b),
{
    if b >= 0x8000_0000_0000_0000 {
        0x7fff_ffff_ffff_ffff - b as i128
    } else {
        b as i128
    }
}

fn order_uuids(x: u128, y: u128) -> (r: Order)
    ensures
        r == int_order(x as int, y as int),
{
    if x < y {
        Order::Less
    } else if x == y {
        Order::Equal
    } else {
        Order::Greater
    }
}

proof fn lemma_rank(v: ValueView)
    ensures
        order_key(v) =~= seq![rank_of(v)] + order_key(v).skip(1),
{
}

proof fn lemma_pair(a: int, b: int, x: int, y: int)
    ensures
        seq_order(seq![a, b], seq![x, y], 0) == (if a == x {
            int_order(b, y)
        } else {
            int_order(a, x)
        }),
{
    reveal_with_fuel(seq_order, 4);
}

/// Compares two values of a key.
pub fn order_values(a: &Value, b: &Value) -> (r: Order)
    ensures
        r == value_order(a@, b@),
{
    let p: u8 = rank(a);
    let q: u8 = rank(b);
    proof {
        lemma_rank(a@);
        lemma_rank(b@);
        lemma_headed(rank_of(a@), order_key(a@).skip(1), rank_of(b@), order_key(b@).skip(1));
    }
    if p != q {
        return order_ints(p as i128, q as i128);
    }
    match (a, b) {
        (Value::Bool(x), Value::Bool(y)) => {
            let v: i128 = if *x { 1 } else { 0 };
            let w: i128 = if *y { 1 } else { 0 };
            proof {
                lemma_single(v as int, w as int);
                assert(order_key(a@).skip(1) =~= seq![v as int]);
                assert(order_key(b@).skip(1) =~= seq![w as int]);
            }
            order_ints(v, w)
        },
        (Value::Int64(x), Value::Int64(y)) => {
            proof {
                lemma_single(*x as int, *y as int);
                assert(order_key(a@).skip(1) =~= seq![*x as int]);
                assert(order_key(b@).skip(1) =~= seq![*y as int]);
            }
            order_ints(*x as i128, *y as i128)
        },
        (Value::Float64(x), Value::Float64(y)) => {
            let v: i128 = float_rank_of(*x);
            let w: i128 = float_rank_of(*y);
            proof {
                lemma_single(v as int, w as int);
                assert(order_key(a@).skip(1) =~= seq![v as int]);
                assert(order_key(b@).skip(1) =~= seq![w as int]);
            }
            order_ints(v, w)
        },
        (Value::Text(x), Value::Text(y)) => {
            assert(order_key(a@).skip(1) =~= codes(x@));
            assert(order_key(b@).skip(1) =~= codes(y@));
            order_texts(x.as_str(), y.as_str())
        },
        (Value::Bytes(x), Value::Bytes(y)) => {
            assert(order_key(a@).skip(1) =~= byte_codes(x@));
            assert(order_key(b@).skip(1) =~= byte_codes(y@));
            order_bytes(x, y)
        },
        (Value::Json(x), Value::Json(y)) => {
            assert(order_key(a@).skip(1) =~= codes(x@));
            assert(order_key(b@).skip(1) =~= codes(y@));
            order_texts(x.as_str(), y.as_str())
        },
        (Value::Timestamp(x), Value::Timestamp(y)) => {
            proof {
                lemma_single(*x as int, *y as int);
                assert(order_key(a@).skip(1) =~= seq![*x as int]);
                assert(order_key(b@).skip(1) =~= seq![*y as int]);
            }
            order_ints(*x as i128, *y as i128)
        },
        (Value::Date(x), Value::Date(y)) => {
            proof {
                lemma_single(*x as int, *y as int);
                assert(order_key(a@).skip(1) =~= seq![*x as int]);
                assert(order_key(b@).skip(1) =~= seq![*y as int]);
            }
            order_ints(*x as i128, *y as i128)
        },
        (Value::Uuid(x), Value::Uuid(y)) => {
            proof {
                lemma_single(*x as int, *y as int);
                assert(order_key(a@).skip(1) =~= seq![*x as int]);
                assert(order_key(b@).skip(1) =~= seq![*y as int]);
            }
            order_uuids(*x, *y)
        },
        (Value::Decimal(x, k), Value::Decimal(y, l)) => {
            proof {
                lemma_pair(*x as int, *k as int, *y as int, *l as int);
                assert(order_key(a@).skip(1) =~= seq![*x as int, *k as int]);
                assert(order_key(b@).skip(1) =~= seq![*y as int, *l as int]);
            }
            if *x != *y {
                order_ints(*x, *y)
            } else {
                order_ints(*k as i128, *l as i128)
            }
        },
        (Value::Interval(x), Value::Interval(y)) => {
            proof {
                lemma_single(*x as int, *y as int);
                assert(order_key(a@).skip(1) =~= seq![*x as int]);
                assert(order_key(b@).skip(1) =~= seq![*y as int]);
            }
            order_ints(*x as i128, *y as i128)
        },
        _ => {
            assert(a@ is Null && b@ is Null);
            assert(order_key(a@).skip(1) =~= Seq::empty());
            Order::Equal
        },
    }
}

/// Compares two keys.
pub fn order_keys(a: &Vec<Value>, b: &Vec<Value>) -> (r: Order)
    ensures
        r == key_order(values_view(a@), values_view(b@), 0),
{
    let ghost x = values_view(a@);
    let ghost y = values_view(b@);
    let mut i: usize = 0;
    while i < a.len() && i < b.len()
        invariant
            i <= a.len(),
            i <= b.len(),
            x == values_view(a@),
            y == values_view(b@),
            key_order(x, y, 0) == key_order(x, y, i as int),
        decreases a.len() - i,
    {
        assert(x[i as int] == a@[i as int]@);
        assert(y[i as int] == b@[i as int]@);
        match order_values(&a[i], &b[i]) {
            Order::Equal => {},
            o => {
                return o;
            },
        }
        i = i + 1;
    }
    order_ints(a.len() as i128, b.len() as i128)
}

pub proof fn lemma_seq_equal(a: Seq<int>, b: Seq<int>, i: int)
    requires
        0 <= i <= a.len(),
        i <= b.len(),
        forall|j: int| 0 <= j < i ==> a[j] == b[j],
    ensures
        (seq_order(a, b, i) == Order::Equal) == (a == b),
    decreases a.len() - i,
{
    if i < a.len() && i < b.len() {
        if a[i] == b[i] {
            lemma_seq_equal(a, b, i + 1);
        }
    } else if a.len() == b.len() {
        assert(a =~= b);
    }
}

pub proof fn lemma_seq_flip(a: Seq<int>, b: Seq<int>, i: int)
    requires
        0 <= i,
    ensures
        seq_order(b, a, i) == reversed(seq_order(a, b, i)),
    decreases a.len() - i,
{
    if i < a.len() && i < b.len() && a[i] == b[i] {
        lemma_seq_flip(a, b, i + 1);
    }
}

pub proof fn lemma_seq_less(a: Seq<int>, b: Seq<int>, c: Seq<int>, i: int)
    requires
        0 <= i,
        seq_order(a, b, i) == Order::Less,
        seq_order(b, c, i) == Order::Less,
    ensures
        seq_order(a, c, i) == Order::Less,
    decreases a.len() - i,
{
    if i < a.len() && i < b.len() && i < c.len() && a[i] == b[i] && b[i] == c[i] {
        lemma_seq_less(a, b, c, i + 1);
    }
}

pub proof fn lemma_code(c: char, d: char)
    requires
        c as u32 == d as u32,
    ensures
        c == d,
{
}

proof fn lemma_codes(s: Seq<char>, t: Seq<char>)
    requires
        codes(s) == codes(t),
    ensures
        s == t,
{
    assert(s.len() == codes(s).len());
    assert(t.len() == codes(t).len());
    assert forall|i: int| 0 <= i < s.len() implies s[i] == t[i] by {
        assert(codes(s)[i] == s[i] as u32 as int);
        assert(codes(t)[i] == t[i] as u32 as int);
        lemma_code(s[i], t[i]);
    }
    assert(s =~= t);
}

proof fn lemma_bytes(s: Seq<u8>, t: Seq<u8>)
    requires
        byte_codes(s) == byte_codes(t),
    ensures
        s == t,
{
    assert(s.len() == byte_codes(s).len());
    assert(t.len() == byte_codes(t).len());
    assert forall|i: int| 0 <= i < s.len() implies s[i] == t[i] by {
        assert(byte_codes(s)[i] == s[i] as int);
        assert(byte_codes(t)[i] == t[i] as int);
    }
    assert(s =~= t);
}

spec fn kind(v: ValueView) -> int {
    match v {
        ValueView::Null => 0,
        ValueView::Bool(_) => 1,
        ValueView::Int64(_) => 2,
        ValueView::Float64(_) => 3,
        ValueView::Text(_) => 4,
        ValueView::Bytes(_) => 5,
        ValueView::Json(_) => 6,
        ValueView::Timestamp(_) => 7,
        ValueView::Date(_) => 8,
        ValueView::Uuid(_) => 9,
        ValueView::Decimal(_, _) => 10,
        ValueView::Interval(_) => 11,
    }
}

proof fn lemma_kind(v: ValueView)
    ensures
        order_key(v)[0] == kind(v),
{
}

proof fn lemma_order_key(a: ValueView, b: ValueView)
    requires
        order_key(a) == order_key(b),
    ensures
        a == b,
{
    lemma_kind(a);
    lemma_kind(b);
    assert(order_key(a).skip(1) == order_key(b).skip(1));
    match (a, b) {
        (ValueView::Text(x), ValueView::Text(y)) => {
            assert(order_key(a).skip(1) =~= codes(x));
            assert(order_key(b).skip(1) =~= codes(y));
            lemma_codes(x, y);
        },
        (ValueView::Json(x), ValueView::Json(y)) => {
            assert(order_key(a).skip(1) =~= codes(x));
            assert(order_key(b).skip(1) =~= codes(y));
            lemma_codes(x, y);
        },
        (ValueView::Bytes(x), ValueView::Bytes(y)) => {
            assert(order_key(a).skip(1) =~= byte_codes(x));
            assert(order_key(b).skip(1) =~= byte_codes(y));
            lemma_bytes(x, y);
        },
        (ValueView::Decimal(x, k), ValueView::Decimal(y, l)) => {
            assert(order_key(a)[1] == x as int && order_key(a)[2] == k as int);
            assert(order_key(b)[1] == y as int && order_key(b)[2] == l as int);
        },
        (ValueView::Int64(x), ValueView::Int64(y)) => {
            assert(order_key(a)[1] == x as int);
            assert(order_key(b)[1] == y as int);
        },
        (ValueView::Timestamp(x), ValueView::Timestamp(y)) => {
            assert(order_key(a)[1] == x as int);
            assert(order_key(b)[1] == y as int);
        },
        (ValueView::Date(x), ValueView::Date(y)) => {
            assert(order_key(a)[1] == x as int);
            assert(order_key(b)[1] == y as int);
        },
        (ValueView::Uuid(x), ValueView::Uuid(y)) => {
            assert(order_key(a)[1] == x as int);
            assert(order_key(b)[1] == y as int);
        },
        (ValueView::Interval(x), ValueView::Interval(y)) => {
            assert(order_key(a)[1] == x as int);
            assert(order_key(b)[1] == y as int);
        },
        (ValueView::Bool(x), ValueView::Bool(y)) => {
            assert(order_key(a)[1] == (if x { 1int } else { 0 }));
            assert(order_key(b)[1] == (if y { 1int } else { 0 }));
        },
        (ValueView::Float64(x), ValueView::Float64(y)) => {
            assert(order_key(a)[1] == float_rank(x));
            assert(order_key(b)[1] == float_rank(y));
        },
        _ => {
            assert(kind(a) == kind(b));
        },
    }
}

/// Two values of a key stand level only where they are the very same.
pub proof fn law_values_level(a: ValueView, b: ValueView)
    ensures
        (value_order(a, b) == Order::Equal) == (a == b),
{
    lemma_seq_equal(order_key(a), order_key(b), 0);
    if order_key(a) == order_key(b) {
        lemma_order_key(a, b);
    }
}

proof fn lemma_keys_level(a: Seq<ValueView>, b: Seq<ValueView>, i: int)
    requires
        0 <= i <= a.len(),
        i <= b.len(),
        forall|j: int| 0 <= j < i ==> a[j] == b[j],
    ensures
        (key_order(a, b, i) == Order::Equal) == (a == b),
    decreases a.len() - i,
{
    if i < a.len() && i < b.len() {
        law_values_level(a[i], b[i]);
        if a[i] == b[i] {
            lemma_keys_level(a, b, i + 1);
        }
    } else if a.len() == b.len() {
        assert(a =~= b);
    }
}

/// Two keys stand level only where they are the very same.
pub proof fn law_keys_level(a: Seq<ValueView>, b: Seq<ValueView>)
    ensures
        (key_order(a, b, 0) == Order::Equal) == (a == b),
{
    lemma_keys_level(a, b, 0);
}

proof fn lemma_keys_flip(a: Seq<ValueView>, b: Seq<ValueView>, i: int)
    requires
        0 <= i,
    ensures
        key_order(b, a, i) == reversed(key_order(a, b, i)),
    decreases a.len() - i,
{
    if i < a.len() && i < b.len() {
        lemma_seq_flip(order_key(a[i]), order_key(b[i]), 0);
        if value_order(a[i], b[i]) == Order::Equal {
            lemma_keys_flip(a, b, i + 1);
        }
    }
}

/// Which of two keys comes first does not depend on which is asked about.
pub proof fn law_keys_flip(a: Seq<ValueView>, b: Seq<ValueView>)
    ensures
        key_order(b, a, 0) == reversed(key_order(a, b, 0)),
{
    lemma_keys_flip(a, b, 0);
}

proof fn lemma_keys_less(a: Seq<ValueView>, b: Seq<ValueView>, c: Seq<ValueView>, i: int)
    requires
        0 <= i,
        key_order(a, b, i) == Order::Less,
        key_order(b, c, i) == Order::Less,
    ensures
        key_order(a, c, i) == Order::Less,
    decreases a.len() - i,
{
    if i < a.len() && i < b.len() && i < c.len() {
        law_values_level(a[i], b[i]);
        law_values_level(b[i], c[i]);
        law_values_level(a[i], c[i]);
        if a[i] == b[i] && b[i] == c[i] {
            lemma_keys_less(a, b, c, i + 1);
        } else if a[i] != b[i] && b[i] != c[i] {
            lemma_seq_less(order_key(a[i]), order_key(b[i]), order_key(c[i]), 0);
        }
    }
}

/// A key that comes before another comes before all that the other comes before.
pub proof fn law_keys_less(a: Seq<ValueView>, b: Seq<ValueView>, c: Seq<ValueView>)
    requires
        key_order(a, b, 0) == Order::Less,
        key_order(b, c, 0) == Order::Less,
    ensures
        key_order(a, c, 0) == Order::Less,
{
    lemma_keys_less(a, b, c, 0);
}

/// Where a value stands to another, seen from the other.
pub open spec fn turned(o: Option<Order>) -> Option<Order> {
    match o {
        Some(o) => Some(reversed(o)),
        None => None,
    }
}

/// Whether the numeric unit compares alike from both sides.
pub open spec fn even_handed(m: Unit) -> bool {
    forall|a: ValueView, b: ValueView| #[trigger] unit_order(m, b, a) == turned(unit_order(m, a, b))
}

/// Comparing from the other side turns the outcome round.
pub proof fn law_compare_flips(m: Unit, a: ValueView, b: ValueView)
    requires
        even_handed(m),
    ensures
        compare(m, b, a) == turned(compare(m, a, b)),
{
    match (a, b) {
        (ValueView::Text(x), ValueView::Text(y)) => {
            lemma_seq_flip(codes(x), codes(y), 0);
        },
        (ValueView::Bytes(x), ValueView::Bytes(y)) => {
            lemma_seq_flip(byte_codes(x), byte_codes(y), 0);
        },
        _ => {},
    }
}

} // verus!

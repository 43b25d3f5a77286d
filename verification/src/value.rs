use vstd::prelude::*;

verus! {

/// The type of a column.
#[derive(Debug, Clone, Copy, PartialEq, Eq, Structural)]
pub enum DataType {
    Int64,
    Float64,
    Decimal,
    Text,
    Bool,
    Bytes,
    Json,
    Timestamp,
    Date,
    Uuid,
    Interval,
}

/// How one value stands to another.
#[derive(Debug, Clone, Copy, PartialEq, Eq, Structural)]
pub enum Order {
    Less,
    Equal,
    Greater,
}

/// One column value of a row. A float is held as the bit pattern of its double-precision form,
/// a date as days and a timestamp as microseconds since 1970-01-01, an interval in microseconds,
/// a decimal as an unscaled number with its count of fraction digits.
#[derive(Debug, PartialEq, Eq)]
pub enum Value {
    Null,
    Bool(bool),
    Int64(i64),
    Float64(u64),
    Text(String),
    Bytes(Vec<u8>),
    Json(String),
    Timestamp(i64),
    Date(i32),
    Uuid(u128),
    Decimal(i128, u8),
    Interval(i64),
}

/// What contracts say about a `Value`.
pub enum ValueView {
    Null,
    Bool(bool),
    Int64(i64),
    Float64(u64),
    Text(Seq<char>),
    Bytes(Seq<u8>),
    Json(Seq<char>),
    Timestamp(i64),
    Date(i32),
    Uuid(u128),
    Decimal(i128, u8),
    Interval(i64),
}

impl Value {
    pub open spec fn view(&self) -> ValueView
        decreases self,
    {
        match self {
            Value::Null => ValueView::Null,
            Value::Bool(a) => ValueView::Bool(*a),
            Value::Int64(a) => ValueView::Int64(*a),
            Value::Float64(a) => ValueView::Float64(*a),
            Value::Text(a) => ValueView::Text(a@),
            Value::Bytes(a) => ValueView::Bytes(a@),
            Value::Json(a) => ValueView::Json(a@),
            Value::Timestamp(a) => ValueView::Timestamp(*a),
            Value::Date(a) => ValueView::Date(*a),
            Value::Uuid(a) => ValueView::Uuid(*a),
            Value::Decimal(a, b) => ValueView::Decimal(*a, *b),
            Value::Interval(a) => ValueView::Interval(*a),
        }
    }

    /// A copy of the whole value.
    pub fn dup(&self) -> (r: Value)
        ensures
            r@ == self@,
        decreases self,
    {
        match self {
            Value::Null => Value::Null,
            Value::Bool(a) => Value::Bool(*a),
            Value::Int64(a) => Value::Int64(*a),
            Value::Float64(a) => Value::Float64(*a),
            Value::Text(a) => Value::Text(a.clone()),
            Value::Bytes(a) => Value::Bytes(crate::text::copy_vec(a)),
            Value::Json(a) => Value::Json(a.clone()),
            Value::Timestamp(a) => Value::Timestamp(*a),
            Value::Date(a) => Value::Date(*a),
            Value::Uuid(a) => Value::Uuid(*a),
            Value::Decimal(a, b) => Value::Decimal(*a, *b),
            Value::Interval(a) => Value::Interval(*a),
        }
    }
}

impl Clone for Value {
    fn clone(&self) -> (r: Self)
        ensures
            r@ == self@,
    {
        self.dup()
    }
}

/// The views of a sequence, item by item.
pub open spec fn values_view(s: Seq<Value>) -> Seq<ValueView>
    decreases s,
{
    Seq::new(s.len(), |i: int| if 0 <= i < s.len() { s[i]@ } else { arbitrary() })
}

pub broadcast proof fn values_push(s: Seq<Value>, e: Value)
    ensures
        #[trigger] values_view(s.push(e)) == values_view(s).push(e@),
{
    assert(values_view(s.push(e)) =~= values_view(s).push(e@));
}

/// A copy of a list, item by item.
pub fn dup_values(v: &Vec<Value>) -> (r: Vec<Value>)
    ensures
        values_view(r@) == values_view(v@),
    decreases v,
{
    let mut r: Vec<Value> = Vec::new();
    let mut i: usize = 0;
    while i < v.len()
        invariant
            i <= v.len(),
            values_view(r@) == values_view(v@).take(i as int),
        decreases v.len() - i,
    {
        let e = v[i].dup();
        proof {
            values_push(r@, e);
            assert(values_view(v@).take(i + 1) =~= values_view(v@).take(i as int).push(v@[i as int]@));
        }
        r.push(e);
        i = i + 1;
    }
    assert(values_view(v@).take(v@.len() as int) =~= values_view(v@));
    r
}

/// The views of a sequence, item by item.
pub open spec fn rows_view(s: Seq<Vec<Value>>) -> Seq<Seq<ValueView>>
    decreases s,
{
    Seq::new(s.len(), |i: int| if 0 <= i < s.len() { values_view(s[i]@) } else { arbitrary() })
}

pub broadcast proof fn rows_push(s: Seq<Vec<Value>>, e: Vec<Value>)
    ensures
        #[trigger] rows_view(s.push(e)) == rows_view(s).push(values_view(e@)),
{
    assert(rows_view(s.push(e)) =~= rows_view(s).push(values_view(e@)));
}

/// A copy of a list, item by item.
pub fn dup_rows(v: &Vec<Vec<Value>>) -> (r: Vec<Vec<Value>>)
    ensures
        rows_view(r@) == rows_view(v@),
    decreases v,
{
    let mut r: Vec<Vec<Value>> = Vec::new();
    let mut i: usize = 0;
    while i < v.len()
        invariant
            i <= v.len(),
            rows_view(r@) == rows_view(v@).take(i as int),
        decreases v.len() - i,
    {
        let e = dup_values(&v[i]);
        proof {
            rows_push(r@, e);
            assert(rows_view(v@).take(i + 1) =~= rows_view(v@).take(i as int).push(values_view(v@[i as int]@)));
        }
        r.push(e);
        i = i + 1;
    }
    assert(rows_view(v@).take(v@.len() as int) =~= rows_view(v@));
    r
}

/// The views of a sequence, item by item.
pub open spec fn names_view(s: Seq<String>) -> Seq<Seq<char>>
    decreases s,
{
    Seq::new(s.len(), |i: int| if 0 <= i < s.len() { s[i]@ } else { arbitrary() })
}

pub broadcast proof fn names_push(s: Seq<String>, e: String)
    ensures
        #[trigger] names_view(s.push(e)) == names_view(s).push(e@),
{
    assert(names_view(s.push(e)) =~= names_view(s).push(e@));
}

/// A copy of a list, item by item.
pub fn dup_names(v: &Vec<String>) -> (r: Vec<String>)
    ensures
        names_view(r@) == names_view(v@),
    decreases v,
{
    let mut r: Vec<String> = Vec::new();
    let mut i: usize = 0;
    while i < v.len()
        invariant
            i <= v.len(),
            names_view(r@) == names_view(v@).take(i as int),
        decreases v.len() - i,
    {
        let e = v[i].clone();
        proof {
            names_push(r@, e);
            assert(names_view(v@).take(i + 1) =~= names_view(v@).take(i as int).push(v@[i as int]@));
        }
        r.push(e);
        i = i + 1;
    }
    assert(names_view(v@).take(v@.len() as int) =~= names_view(v@));
    r
}

pub broadcast group group_value_views {
    values_push,
    rows_push,
    names_push,
}

} // verus!

//! Float literals written out plainly.
use vstd::prelude::*;
use vstd::string::*;
use crate::text::{chars_of, int_text, int_to_text, join2, join3, string_of};
use super::lexer::digits_value;

verus! {

/// How many digits a literal may have for the float that it stands for to be written with just them.
pub const SURE_DIGITS: usize = 15;

/// How far the point may lie from the digits.
pub const FAR_POINT: i64 = 300;

/// Where the exponent of a literal starts, from `i` on.
pub open spec fn exponent_at(s: Seq<char>, i: int) -> int
    decreases s.len() - i,
{
    if i < 0 || i >= s.len() || s[i] == 'e' || s[i] == 'E' {
        i
    } else {
        exponent_at(s, i + 1)
    }
}

/// The digits of `s` up to `to`, without its points.
pub open spec fn digits_before(s: Seq<char>, to: int) -> Seq<char>
    decreases to,
{
    if to <= 0 || to > s.len() {
        Seq::empty()
    } else if s[to - 1] == '.' {
        digits_before(s, to - 1)
    } else {
        digits_before(s, to - 1).push(s[to - 1])
    }
}

/// How many characters of `s` up to `to` stand before the first point.
pub open spec fn before_point(s: Seq<char>, to: int, i: int) -> int
    decreases to - i,
{
    if i < 0 || i >= to || i >= s.len() || s[i] == '.' {
        i
    } else {
        before_point(s, to, i + 1)
    }
}

/// Where the first character other than a zero stands, from `i` on.
pub open spec fn zeros_end(d: Seq<char>, i: int) -> int
    decreases d.len() - i,
{
    if i < 0 || i >= d.len() || d[i] != '0' {
        i
    } else {
        zeros_end(d, i + 1)
    }
}

/// The number of characters of `d` up to `n`, but for the zeros at their end.
pub open spec fn zeros_start(d: Seq<char>, n: int) -> int
    decreases n,
{
    if n <= 0 || n > d.len() || d[n - 1] != '0' {
        n
    } else {
        zeros_start(d, n - 1)
    }
}

pub open spec fn zeros(n: int) -> Seq<char>
    decreases n,
{
    if n <= 0 {
        Seq::empty()
    } else {
        zeros(n - 1).push('0')
    }
}

/// The power of ten of a literal whose exponent starts at `e`; nothing where it has too many digits.
pub open spec fn scale_of(s: Seq<char>, e: int) -> Option<int> {
    if e >= s.len() {
        Some(0)
    } else {
        let signed = e + 1 < s.len() && (s[e + 1] == '+' || s[e + 1] == '-');
        let from = if signed {
            e + 2
        } else {
            e + 1
        };
        if from <= s.len() && s.len() - from <= 4 && all_digits(s.subrange(from, s.len() as int)) {
            let n = digits_value(s.subrange(from, s.len() as int)) as int;
            Some(
                if signed && s[e + 1] == '-' {
                    -n
                } else {
                    n
                },
            )
        } else {
            None
        }
    }
}

pub open spec fn all_digits(s: Seq<char>) -> bool {
    forall|i: int| 0 <= i < s.len() ==> '0' <= #[trigger] s[i] <= '9'
}

/// Digits with the point behind the first `pt` of them.
pub open spec fn laid_out(d: Seq<char>, pt: int) -> Seq<char> {
    if pt <= 0 {
        "0."@ + zeros(-pt) + d
    } else if pt >= d.len() {
        d + zeros(pt - d.len())
    } else {
        d.take(pt) + "."@ + d.skip(pt)
    }
}

/// The digits of a literal that count, and how many of them stand before the point; nothing where the
/// float may need others.
pub open spec fn significant(s: Seq<char>) -> Option<(Seq<char>, int)> {
    let e = exponent_at(s, 0);
    let all = digits_before(s, e);
    let lead = zeros_end(all, 0);
    let end = zeros_start(all, all.len() as int);
    match scale_of(s, e) {
        None => None,
        Some(scale) => {
            let pt = before_point(s, e, 0) + scale - lead;
            if lead >= all.len() {
                Some((Seq::empty(), 0))
            } else if lead < end && end - lead <= SURE_DIGITS && -FAR_POINT <= pt <= FAR_POINT {
                Some((all.subrange(lead, end), pt))
            } else {
                None
            }
        },
    }
}

/// A literal written out plainly: its digits without zeros that say nothing, and no exponent. A
/// literal with more digits than a float is sure to keep, or of a size near the limits of floats,
/// stays as it was written.
pub open spec fn plain_float(s: Seq<char>) -> Seq<char> {
    match significant(s) {
        None => s,
        Some((d, pt)) => if d.len() == 0 {
            "0"@
        } else {
            laid_out(d, pt)
        },
    }
}

/// Digits with the point behind the first of them.
pub open spec fn scaled(d: Seq<char>) -> Seq<char> {
    if d.len() == 1 {
        d
    } else {
        laid_out(d, 1)
    }
}

/// How a float literal is called in a message: with a point always, and with an exponent where it is
/// large or small.
pub open spec fn float_debug(s: Seq<char>) -> Seq<char> {
    match significant(s) {
        None => s,
        Some((d, pt)) => if d.len() == 0 {
            "0.0"@
        } else if -3 <= pt <= 16 {
            if pt >= d.len() {
                laid_out(d, pt) + ".0"@
            } else {
                laid_out(d, pt)
            }
        } else {
            scaled(d) + "e"@ + int_text(pt - 1)
        },
    }
}

fn find_exponent(v: &Vec<char>) -> (r: usize)
    ensures
        r == exponent_at(v@, 0),
        r <= v.len(),
{
    let mut i: usize = 0;
    while i < v.len() && v[i] != 'e' && v[i] != 'E'
        invariant
            i <= v.len(),
            exponent_at(v@, 0) == exponent_at(v@, i as int),
        decreases v.len() - i,
    {
        i = i + 1;
    }
    i
}

fn find_point(v: &Vec<char>, to: usize) -> (r: usize)
    requires
        to <= v.len(),
    ensures
        r == before_point(v@, to as int, 0),
        r <= to,
{
    let mut i: usize = 0;
    while i < to && v[i] != '.'
        invariant
            i <= to <= v.len(),
            before_point(v@, to as int, 0) == before_point(v@, to as int, i as int),
        decreases to - i,
    {
        i = i + 1;
    }
    i
}

fn collect_digits(v: &Vec<char>, to: usize) -> (r: Vec<char>)
    requires
        to <= v.len(),
    ensures
        r@ == digits_before(v@, to as int),
{
    let mut r: Vec<char> = Vec::new();
    let mut i: usize = 0;
    assert(r@ =~= digits_before(v@, 0));
    while i < to
        invariant
            i <= to <= v.len(),
            r@ == digits_before(v@, i as int),
        decreases to - i,
    {
        if v[i] != '.' {
            r.push(v[i]);
        }
        i = i + 1;
    }
    r
}

fn skip_zeros(d: &Vec<char>) -> (r: usize)
    ensures
        r == zeros_end(d@, 0),
        r <= d.len(),
{
    let mut i: usize = 0;
    while i < d.len() && d[i] == '0'
        invariant
            i <= d.len(),
            zeros_end(d@, 0) == zeros_end(d@, i as int),
        decreases d.len() - i,
    {
        i = i + 1;
    }
    i
}

fn cut_zeros(d: &Vec<char>) -> (r: usize)
    ensures
        r == zeros_start(d@, d@.len() as int),
        r <= d.len(),
{
    let mut n: usize = d.len();
    while n > 0 && d[n - 1] == '0'
        invariant
            n <= d.len(),
            zeros_start(d@, d@.len() as int) == zeros_start(d@, n as int),
        decreases n,
    {
        n = n - 1;
    }
    n
}

/// The number that at most four digits write out; nothing where others stand among them.
fn read_few(v: &Vec<char>, from: usize) -> (r: Option<i64>)
    requires
        from <= v.len(),
        v.len() - from <= 4,
    ensures
        match r {
            Some(n) => all_digits(v@.subrange(from as int, v@.len() as int)) && n == digits_value(
                v@.subrange(from as int, v@.len() as int),
            ) && 0 <= n <= 9999,
            None => !all_digits(v@.subrange(from as int, v@.len() as int)),
        },
{
    let ghost s = v@.subrange(from as int, v@.len() as int);
    let mut n: i64 = 0;
    let mut most: i64 = 1;
    let mut i: usize = from;
    assert(s.take(0) =~= Seq::empty());
    while i < v.len()
        invariant
            from <= i <= v.len(),
            v.len() - from <= 4,
            s == v@.subrange(from as int, v@.len() as int),
            forall|k: int| 0 <= k < i - from ==> '0' <= #[trigger] s[k] <= '9',
            n == digits_value(s.take(i - from)),
            0 <= n < most,
            i - from == 0 ==> most == 1,
            i - from == 1 ==> most == 10,
            i - from == 2 ==> most == 100,
            i - from == 3 ==> most == 1000,
            i - from == 4 ==> most == 10000,
        decreases v.len() - i,
    {
        let c = v[i];
        assert(s[i - from] == c);
        if c < '0' || c > '9' {
            return None;
        }
        proof {
            let t = s.take(i - from + 1);
            assert(t.drop_last() =~= s.take(i - from));
            assert(t.last() == c);
        }
        n = n * 10 + (c as i64 - '0' as i64);
        most = most * 10;
        i = i + 1;
    }
    assert(s.take(s.len() as int) =~= s);
    Some(n)
}

fn read_scale(v: &Vec<char>, e: usize) -> (r: Option<i64>)
    requires
        e <= v.len(),
    ensures
        match r {
            Some(n) => scale_of(v@, e as int) == Some(n as int) && -9999 <= n <= 9999,
            None => scale_of(v@, e as int) is None,
        },
{
    if e >= v.len() {
        return Some(0);
    }
    let signed = e + 1 < v.len() && (v[e + 1] == '+' || v[e + 1] == '-');
    let from: usize = if signed {
        e + 2
    } else {
        e + 1
    };
    if v.len() - from > 4 {
        return None;
    }
    match read_few(v, from) {
        None => None,
        Some(n) => if signed && v[e + 1] == '-' {
            Some(-n)
        } else {
            Some(n)
        },
    }
}

fn find_significant(s: &str) -> (r: Option<(Vec<char>, i64)>)
    ensures
        match r {
            Some(x) => significant(s@) == Some((x.0@, x.1 as int)) && x.0.len() <= SURE_DIGITS && -FAR_POINT <= x.1 <= FAR_POINT,
            None => significant(s@) is None,
        },
{
    let v = chars_of(s);
    let e = find_exponent(&v);
    let all = collect_digits(&v, e);
    let lead = skip_zeros(&all);
    let end = cut_zeros(&all);
    match read_scale(&v, e) {
        None => None,
        Some(scale) => {
            let pt: i128 = find_point(&v, e) as i128 + scale as i128 - lead as i128;
            if lead >= all.len() {
                let none: Vec<char> = Vec::new();
                assert(none@ =~= Seq::empty());
                Some((none, 0))
            } else if lead < end && end - lead <= SURE_DIGITS && -(FAR_POINT as i128) <= pt && pt <= FAR_POINT as i128 {
                let d = copy_part(&all, lead, end);
                Some((d, pt as i64))
            } else {
                None
            }
        },
    }
}

fn copy_part(v: &Vec<char>, from: usize, to: usize) -> (r: Vec<char>)
    requires
        from <= to <= v.len(),
    ensures
        r@ == v@.subrange(from as int, to as int),
{
    let mut r: Vec<char> = Vec::new();
    let mut i: usize = from;
    while i < to
        invariant
            from <= i <= to <= v.len(),
            r@ == v@.subrange(from as int, i as int),
        decreases to - i,
    {
        r.push(v[i]);
        i = i + 1;
    }
    r
}

fn write_zeros(n: i64) -> (r: String)
    ensures
        r@ == zeros(n as int),
{
    let mut r = String::new();
    let mut i: i64 = 0;
    assert(r@ =~= zeros(0));
    if n <= 0 {
        return r;
    }
    while i < n
        invariant
            0 <= i <= n,
            r@ == zeros(i as int),
        decreases n - i,
    {
        r.push('0');
        i = i + 1;
    }
    r
}

fn lay_out(d: &Vec<char>, pt: i64) -> (r: String)
    requires
        d.len() <= SURE_DIGITS,
        -FAR_POINT <= pt <= FAR_POINT,
    ensures
        r@ == laid_out(d@, pt as int),
{
    assert(d@.subrange(0, d@.len() as int) =~= d@);
    if pt <= 0 {
        join3("0.", write_zeros(-pt).as_str(), string_of(d, 0, d.len()).as_str())
    } else if pt >= d.len() as i64 {
        join2(string_of(d, 0, d.len()).as_str(), write_zeros(pt - d.len() as i64).as_str())
    } else {
        assert(d@.subrange(0, pt as int) =~= d@.take(pt as int));
        assert(d@.subrange(pt as int, d@.len() as int) =~= d@.skip(pt as int));
        join3(string_of(d, 0, pt as usize).as_str(), ".", string_of(d, pt as usize, d.len()).as_str())
    }
}

/// Writes a float literal out plainly.
pub fn write_float(s: &str) -> (r: String)
    ensures
        r@ == plain_float(s@),
{
    match find_significant(s) {
        None => s.to_string(),
        Some((d, pt)) => if d.len() == 0 {
            "0".to_string()
        } else {
            lay_out(&d, pt)
        },
    }
}

/// Writes a float literal as messages call it.
pub fn debug_float(s: &str) -> (r: String)
    ensures
        r@ == float_debug(s@),
{
    match find_significant(s) {
        None => s.to_string(),
        Some((d, pt)) => if d.len() == 0 {
            "0.0".to_string()
        } else if -3 <= pt && pt <= 16 {
            if pt >= d.len() as i64 {
                join2(lay_out(&d, pt).as_str(), ".0")
            } else {
                lay_out(&d, pt)
            }
        } else {
            let head = if d.len() == 1 {
                string_of(&d, 0, 1)
            } else {
                lay_out(&d, 1)
            };
            assert(d@.len() == 1 ==> d@.subrange(0, 1) =~= d@);
            join3(head.as_str(), "e", int_to_text(pt - 1).as_str())
        },
    }
}

} // verus!

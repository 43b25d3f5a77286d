use vstd::prelude::*;
use vstd::string::*;
use vstd::utf8::encode_utf8;
use crate::error::ErrorView;
use crate::value::{Value, ValueView, values_view};
use super::unit::{Ask, Reply, Unit, ask_look, is_unit, looked, model};
use super::context::{ContextView, QueryContext, ResourceUsageSnapshot, check_error, error_of, limit_error, over};

verus! {

/// Something that a query is charged for.
#[derive(Debug, Clone, Copy, PartialEq, Eq, Structural)]
pub enum Charge {
    /// Rows that are read one by one, with a check of the context at each that brings the count to a
    /// multiple of `CHECK_PERIOD`.
    Rows(u64),
    /// All rows of a table, read one by one and counted as they come where rows are limited, else
    /// checked at each `CHECK_PERIOD`th and counted in the end.
    PlainRows(u64),
    /// Rows that are read all at once.
    AllRows(u64),
    /// Bytes of memory that are taken at once.
    Memory(u64),
    /// A check of the context.
    Check,
}

/// How many rows are read between two checks.
pub const CHECK_PERIOD: u64 = 1024;

/// A sum that stays at the largest number where it would pass it.
pub open spec fn capped(n: int) -> u64 {
    if n > u64::MAX {
        u64::MAX
    } else {
        n as u64
    }
}

pub fn plus(a: u64, b: u64) -> (r: u64)
    ensures
        r == capped(a + b),
{
    if a > u64::MAX - b {
        u64::MAX
    } else {
        a + b
    }
}

/// The count after rows that are read one by one: the first row over the limit is still counted.
pub open spec fn counted(used: u64, n: u64, limit: Option<u64>) -> u64 {
    match limit {
        Some(max) => if n > 0 && capped(used + n) > max {
            if used >= max {
                capped(used + 1)
            } else {
                (max + 1) as u64
            }
        } else {
            capped(used + n)
        },
        None => capped(used + n),
    }
}

/// What a charge comes to: the context after it, and the refusal where there is one.
pub struct Spent {
    pub c: ContextView,
    pub err: Option<ErrorView>,
}

pub open spec fn with_rows_read(c: ContextView, n: u64) -> ContextView {
    ContextView { usage: ResourceUsageSnapshot { scan_rows: n, ..c.usage }, ..c }
}

pub open spec fn with_memory_taken(c: ContextView, n: u64) -> ContextView {
    ContextView { usage: ResourceUsageSnapshot { memory_bytes: n, ..c.usage }, ..c }
}

/// Rows that are counted as they come, and the refusal of the first one over the limit.
pub open spec fn spend_rows(c: ContextView, n: u64) -> Spent {
    let used = counted(c.usage.scan_rows, n, c.limits.max_scan_rows);
    Spent {
        c: with_rows_read(c, used),
        err: if n == 0 {
            None
        } else {
            limit_error("max_scan_rows"@, used, c.limits.max_scan_rows)
        },
    }
}

/// The count at which the context is checked next.
pub open spec fn next_check(used: u64) -> int {
    used + CHECK_PERIOD - used % CHECK_PERIOD
}

/// What a check finds that comes in the charge of number `i` after `n` rows. Where there is no clock
/// to look at, the time stands still.
pub open spec fn check_at(c: ContextView, m: Option<Unit>, now: u64, i: u64, n: u64) -> Option<ErrorView> {
    let (t, gone) = match m {
        Some(m) => looked(m, now, i, n),
        None => (now, false),
    };
    check_error(ContextView { cancelled: c.cancelled || gone, ..c }, t)
}

/// The count from `at` on, step by step up to `to`, at which a check fails.
pub open spec fn stop_at(c: ContextView, m: Option<Unit>, now: u64, i: u64, at: int, to: int) -> Option<int>
    decreases to - at + CHECK_PERIOD,
{
    if at > to || over(at, c.limits.max_scan_rows) {
        None
    } else if check_at(c, m, now, i, at as u64) is Some {
        Some(at)
    } else {
        stop_at(c, m, now, i, at + CHECK_PERIOD, to)
    }
}

/// Rows with checks between them: where a check fails, no further row is read.
pub open spec fn spend_checked(c: ContextView, n: u64, m: Option<Unit>, now: u64, i: u64) -> Spent {
    let used = c.usage.scan_rows;
    match stop_at(c, m, now, i, next_check(used), counted(used, n, c.limits.max_scan_rows) as int) {
        Some(at) => Spent { c: with_rows_read(c, at as u64), err: check_at(c, m, now, i, at as u64) },
        None => spend_rows(c, n),
    }
}

/// All rows of a table: where a check fails, the row that was due is not counted.
pub open spec fn spend_plain(c: ContextView, n: u64, m: Option<Unit>, now: u64, i: u64) -> Spent {
    if c.limits.max_scan_rows is None {
        match stop_at(c, m, now, i, CHECK_PERIOD as int, n as int) {
            Some(at) => Spent {
                c: with_rows_read(c, capped(c.usage.scan_rows + at - 1)),
                err: check_at(c, m, now, i, at as u64),
            },
            None => spend_rows(c, n),
        }
    } else {
        spend_rows(c, n)
    }
}

/// The charge of number `i`, where the time was `now` at the start. What is refused stays counted.
pub open spec fn spend(c: ContextView, x: Charge, m: Option<Unit>, now: u64, i: u64) -> Spent {
    match x {
        Charge::Rows(n) => spend_checked(c, n, m, now, i),
        Charge::PlainRows(n) => spend_plain(c, n, m, now, i),
        Charge::AllRows(n) => {
            let used = capped(c.usage.scan_rows + n);
            Spent { c: with_rows_read(c, used), err: limit_error("max_scan_rows"@, used, c.limits.max_scan_rows) }
        },
        Charge::Memory(n) => {
            let used = capped(c.usage.memory_bytes + n);
            Spent { c: with_memory_taken(c, used), err: limit_error("max_memory_bytes"@, used, c.limits.max_memory_bytes) }
        },
        Charge::Check => Spent { c, err: check_at(c, m, now, i, c.usage.scan_rows) },
    }
}

/// Charges one after the other, up to the first that is refused.
pub open spec fn spend_all(c: ContextView, x: Seq<Charge>, m: Option<Unit>, now: u64) -> Spent
    decreases x.len(),
{
    if x.len() == 0 {
        Spent { c, err: None }
    } else {
        let before = spend_all(c, x.drop_last(), m, now);
        if before.err is Some {
            before
        } else {
            spend(before.c, x.last(), m, now, (x.len() - 1) as u64)
        }
    }
}

fn read_rows(ctx: &mut QueryContext, n: u64) -> (r: crate::error::Result<()>)
    ensures
        final(ctx)@ == with_rows_read(old(ctx)@, capped(old(ctx)@.usage.scan_rows + n)),
        error_of(r) == limit_error("max_scan_rows"@, final(ctx)@.usage.scan_rows, old(ctx)@.limits.max_scan_rows),
{
    let room = u64::MAX - ctx.usage().scan_rows;
    ctx.account_scan_rows(if n < room { n } else { room })
}

fn take_memory(ctx: &mut QueryContext, n: u64) -> (r: crate::error::Result<()>)
    ensures
        final(ctx)@ == with_memory_taken(old(ctx)@, capped(old(ctx)@.usage.memory_bytes + n)),
        error_of(r) == limit_error("max_memory_bytes"@, final(ctx)@.usage.memory_bytes, old(ctx)@.limits.max_memory_bytes),
{
    let room = u64::MAX - ctx.usage().memory_bytes;
    ctx.account_memory(if n < room { n } else { room })
}

fn count_rows(used: u64, n: u64, limit: Option<u64>) -> (r: u64)
    ensures
        r == counted(used, n, limit),
        r >= used,
{
    match limit {
        Some(max) => if n > 0 && plus(used, n) > max {
            if used >= max {
                plus(used, 1)
            } else {
                max + 1
            }
        } else {
            plus(used, n)
        },
        None => plus(used, n),
    }
}

fn pay_rows(ctx: &mut QueryContext, n: u64) -> (r: crate::error::Result<()>)
    ensures
        spend_rows(old(ctx)@, n) == (Spent { c: final(ctx)@, err: error_of(r) }),
{
    if n == 0 {
        return Ok(());
    }
    let used = ctx.usage().scan_rows;
    let to = count_rows(used, n, ctx.limits().max_scan_rows);
    read_rows(ctx, to - used)
}

pub open spec fn opt_model<U: Fn(Ask) -> Reply>(u: Option<&U>) -> Option<Unit> {
    match u {
        Some(u) => Some(model(u)),
        None => None,
    }
}

/// Checks a context while a query runs.
pub fn check_running<U: Fn(Ask) -> Reply>(ctx: &QueryContext, u: Option<&U>, now: u64, i: u64, n: u64) -> (r: crate::error::Result<()>)
    requires
        u matches Some(u) ==> is_unit(u),
    ensures
        error_of(r) == check_at(ctx@, opt_model(u), now, i, n),
{
    let (t, gone) = match u {
        Some(u) => ask_look(u, now, i, n),
        None => (now, false),
    };
    if gone {
        Err(crate::error::QueryError::Cancelled)
    } else {
        ctx.check(t)
    }
}

/// Finds the first count at which a check fails, and how.
fn find_stop<U: Fn(Ask) -> Reply>(ctx: &QueryContext, u: Option<&U>, now: u64, i: u64, first: u64, to: u64) -> (r: Option<(u64, crate::error::QueryError)>)
    requires
        u matches Some(u) ==> is_unit(u),
    ensures
        match r {
            Some((at, e)) => stop_at(ctx@, opt_model(u), now, i, first as int, to as int) == Some(at as int) && check_at(
                ctx@,
                opt_model(u),
                now,
                i,
                at,
            ) == Some(e@) && first <= at <= to,
            None => stop_at(ctx@, opt_model(u), now, i, first as int, to as int) is None,
        },
{
    let limit = ctx.limits().max_scan_rows;
    let mut at: u64 = first;
    let mut more = true;
    while more
        invariant
            u matches Some(u) ==> is_unit(u),
            limit == ctx@.limits.max_scan_rows,
            first <= at,
            more ==> stop_at(ctx@, opt_model(u), now, i, first as int, to as int) == stop_at(
                ctx@,
                opt_model(u),
                now,
                i,
                at as int,
                to as int,
            ),
            !more ==> stop_at(ctx@, opt_model(u), now, i, first as int, to as int) is None,
        decreases (if more { 1int } else { 0int }), u64::MAX - at,
    {
        let past = match limit {
            Some(max) => at > max,
            None => false,
        };
        if at > to || past {
            more = false;
        } else {
            match check_running(ctx, u, now, i, at) {
                Err(e) => {
                    return Some((at, e));
                },
                Ok(_) => {
                    if to - at < CHECK_PERIOD {
                        assert(stop_at(ctx@, opt_model(u), now, i, at + CHECK_PERIOD, to as int) is None);
                        more = false;
                    } else {
                        at = at + CHECK_PERIOD;
                    }
                },
            }
        }
    }
    None
}

/// Puts one charge onto a context.
pub fn pay<U: Fn(Ask) -> Reply>(ctx: &mut QueryContext, x: Charge, u: Option<&U>, now: u64, i: u64) -> (r: crate::error::Result<()>)
    requires
        u matches Some(u) ==> is_unit(u),
    ensures
        spend(old(ctx)@, x, opt_model(u), now, i) == (Spent { c: final(ctx)@, err: error_of(r) }),
{
    match x {
        Charge::Rows(n) => {
            let used = ctx.usage().scan_rows;
            let to = count_rows(used, n, ctx.limits().max_scan_rows);
            let step: u64 = CHECK_PERIOD - used % CHECK_PERIOD;
            if step <= to - used {
                if let Some((at, e)) = find_stop(ctx, u, now, i, used + step, to) {
                    let _ = read_rows(ctx, at - used);
                    return Err(e);
                }
            }
            pay_rows(ctx, n)
        },
        Charge::PlainRows(n) => {
            if ctx.limits().max_scan_rows.is_none() {
                if let Some((at, e)) = find_stop(ctx, u, now, i, CHECK_PERIOD, n) {
                    let _ = read_rows(ctx, at - 1);
                    return Err(e);
                }
            }
            pay_rows(ctx, n)
        },
        Charge::AllRows(n) => read_rows(ctx, n),
        Charge::Memory(n) => take_memory(ctx, n),
        Charge::Check => {
            let n = ctx.usage().scan_rows;
            check_running(ctx, u, now, i, n)
        },
    }
}

/// Puts charges onto a context, up to the first that it refuses.
pub fn pay_all<U: Fn(Ask) -> Reply>(ctx: &mut QueryContext, x: &Vec<Charge>, u: Option<&U>, now: u64) -> (r: crate::error::Result<()>)
    requires
        u matches Some(u) ==> is_unit(u),
    ensures
        spend_all(old(ctx)@, x@, opt_model(u), now) == (Spent { c: final(ctx)@, err: error_of(r) }),
{
    let ghost start = ctx@;
    let ghost m = opt_model(u);
    let mut i: usize = 0;
    assert(x@.take(0).len() == 0);
    while i < x.len()
        invariant
            i <= x.len(),
            u matches Some(u) ==> is_unit(u),
            m == opt_model(u),
            start == old(ctx)@,
            spend_all(start, x@.take(i as int), m, now) == (Spent { c: ctx@, err: None }),
        decreases x.len() - i,
    {
        proof {
            assert(x@.take(i + 1).drop_last() =~= x@.take(i as int));
            assert(x@.take(i + 1).last() == x@[i as int]);
        }
        match pay(ctx, x[i], u, now, i as u64) {
            Ok(_) => {},
            Err(e) => {
                proof {
                    lemma_refusal_stays(start, x@, i + 1, m, now);
                }
                return Err(e);
            },
        }
        i = i + 1;
    }
    assert(x@.take(x.len() as int) =~= x@);
    Ok(())
}

proof fn lemma_refusal_stays(c: ContextView, x: Seq<Charge>, i: int, m: Option<Unit>, now: u64)
    requires
        0 <= i <= x.len(),
        spend_all(c, x.take(i), m, now).err is Some,
    ensures
        spend_all(c, x, m, now) == spend_all(c, x.take(i), m, now),
    decreases x.len() - i,
{
    if i < x.len() {
        assert(x.take(i + 1).drop_last() =~= x.take(i));
        lemma_refusal_stays(c, x, i + 1, m, now);
    } else {
        assert(x.take(i) =~= x);
    }
}

/// Charges leave alone what a check looks at, and the limits.
pub proof fn lemma_same_check(c: ContextView, x: Seq<Charge>, m: Option<Unit>, now: u64)
    ensures
        spend_all(c, x, m, now).c.deadline == c.deadline,
        spend_all(c, x, m, now).c.timeout == c.timeout,
        spend_all(c, x, m, now).c.cancelled == c.cancelled,
        spend_all(c, x, m, now).c.limits == c.limits,
    decreases x.len(),
{
    if x.len() > 0 {
        lemma_same_check(c, x.drop_last(), m, now);
    }
}

/// Nothing is charged behind a refusal: more charges leave the outcome as it is.
pub proof fn law_refusal_is_final(c: ContextView, x: Seq<Charge>, more: Seq<Charge>, m: Option<Unit>, now: u64)
    requires
        spend_all(c, x, m, now).err is Some,
    ensures
        spend_all(c, x + more, m, now) == spend_all(c, x, m, now),
{
    assert((x + more).take(x.len() as int) =~= x);
    lemma_refusal_stays(c, x + more, x.len() as int, m, now);
}

/// Whether no check finds anything.
pub open spec fn unhindered(c: ContextView, m: Option<Unit>, now: u64) -> bool {
    forall|i: u64, n: u64| #[trigger] check_at(c, m, now, i, n) is None
}

proof fn lemma_no_stop(c: ContextView, d: ContextView, m: Option<Unit>, now: u64, i: u64, at: int, to: int)
    requires
        unhindered(c, m, now),
        d.cancelled == c.cancelled,
        d.deadline == c.deadline,
        d.timeout == c.timeout,
    ensures
        stop_at(d, m, now, i, at, to) is None,
    decreases to - at + CHECK_PERIOD,
{
    if at <= to {
        assert(check_at(c, m, now, i, at as u64) is None);
        assert(check_at(d, m, now, i, at as u64) is None);
        lemma_no_stop(c, d, m, now, i, at + CHECK_PERIOD, to);
    }
}

/// Without limits nothing is refused, as long as no check finds anything.
pub proof fn law_unlimited_is_never_refused(c: ContextView, x: Seq<Charge>, m: Option<Unit>, now: u64)
    requires
        c.limits.max_scan_rows is None,
        c.limits.max_memory_bytes is None,
        unhindered(c, m, now),
    ensures
        spend_all(c, x, m, now).err is None,
    decreases x.len(),
{
    if x.len() > 0 {
        law_unlimited_is_never_refused(c, x.drop_last(), m, now);
        lemma_same_check(c, x.drop_last(), m, now);
        let d = spend_all(c, x.drop_last(), m, now).c;
        let i = (x.len() - 1) as u64;
        match x.last() {
            Charge::Rows(n) => {
                lemma_no_stop(c, d, m, now, i, next_check(d.usage.scan_rows), counted(d.usage.scan_rows, n, None) as int);
            },
            Charge::PlainRows(n) => {
                lemma_no_stop(c, d, m, now, i, CHECK_PERIOD as int, n as int);
            },
            Charge::Check => {
                assert(check_at(c, m, now, i, d.usage.scan_rows) is None);
            },
            _ => {},
        }
    }
}

/// Rows that are read one by one are counted up to the first one over the limit and no further, as
/// long as no check finds anything.
pub proof fn law_count_stops_behind_limit(c: ContextView, n: u64, max: u64, m: Option<Unit>, now: u64, i: u64)
    requires
        c.limits.max_scan_rows == Some(max),
        c.usage.scan_rows <= max,
        over(capped(c.usage.scan_rows + n) as int, Some(max)),
        unhindered(c, m, now),
    ensures
        spend(c, Charge::Rows(n), m, now, i).c.usage.scan_rows == max + 1,
        spend(c, Charge::Rows(n), m, now, i).err is Some,
{
    let used = c.usage.scan_rows;
    lemma_no_stop(c, c, m, now, i, next_check(used), counted(used, n, Some(max)) as int);
}

/// Once the next check would fail, no more rows are read than up to it.
pub proof fn law_failed_check_stops_reading(c: ContextView, n: u64, m: Option<Unit>, now: u64, i: u64)
    requires
        next_check(c.usage.scan_rows) <= u64::MAX,
        check_at(c, m, now, i, next_check(c.usage.scan_rows) as u64) is Some,
    ensures
        spend(c, Charge::Rows(n), m, now, i).c.usage.scan_rows <= next_check(c.usage.scan_rows),
        spend(c, Charge::Rows(n), m, now, i).c.usage.scan_rows >= c.usage.scan_rows,
{
}

// ---- the size of keys

/// The bytes that a value takes in a key: one for its kind, and those of the value.
pub open spec fn key_width(v: ValueView) -> u64 {
    match v {
        ValueView::Null => 1,
        ValueView::Bool(_) => 2,
        ValueView::Date(_) => 5,
        ValueView::Int64(_) | ValueView::Float64(_) | ValueView::Timestamp(_) | ValueView::Interval(_) => 9,
        ValueView::Uuid(_) => 17,
        ValueView::Decimal(_, _) => 18,
        ValueView::Text(s) | ValueView::Json(s) => capped(encode_utf8(s).len() as int + 1),
        ValueView::Bytes(b) => capped(b.len() as int + 1),
    }
}

pub fn measure_key(v: &Value) -> (r: u64)
    ensures
        r == key_width(v@),
{
    match v {
        Value::Null => 1,
        Value::Bool(_) => 2,
        Value::Date(_) => 5,
        Value::Int64(_) | Value::Float64(_) | Value::Timestamp(_) | Value::Interval(_) => 9,
        Value::Uuid(_) => 17,
        Value::Decimal(_, _) => 18,
        Value::Text(s) | Value::Json(s) => plus(s.as_str().as_bytes_vec().len() as u64, 1),
        Value::Bytes(b) => plus(b.len() as u64, 1),
    }
}

/// The bytes that the key of a group takes: each part with its length in front.
pub open spec fn group_key_width(k: Seq<ValueView>) -> u64
    decreases k.len(),
{
    if k.len() == 0 {
        0
    } else {
        capped(group_key_width(k.drop_last()) + 4 + key_width(k.last()))
    }
}

pub fn measure_group_key(k: &Vec<Value>) -> (r: u64)
    ensures
        r == group_key_width(values_view(k@)),
{
    let ghost all = values_view(k@);
    let mut r: u64 = 0;
    let mut i: usize = 0;
    assert(all.take(0).len() == 0);
    while i < k.len()
        invariant
            i <= k.len(),
            all == values_view(k@),
            r == group_key_width(all.take(i as int)),
        decreases k.len() - i,
    {
        proof {
            assert(all.take(i + 1).drop_last() =~= all.take(i as int));
            assert(all.take(i + 1).last() == k@[i as int]@);
        }
        r = plus(plus(r, 4), measure_key(&k[i]));
        i = i + 1;
    }
    assert(all.take(k.len() as int) =~= all);
    r
}

} // verus!

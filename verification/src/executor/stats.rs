use vstd::prelude::*;
use vstd::string::*;
use crate::text::text_is;
use crate::value::{Order, Value, ValueView, dup_values, names_view, rows_push, rows_view, values_view};
use super::relation::{Relation, RelationView};
use super::scalar::order_texts;
use super::show::name_order;

verus! {

/// What is known of a column: how many of its values are null (a float, by its bits), how many differ,
/// the most common ones and how common they are (floats again), and the bounds of its histogram.
#[derive(Debug)]
pub struct ColumnStats {
    pub column: String,
    pub null_fraction: u64,
    pub ndv: u64,
    pub mcv: Vec<(Value, u64)>,
    pub bucket_bounds: Vec<Value>,
}

/// What contracts say about a `ColumnStats`.
pub struct ColumnStatsView {
    pub column: Seq<char>,
    pub null_fraction: u64,
    pub ndv: u64,
    pub mcv: Seq<(ValueView, u64)>,
    pub bucket_bounds: Seq<ValueView>,
}

impl ColumnStats {
    pub open spec fn view(&self) -> ColumnStatsView {
        ColumnStatsView {
            column: self.column@,
            null_fraction: self.null_fraction,
            ndv: self.ndv,
            mcv: Seq::new(self.mcv@.len(), |i: int| (self.mcv@[i].0@, self.mcv@[i].1)),
            bucket_bounds: values_view(self.bucket_bounds@),
        }
    }

    pub fn dup(&self) -> (r: ColumnStats)
        ensures
            r@ == self@,
    {
        let mut mcv: Vec<(Value, u64)> = Vec::new();
        let mut i: usize = 0;
        while i < self.mcv.len()
            invariant
                i <= self.mcv.len(),
                mcv@.len() == i,
                forall|k: int| 0 <= k < i ==> (#[trigger] mcv@[k]).0@ == self.mcv@[k].0@ && mcv@[k].1 == self.mcv@[k].1,
            decreases self.mcv.len() - i,
        {
            mcv.push((self.mcv[i].0.dup(), self.mcv[i].1));
            i = i + 1;
        }
        let r = ColumnStats {
            column: self.column.clone(),
            null_fraction: self.null_fraction,
            ndv: self.ndv,
            mcv,
            bucket_bounds: dup_values(&self.bucket_bounds),
        };
        assert(r@.mcv =~= self@.mcv);
        r
    }
}

/// What is known of a table, as it was at a time.
#[derive(Debug)]
pub struct TableStats {
    pub table: String,
    pub row_count: u64,
    pub columns: Vec<ColumnStats>,
    pub computed_at_secs: u64,
}

/// What contracts say about a `TableStats`.
pub struct TableStatsView {
    pub table: Seq<char>,
    pub row_count: u64,
    pub columns: Seq<ColumnStatsView>,
    pub computed_at_secs: u64,
}

impl TableStats {
    pub open spec fn view(&self) -> TableStatsView {
        TableStatsView {
            table: self.table@,
            row_count: self.row_count,
            columns: column_stats_view(self.columns@),
            computed_at_secs: self.computed_at_secs,
        }
    }

    pub fn dup(&self) -> (r: TableStats)
        ensures
            r@ == self@,
    {
        let mut columns: Vec<ColumnStats> = Vec::new();
        let mut i: usize = 0;
        while i < self.columns.len()
            invariant
                i <= self.columns.len(),
                columns@.len() == i,
                forall|k: int| 0 <= k < i ==> (#[trigger] columns@[k])@ == self.columns@[k]@,
            decreases self.columns.len() - i,
        {
            columns.push(self.columns[i].dup());
            i = i + 1;
        }
        assert(column_stats_view(columns@) =~= column_stats_view(self.columns@));
        TableStats {
            table: self.table.clone(),
            row_count: self.row_count,
            columns,
            computed_at_secs: self.computed_at_secs,
        }
    }
}

pub open spec fn column_stats_view(s: Seq<ColumnStats>) -> Seq<ColumnStatsView> {
    Seq::new(s.len(), |i: int| s[i]@)
}

pub fn dup_stats(s: &Vec<TableStats>) -> (r: Vec<TableStats>)
    ensures
        stats_view(r@) == stats_view(s@),
{
    let mut r: Vec<TableStats> = Vec::new();
    let mut i: usize = 0;
    while i < s.len()
        invariant
            i <= s.len(),
            r@.len() == i,
            forall|k: int| 0 <= k < i ==> (#[trigger] r@[k])@ == s@[k]@,
        decreases s.len() - i,
    {
        r.push(s[i].dup());
        i = i + 1;
    }
    assert(stats_view(r@) =~= stats_view(s@));
    r
}

pub open spec fn stats_view(s: Seq<TableStats>) -> Seq<TableStatsView> {
    Seq::new(s.len(), |i: int| s[i]@)
}

/// How many buckets a histogram with so many bounds has.
pub open spec fn buckets(bounds: nat) -> nat {
    if bounds == 0 {
        0
    } else {
        (bounds - 1) as nat
    }
}

/// The line of SHOW STATS for a column.
pub open spec fn stats_row(t: TableStatsView, c: ColumnStatsView) -> Seq<ValueView> {
    seq![
        ValueView::Text(t.table),
        ValueView::Int64(t.row_count as i64),
        ValueView::Text(c.column),
        ValueView::Float64(c.null_fraction),
        ValueView::Int64(c.ndv as i64),
        ValueView::Int64(c.mcv.len() as i64),
        ValueView::Int64(buckets(c.bucket_bounds.len()) as i64),
        ValueView::Int64(t.computed_at_secs as i64),
    ]
}

/// The lines of SHOW STATS: a line for each column of each table, or of the one that is asked for.
pub open spec fn stats_rows(s: Seq<TableStatsView>, t: Option<Seq<char>>) -> Seq<Seq<ValueView>>
    decreases s.len(),
{
    if s.len() == 0 {
        Seq::empty()
    } else {
        let before = stats_rows(s.drop_last(), t);
        let x = s.last();
        if t matches Some(n) && n != x.table {
            before
        } else {
            before + Seq::new(x.columns.len(), |i: int| stats_row(x, x.columns[i]))
        }
    }
}

pub open spec fn stats_columns() -> Seq<Seq<char>> {
    seq![
        "table"@,
        "row_count"@,
        "column"@,
        "null_fraction"@,
        "ndv"@,
        "mcv_count"@,
        "histogram_buckets"@,
        "computed_at_secs"@,
    ]
}

/// SHOW STATS.
pub open spec fn shown_stats(s: Seq<TableStatsView>, t: Option<Seq<char>>) -> RelationView {
    RelationView { columns: stats_columns(), rows: stats_rows(s, t) }
}

fn make_columns() -> (r: Vec<String>)
    ensures
        names_view(r@) == stats_columns(),
{
    let mut r: Vec<String> = Vec::new();
    r.push("table".to_string());
    r.push("row_count".to_string());
    r.push("column".to_string());
    r.push("null_fraction".to_string());
    r.push("ndv".to_string());
    r.push("mcv_count".to_string());
    r.push("histogram_buckets".to_string());
    r.push("computed_at_secs".to_string());
    assert(names_view(r@) =~= stats_columns());
    r
}

fn make_row(t: &TableStats, c: &ColumnStats) -> (r: Vec<Value>)
    ensures
        values_view(r@) == stats_row(t@, c@),
{
    let b: usize = if c.bucket_bounds.len() == 0 {
        0
    } else {
        c.bucket_bounds.len() - 1
    };
    let mut r: Vec<Value> = Vec::new();
    r.push(Value::Text(t.table.clone()));
    r.push(Value::Int64(t.row_count as i64));
    r.push(Value::Text(c.column.clone()));
    r.push(Value::Float64(c.null_fraction));
    r.push(Value::Int64(c.ndv as i64));
    r.push(Value::Int64(c.mcv.len() as i64));
    r.push(Value::Int64(b as i64));
    r.push(Value::Int64(t.computed_at_secs as i64));
    assert(values_view(r@) =~= stats_row(t@, c@));
    r
}

/// Makes the lines of SHOW STATS.
pub fn show_stats(s: &Vec<TableStats>, t: &Option<String>) -> (r: Relation)
    ensures
        r@ == shown_stats(stats_view(s@), match *t { Some(n) => Some(n@), None => None }),
{
    let ghost all = stats_view(s@);
    let ghost tv = match t { Some(n) => Some(n@), None => None };
    let mut rows: Vec<Vec<Value>> = Vec::new();
    let mut i: usize = 0;
    proof {
        assert(all.take(0).len() == 0);
        assert(rows_view(rows@) =~= Seq::empty());
    }
    while i < s.len()
        invariant
            i <= s.len(),
            all == stats_view(s@),
            tv == (match *t { Some(n) => Some(n@), None => None::<Seq<char>> }),
            rows_view(rows@) == stats_rows(all.take(i as int), tv),
        decreases s.len() - i,
    {
        let ghost x = s@[i as int]@;
        proof {
            assert(all.take(i + 1).drop_last() =~= all.take(i as int));
            assert(all.take(i + 1).last() == x);
        }
        let asked = match t {
            Some(n) => text_is(n.as_str(), s[i].table.as_str()),
            None => true,
        };
        if asked {
            let ghost before = rows_view(rows@);
            let ghost more = Seq::new(x.columns.len(), |k: int| stats_row(x, x.columns[k]));
            let mut j: usize = 0;
            assert(before + more.take(0) =~= before);
            while j < s[i].columns.len()
                invariant
                    i < s@.len(),
                    j <= s@[i as int].columns@.len(),
                    x == s@[i as int]@,
                    x.columns.len() == s@[i as int].columns@.len(),
                    more == Seq::new(x.columns.len(), |k: int| stats_row(x, x.columns[k])),
                    rows_view(rows@) == before + more.take(j as int),
                decreases s@[i as int].columns@.len() - j,
            {
                let row = make_row(&s[i], &s[i].columns[j]);
                proof {
                    rows_push(rows@, row);
                    assert(x.columns[j as int] == s@[i as int].columns@[j as int]@);
                    assert(more[j as int] == values_view(row@));
                    assert(before + more.take(j + 1) =~= (before + more.take(j as int)).push(values_view(row@)));
                }
                rows.push(row);
                j = j + 1;
            }
            assert(more.take(j as int) =~= more);
        }
        i = i + 1;
    }
    assert(all.take(s.len() as int) =~= all);
    Relation { columns: make_columns(), rows }
}

// ---- keeping statistics

/// Statistics in the order of their tables, with those of one table brought up to date.
pub open spec fn with_stats(s: Seq<TableStatsView>, x: TableStatsView) -> Seq<TableStatsView>
    decreases s.len(),
{
    if s.len() == 0 {
        seq![x]
    } else if s.last().table == x.table {
        s.drop_last().push(x)
    } else if name_order(s.last().table, x.table) == Order::Greater {
        with_stats(s.drop_last(), x).push(s.last())
    } else {
        s.push(x)
    }
}

/// Statistics without those of a table.
pub open spec fn without_stats(s: Seq<TableStatsView>, t: Seq<char>) -> Seq<TableStatsView>
    decreases s.len(),
{
    if s.len() == 0 {
        s
    } else if s.last().table == t {
        without_stats(s.drop_last(), t)
    } else {
        without_stats(s.drop_last(), t).push(s.last())
    }
}

pub fn put_stats(s: &mut Vec<TableStats>, x: TableStats)
    ensures
        stats_view(final(s)@) == with_stats(stats_view(old(s)@), x@),
{
    let ghost all = stats_view(s@);
    let mut i: usize = s.len();
    proof {
        assert(all.take(i as int) =~= all);
        assert(all.skip(i as int) =~= Seq::empty());
        assert(with_stats(all, x@) + all.skip(i as int) =~= with_stats(all, x@));
    }
    while i > 0
        invariant
            i <= s.len(),
            *s == *old(s),
            all == stats_view(s@),
            with_stats(all, x@) == with_stats(all.take(i as int), x@) + all.skip(i as int),
        decreases i,
    {
        proof {
            assert(all.take(i as int).drop_last() =~= all.take(i - 1));
            assert(all.take(i as int).last() == all[i - 1]);
        }
        if text_is(s[i - 1].table.as_str(), x.table.as_str()) {
            proof {
                assert(all.take(i - 1).push(x@) + all.skip(i as int) =~= all.update(i - 1, x@));
            }
            s.set(i - 1, x);
            assert(stats_view(s@) =~= all.update(i - 1, x@));
            return;
        }
        match order_texts(s[i - 1].table.as_str(), x.table.as_str()) {
            Order::Greater => {
                proof {
                    let w = with_stats(all.take(i - 1), x@);
                    assert(w.push(all[i - 1]) + all.skip(i as int) =~= w + all.skip(i - 1));
                }
                i = i - 1;
            },
            _ => {
                proof {
                    assert(all.take(i as int).push(x@) + all.skip(i as int) =~= all.insert(i as int, x@));
                }
                s.insert(i, x);
                assert(stats_view(s@) =~= all.insert(i as int, x@));
                return;
            },
        }
    }
    proof {
        assert(all.take(0) =~= Seq::empty());
        assert(seq![x@] + all.skip(0) =~= all.insert(0, x@));
    }
    s.insert(0, x);
    assert(stats_view(s@) =~= all.insert(0, x@));
}

pub fn drop_stats(s: &mut Vec<TableStats>, t: &str)
    ensures
        stats_view(final(s)@) == without_stats(stats_view(old(s)@), t@),
{
    let ghost all = stats_view(s@);
    let mut i: usize = s.len();
    proof {
        assert(all.take(i as int) =~= all);
        assert(without_stats(all, t@) =~= without_stats(all.take(i as int), t@) + Seq::empty());
        assert(stats_view(s@).skip(i as int) =~= Seq::empty());
    }
    while i > 0
        invariant
            i <= s.len(),
            stats_view(s@).take(i as int) == all.take(i as int),
            i <= all.len(),
            without_stats(all, t@) == without_stats(all.take(i as int), t@) + stats_view(s@).skip(i as int),
        decreases i,
    {
        let ghost now = stats_view(s@);
        proof {
            assert(all.take(i as int).drop_last() =~= all.take(i - 1));
            assert(all.take(i as int).last() == all[i - 1]);
            assert(now.take(i as int)[i - 1] == s@[i - 1]@);
            assert(all.take(i as int)[i - 1] == all[i - 1]);
            assert(now.take(i as int).take(i - 1) =~= now.take(i - 1));
            assert(all.take(i as int).take(i - 1) =~= all.take(i - 1));
        }
        i = i - 1;
        if text_is(s[i].table.as_str(), t) {
            s.remove(i);
            proof {
                assert(stats_view(s@) =~= now.remove(i as int));
                assert(stats_view(s@).skip(i as int) =~= now.skip(i + 1));
                assert(stats_view(s@).take(i as int) =~= now.take(i as int));
            }
        } else {
            proof {
                let w = without_stats(all.take(i as int), t@);
                assert(w.push(now[i as int]) + now.skip(i + 1) =~= w + now.skip(i as int));
            }
        }
    }
    proof {
        assert(all.take(0) =~= Seq::empty());
        assert(stats_view(s@).skip(0) =~= stats_view(s@));
    }
}

/// Whether each table comes before the next.
pub open spec fn stats_in_order(s: Seq<TableStatsView>) -> bool {
    forall|i: int, j: int| 0 <= i && j == i + 1 && j < s.len() ==> name_order(#[trigger] s[i].table, #[trigger] s[j].table) == Order::Less
}

/// Bringing statistics up to date keeps them in the order of their tables, each table once; so
/// SHOW STATS lists them in that order.
pub proof fn law_stats_stay_in_order(s: Seq<TableStatsView>, x: TableStatsView)
    requires
        stats_in_order(s),
    ensures
        stats_in_order(with_stats(s, x)),
        with_stats(s, x).len() > 0,
        s.len() > 0 ==> with_stats(s, x).last().table == (if name_order(s.last().table, x.table) == Order::Greater {
            s.last().table
        } else {
            x.table
        }),
    decreases s.len(),
{
    let w = with_stats(s, x);
    if s.len() > 0 {
        let d = s.drop_last();
        assert(stats_in_order(d)) by {
            assert forall|i: int, j: int| 0 <= i && j == i + 1 && j < d.len() implies name_order(
                #[trigger] d[i].table,
                #[trigger] d[j].table,
            ) == Order::Less by {
                assert(d[i] == s[i] && d[j] == s[j]);
            }
        }
        super::keys::lemma_seq_equal(
            super::scalar::codes(s.last().table),
            super::scalar::codes(x.table),
            0,
        );
        super::keys::lemma_seq_flip(super::scalar::codes(s.last().table), super::scalar::codes(x.table), 0);
        lemma_same_codes(s.last().table, x.table);
        if s.last().table == x.table {
            assert forall|i: int, j: int| 0 <= i && j == i + 1 && j < w.len() implies name_order(
                #[trigger] w[i].table,
                #[trigger] w[j].table,
            ) == Order::Less by {
                assert(w[i].table == s[i].table && w[j].table == s[j].table);
            }
        } else if name_order(s.last().table, x.table) == Order::Greater {
            law_stats_stay_in_order(d, x);
            let v = with_stats(d, x);
            assert forall|i: int, j: int| 0 <= i && j == i + 1 && j < w.len() implies name_order(
                #[trigger] w[i].table,
                #[trigger] w[j].table,
            ) == Order::Less by {
                if j < v.len() {
                    assert(w[i] == v[i] && w[j] == v[j]);
                } else {
                    assert(w[i] == v.last());
                    if d.len() > 0 {
                        assert(d.last() == s[s.len() - 2]);
                        assert(name_order(s[s.len() - 2].table, s[s.len() - 1].table) == Order::Less);
                    } else {
                        assert(v =~= seq![x]);
                    }
                }
            }
        } else {
            assert forall|i: int, j: int| 0 <= i && j == i + 1 && j < w.len() implies name_order(
                #[trigger] w[i].table,
                #[trigger] w[j].table,
            ) == Order::Less by {
                if j < s.len() {
                    assert(w[i] == s[i] && w[j] == s[j]);
                }
            }
        }
    }
}

pub proof fn lemma_without_stats(s: Seq<TableStatsView>, t: Seq<char>)
    requires
        stats_in_order(s),
    ensures
        stats_in_order(without_stats(s, t)),
        without_stats(s, t).len() > 0 ==> s.len() > 0 && (without_stats(s, t).last().table == s.last().table || name_order(
            without_stats(s, t).last().table,
            s.last().table,
        ) == Order::Less),
    decreases s.len(),
{
    if s.len() > 0 {
        let d = s.drop_last();
        assert forall|i: int, j: int| 0 <= i && j == i + 1 && j < d.len() implies name_order(
            #[trigger] d[i].table,
            #[trigger] d[j].table,
        ) == Order::Less by {
            assert(d[i] == s[i] && d[j] == s[j]);
        }
        lemma_without_stats(d, t);
        let v = without_stats(d, t);
        let w = without_stats(s, t);
        if v.len() > 0 {
            assert(name_order(s[s.len() - 2].table, s[s.len() - 1].table) == Order::Less);
            assert(d.last() == s[s.len() - 2]);
            if v.last().table != d.last().table {
                super::keys::lemma_seq_less(
                    super::scalar::codes(v.last().table),
                    super::scalar::codes(d.last().table),
                    super::scalar::codes(s.last().table),
                    0,
                );
            }
        }
        assert forall|i: int, j: int| 0 <= i && j == i + 1 && j < w.len() implies name_order(
            #[trigger] w[i].table,
            #[trigger] w[j].table,
        ) == Order::Less by {
            if j < v.len() {
                assert(w[i] == v[i] && w[j] == v[j]);
            } else {
                assert(w[i] == v.last());
            }
        }
    }
}

proof fn lemma_same_codes(a: Seq<char>, b: Seq<char>)
    ensures
        (super::scalar::codes(a) == super::scalar::codes(b)) == (a == b),
{
    if super::scalar::codes(a) == super::scalar::codes(b) {
        assert(a.len() == super::scalar::codes(a).len());
        assert(b.len() == super::scalar::codes(b).len());
        assert forall|i: int| 0 <= i < a.len() implies a[i] == b[i] by {
            assert(super::scalar::codes(a)[i] == super::scalar::codes(b)[i]);
            super::keys::lemma_code(a[i], b[i]);
        }
        assert(a =~= b);
    }
}

} // verus!

use vstd::prelude::*;
use crate::parser::ast::{CteView, FromClause, FromClauseView, SelectStmt, SelectStmtView, Statement};
use crate::parser::ast::{ctes_at, ctes_len, ctes_view};
use crate::planner::logical_plan::{build_logical_plan, select_plan};
use crate::planner::optimizer::{IndexInfoView, TableIndexes, TableRows, catalog_view, counts_view, optimize_with_catalog, optimized};
use crate::value::{dup_names, names_push, names_view};
use super::charges::Charge;
use super::constraints::Run;
use super::dml::{no_scopes, outside};
use super::eval::Reader;
use super::marks::{Mark, MarkView, join_marks, marks_view, no_marks};
use super::meter::{Around, Nearby, join_charges, meter, metered};
use super::scope::{Source, SourceView, dup_sources, push_source, sources_view};
use super::select::{base_table, env_at, has_star, lemma_ctes_stop, list_has_star, run_below, with_ctes, with_from};
use super::store::{Store, StoreView};
use super::unit::{Ask, Reply};

verus! {

/// What queries are read in: the stored tables, what is known of them, whether they run in a
/// transaction, and whether the tables hold changes that not every transaction sees.
pub struct Setting {
    pub s: StoreView,
    pub counts: Seq<(Seq<char>, u64)>,
    pub catalog: Seq<(Seq<char>, Seq<IndexInfoView>)>,
    pub in_txn: bool,
    pub mixed: bool,
}

/// What a query is charged, what a transaction that runs it reads, whether it asks what the
/// transaction sees, and whether it comes to an end.
pub struct Owed {
    pub charges: Seq<Charge>,
    pub marks: Seq<MarkView>,
    pub snap: bool,
    pub ok: bool,
}

pub open spec fn nothing_owed() -> Owed {
    Owed { charges: Seq::empty(), marks: Seq::empty(), snap: false, ok: true }
}

/// What a query owes that does not get to read.
pub open spec fn stuck() -> Owed {
    Owed { ok: false, ..nothing_owed() }
}

/// What comes after charges, where they leave something to come.
pub open spec fn owed_both(a: Owed, b: Owed) -> Owed {
    if a.ok {
        Owed { charges: a.charges + b.charges, marks: a.marks + b.marks, snap: a.snap || b.snap, ok: b.ok }
    } else {
        a
    }
}

pub open spec fn cte_names(ctes: Seq<CteView>) -> Seq<Seq<char>> {
    Seq::new(ctes.len(), |i: int| ctes[i].name)
}

/// The names of the tables that a query makes for itself, behind those that were made for it.
pub open spec fn made_names(made: Seq<Seq<char>>, q: SelectStmtView) -> Seq<Seq<char>> {
    let m = made + cte_names(q.ctes);
    match q.from {
        FromClauseView::Subquery(_) => m.push(base_table(q)->0),
        _ => m,
    }
}

/// What the plan of a query is charged once its tables are there.
pub open spec fn plan_owes(run: Run, x: Setting, db: Seq<SourceView>, made: Seq<Seq<char>>, q: SelectStmtView) -> Owed {
    match select_plan(q) {
        Err(_) => Owed { ok: !has_star(q.columns), ..nothing_owed() },
        Ok(p) => {
            let m = metered(
                env_at(run.m, run.known, db, run.depth),
                q,
                Around { s: x.s, made, in_txn: x.in_txn, mixed: x.mixed },
                optimized(p, x.counts, x.catalog),
            );
            Owed { charges: m.charges, marks: m.marks, snap: m.snap, ok: m.rel is Some }
        },
    }
}

/// What the first `n` tables of a WITH clause are charged, each a query of its own.
pub open spec fn ctes_owe(run: Run, x: Setting, db: Seq<SourceView>, made: Seq<Seq<char>>, ctes: Seq<CteView>, n: nat) -> Owed
    decreases run.depth, 0int, n,
{
    if n == 0 || n > ctes.len() {
        nothing_owed()
    } else {
        let c = ctes[n - 1];
        let before = ctes_owe(run, x, db, made, ctes, (n - 1) as nat);
        match with_ctes(env_at(run.m, run.known, db, run.depth), no_scopes(), ctes.take(n - 1)) {
            Err(_) => Owed { ok: false, ..before },
            Ok(d) => owed_both(
                before,
                if run.depth == 0 {
                    stuck()
                } else {
                    query_owes(
                        Run { depth: (run.depth - 1) as nat, ..run },
                        x,
                        d,
                        made + cte_names(ctes.take(n - 1)),
                        c.query,
                    )
                },
            ),
        }
    }
}

/// What a query is charged: for the tables of its WITH clause, for a query that it reads from, and
/// then for its own plan, which reads the tables that those made like stored ones.
pub open spec fn query_owes(run: Run, x: Setting, db: Seq<SourceView>, made: Seq<Seq<char>>, q: SelectStmtView) -> Owed
    decreases run.depth, 1int, 0nat,
{
    let env = env_at(run.m, run.known, db, run.depth);
    let c = ctes_owe(run, x, db, made, q.ctes, q.ctes.len());
    match with_ctes(env, no_scopes(), q.ctes) {
        Err(_) => Owed { ok: false, ..c },
        Ok(d) => {
            let f = match q.from {
                FromClauseView::Subquery(inner) => if run.depth == 0 {
                    stuck()
                } else {
                    query_owes(Run { depth: (run.depth - 1) as nat, ..run }, x, d, made + cte_names(q.ctes), *inner)
                },
                _ => nothing_owed(),
            };
            match with_from(env, no_scopes(), q) {
                Err(_) => Owed { ok: false, ..owed_both(c, f) },
                Ok(all) => owed_both(owed_both(c, f), plan_owes(run, x, all, made_names(made, q), q)),
            }
        },
    }
}

/// What queries are read in.
pub struct Spot<'a> {
    pub s: &'a Store,
    pub counts: &'a Vec<TableRows>,
    pub catalog: &'a Vec<TableIndexes>,
    pub in_txn: bool,
    pub mixed: bool,
}

impl<'a> Spot<'a> {
    pub open spec fn view(&self) -> Setting {
        Setting {
            s: self.s@,
            counts: counts_view(self.counts@),
            catalog: catalog_view(self.catalog@),
            in_txn: self.in_txn,
            mixed: self.mixed,
        }
    }
}

/// What a query is charged, what it reads, and whether it comes to an end.
pub struct Bill {
    pub charges: Vec<Charge>,
    pub marks: Vec<Mark>,
    pub snap: bool,
    pub ok: bool,
}

impl Bill {
    pub open spec fn view(&self) -> Owed {
        Owed { charges: self.charges@, marks: marks_view(self.marks@), snap: self.snap, ok: self.ok }
    }
}

pub fn no_bill(ok: bool) -> (r: Bill)
    ensures
        r@ == (Owed { ok, ..nothing_owed() }),
{
    let charges: Vec<Charge> = Vec::new();
    let r = Bill { charges, marks: no_marks(), snap: false, ok };
    assert(r@.charges =~= Seq::empty());
    r
}

pub fn bill_both(a: Bill, b: Bill) -> (r: Bill)
    ensures
        r@ == owed_both(a@, b@),
{
    if a.ok {
        Bill {
            charges: join_charges(a.charges, &b.charges),
            marks: join_marks(a.marks, &b.marks),
            snap: a.snap || b.snap,
            ok: b.ok,
        }
    } else {
        a
    }
}

fn bill_plan<'a, U: Fn(Ask) -> Reply>(cx: &Reader<'a, U>, x: &Spot, made: &Vec<String>, q: &SelectStmt) -> (r: Bill)
    requires
        cx.ready(),
        x.s.wf(),
    ensures
        r@ == plan_owes(
            cx.run(),
            x@,
            sources_view(cx.db@),
            names_view(made@),
            q@,
        ),
{
    proof {
        (*q).unfold();
    }
    let s = Statement::Select(q.dup());
    proof {
        s.unfold();
    }
    match build_logical_plan(&s) {
        Err(_) => no_bill(!list_has_star(&q.columns)),
        Ok(p) => match optimize_with_catalog(&p, x.counts, x.catalog) {
            Err(_) => no_bill(false),
            Ok(p) => {
                let a = Nearby { s: x.s, made, in_txn: x.in_txn, mixed: x.mixed };
                let m = meter(cx, q, &a, &p);
                Bill { charges: m.charges, marks: m.marks, snap: m.snap, ok: m.rel.is_some() }
            },
        },
    }
}

/// A query one level further down.
fn bill_below<'a, U: Fn(Ask) -> Reply>(cx: &Reader<'a, U>, x: &Spot, db: &Vec<Source>, made: &Vec<String>, q: &SelectStmt) -> (r: Bill)
    requires
        cx.ready(),
        x.s.wf(),
    ensures
        r@ == (if cx.depth == 0 {
            stuck()
        } else {
            query_owes(
                Run { depth: (cx.depth - 1) as nat, ..cx.run() },
                x@,
                sources_view(db@),
                names_view(made@),
                q@,
            )
        }),
    decreases cx.depth, 0int,
{
    if cx.depth == 0 {
        return no_bill(false);
    }
    let below = Reader { u: cx.u, now: cx.now, counts: cx.counts, db, depth: cx.depth - 1 };
    bill_query(&below, x, made, q)
}

/// Finds out what a query is charged.
pub fn bill_query<'a, U: Fn(Ask) -> Reply>(cx: &Reader<'a, U>, x: &Spot, made: &Vec<String>, q: &SelectStmt) -> (r: Bill)
    requires
        cx.ready(),
        x.s.wf(),
    ensures
        r@ == query_owes(
            cx.run(),
            x@,
            sources_view(cx.db@),
            names_view(made@),
            q@,
        ),
    decreases cx.depth, 1int,
{
    let ghost run = cx.run();
    let ghost first = sources_view(cx.db@);
    let ghost env = cx.env();
    let ghost all = ctes_view(q.ctes@);
    let ghost given = names_view(made@);
    let o = outside();
    let mut db = dup_sources(cx.db);
    let mut names = dup_names(made);
    let mut bill = no_bill(true);
    let mut i: usize = 0;
    proof {
        broadcast use ctes_len;

        (*q).unfold();
        q.from.unfold();
        assert(all.take(0).len() == 0);
        assert(given + cte_names(all.take(0)) =~= given);
    }
    while i < q.ctes.len()
        invariant
            i <= q.ctes.len(),
            cx.ready(),
            x.s.wf(),
            run == cx.run(),
            first == sources_view(cx.db@),
            env == cx.env(),
            env == env_at(run.m, run.known, first, run.depth),
            super::scope::scopes_view(o@) == no_scopes(),
            all == ctes_view(q.ctes@),
            all.len() == q.ctes@.len(),
            q@.ctes == all,
            given == names_view(made@),
            names_view(names@) == given + cte_names(all.take(i as int)),
            with_ctes(env, no_scopes(), all.take(i as int)) == Ok::<Seq<SourceView>, crate::error::ErrorView>(sources_view(db@)),
            bill@ == ctes_owe(run, x@, first, given, all, i as nat),
        decreases q.ctes.len() - i,
    {
        proof {
            broadcast use ctes_at;

            assert(all[i as int] == q.ctes@[i as int]@);
            q.ctes@[i as int].unfold();
            assert(all.take(i + 1).drop_last() =~= all.take(i as int));
            assert(all.take(i + 1).last() == all[i as int]);
        }
        let b = bill_below(cx, x, &db, &names, &q.ctes[i].query);
        bill = bill_both(bill, b);
        assert(bill@ == ctes_owe(run, x@, first, given, all, (i + 1) as nat));
        match run_below(cx, &db, &o, &q.ctes[i].query) {
            Err(_) => {
                proof {
                    lemma_ctes_stop(env, no_scopes(), all, i + 1);
                    lemma_ctes_owe_stop(run, x@, first, given, all, (i + 1) as nat);
                }
                return Bill { charges: bill.charges, marks: bill.marks, snap: bill.snap, ok: false };
            },
            Ok(rel) => {
                let name = q.ctes[i].name.clone();
                proof {
                    names_push(names@, name);
                    assert(given + cte_names(all.take(i + 1)) =~= (given + cte_names(all.take(i as int))).push(name@));
                }
                names.push(name);
                push_source(&mut db, Source { name: q.ctes[i].name.clone(), rel });
            },
        }
        i = i + 1;
    }
    assert(all.take(q.ctes.len() as int) =~= all);
    match &q.from {
        FromClause::Subquery(inner) => {
            let name = match &q.from_alias {
                Some(a) => a.clone(),
                None => "__subquery__".to_string(),
            };
            let b = bill_below(cx, x, &db, &names, inner);
            bill = bill_both(bill, b);
            match run_below(cx, &db, &o, inner) {
                Err(_) => {
                    return Bill { charges: bill.charges, marks: bill.marks, snap: bill.snap, ok: false };
                },
                Ok(rel) => {
                    proof {
                        names_push(names@, name);
                    }
                    names.push(name.clone());
                    push_source(&mut db, Source { name, rel });
                },
            }
        },
        _ => {
            bill = bill_both(bill, no_bill(true));
        },
    }
    let inner = Reader { u: cx.u, now: cx.now, counts: cx.counts, db: &db, depth: cx.depth };
    let p = bill_plan(&inner, x, &names, q);
    bill_both(bill, p)
}

/// A WITH clause that fails is charged no further.
proof fn lemma_ctes_owe_stop(run: Run, x: Setting, db: Seq<SourceView>, made: Seq<Seq<char>>, ctes: Seq<CteView>, n: nat)
    requires
        n <= ctes.len(),
        with_ctes(env_at(run.m, run.known, db, run.depth), no_scopes(), ctes.take(n as int)) is Err,
    ensures
        (Owed { ok: false, ..ctes_owe(run, x, db, made, ctes, ctes.len()) }) == (Owed { ok: false, ..ctes_owe(run, x, db, made, ctes, n) }),
    decreases ctes.len() - n,
{
    if n < ctes.len() {
        assert(ctes.take(n as int + 1).drop_last() =~= ctes.take(n as int));
        lemma_ctes_owe_stop(run, x, db, made, ctes, n + 1);
    }
}

} // verus!

use vstd::prelude::*;
use vstd::string::*;
use crate::parser::ast::IsolationLevel;
use super::rollback::{alike, lemma_alike_undo, lemma_alike_undo_all, lemma_index_range};
use super::scope::{dup_sources, sources_view};
use super::store::{Store, StoreView, store_undo, store_undo_all, table_names};
use super::table::{Change, ChangeView, changes_push, changes_view, dup_tables, tables_view};

verus! {

/// A change that was made while transactions were under way: by which of them, and the number of
/// the commit that made it lasting, if there was one.
#[derive(Debug)]
pub struct Past {
    pub change: Change,
    pub by: Option<u64>,
    pub commit: Option<u64>,
}

/// What contracts say about a `Past`.
pub struct PastView {
    pub change: ChangeView,
    pub by: Option<u64>,
    pub commit: Option<u64>,
}

impl Past {
    pub open spec fn view(&self) -> PastView {
        PastView { change: self.change@, by: self.by, commit: self.commit }
    }
}

pub open spec fn pasts_view(s: Seq<Past>) -> Seq<PastView> {
    Seq::new(s.len(), |i: int| s[i]@)
}

pub open spec fn changes_of(h: Seq<PastView>) -> Seq<ChangeView> {
    Seq::new(h.len(), |i: int| h[i].change)
}

/// A transaction as a reader: its number, how it sees others, and the last commit before it began.
#[derive(Debug, Clone, Copy)]
pub struct Eye {
    pub id: u64,
    pub level: IsolationLevel,
    pub snap: u64,
}

/// Whether a transaction sees a change: its own, and those of commits; a level above READ COMMITTED
/// hides the commits that came after the transaction began.
pub open spec fn sees(eye: Eye, p: PastView) -> bool {
    p.by == Some(eye.id) || match p.commit {
        None => false,
        Some(c) => eye.level == IsolationLevel::ReadCommitted || c <= eye.snap,
    }
}

fn does_see(eye: &Eye, p: &Past) -> (r: bool)
    ensures
        r == sees(*eye, p@),
{
    let own = match p.by {
        Some(id) => id == eye.id,
        None => false,
    };
    own || match p.commit {
        None => false,
        Some(c) => matches!(eye.level, IsolationLevel::ReadCommitted) || c <= eye.snap,
    }
}

/// A store in which a change has been made.
pub open spec fn store_redo(s: StoreView, c: ChangeView) -> StoreView {
    store_undo(s, ChangeView { before: c.after, ..c })
}

/// A store in which changes have been made one after the other.
pub open spec fn store_redo_all(s: StoreView, c: Seq<ChangeView>) -> StoreView
    decreases c.len(),
{
    if c.len() == 0 {
        s
    } else {
        store_redo(store_redo_all(s, c.drop_last()), c.last())
    }
}

/// A store in which those changes have been made that a transaction sees.
pub open spec fn redone(s: StoreView, h: Seq<PastView>, eye: Eye) -> StoreView
    decreases h.len(),
{
    if h.len() == 0 {
        s
    } else {
        let r = redone(s, h.drop_last(), eye);
        if sees(eye, h.last()) {
            store_redo(r, h.last().change)
        } else {
            r
        }
    }
}

/// What a transaction sees of a store: all changes are taken back, and those that it sees are made
/// again.
pub open spec fn seen(s: StoreView, h: Seq<PastView>, eye: Eye) -> StoreView {
    redone(store_undo_all(s, changes_of(h)), h, eye)
}

impl Store {
    /// A copy of the whole store.
    pub fn dup(&self) -> (r: Store)
        requires
            self.wf(),
        ensures
            r.wf(),
            r@ == self@,
    {
        let r = Store {
            tables: dup_tables(&self.tables),
            sources: dup_sources(&self.sources),
            log: super::table::dup_changes(&self.log),
        };
        proof {
            assert(tables_view(r.tables@).len() == r.tables@.len());
            assert(tables_view(self.tables@).len() == self.tables@.len());
            assert(sources_view(r.sources@).len() == r.sources@.len());
            assert(sources_view(self.sources@).len() == self.sources@.len());
            assert forall|i: int| 0 <= i < self.tables@.len() implies r@.rows[i] == self@.rows[i] by {
                assert(sources_view(r.sources@)[i] == r.sources@[i]@);
                assert(sources_view(self.sources@)[i] == self.sources@[i]@);
            }
            assert(r@.rows =~= self@.rows);
        }
        r
    }
}

fn list_changes(h: &Vec<Past>) -> (r: Vec<Change>)
    ensures
        changes_view(r@) == changes_of(pasts_view(h@)),
{
    let ghost all = changes_of(pasts_view(h@));
    let mut r: Vec<Change> = Vec::new();
    let mut i: usize = 0;
    assert(changes_view(r@) =~= all.take(0));
    while i < h.len()
        invariant
            i <= h.len(),
            all == changes_of(pasts_view(h@)),
            changes_view(r@) == all.take(i as int),
        decreases h.len() - i,
    {
        let c = h[i].change.dup();
        proof {
            changes_push(r@, c);
            assert(all.take(i + 1) =~= all.take(i as int).push(c@));
        }
        r.push(c);
        i = i + 1;
    }
    assert(all.take(h.len() as int) =~= all);
    r
}

proof fn lemma_undo_keeps_tables(s: StoreView, c: Seq<ChangeView>)
    ensures
        store_undo_all(s, c).tables.len() == s.tables.len(),
    decreases c.len(),
{
    if c.len() > 0 {
        lemma_index_range(table_names(s.tables), c.last().table);
        lemma_undo_keeps_tables(store_undo(s, c.last()), c.drop_last());
    }
}

/// Makes what a transaction sees of a store.
pub fn show_store(s: &Store, h: &Vec<Past>, eye: &Eye) -> (r: Store)
    requires
        s.wf(),
    ensures
        r.wf(),
        r@ == seen(s@, pasts_view(h@), *eye),
        r.tables@.len() == s.tables@.len(),
{
    let mut r = s.dup();
    let c = list_changes(h);
    r.undo_all(&c);
    let ghost base = r@;
    proof {
        lemma_undo_keeps_tables(s@, changes_view(c@));
        assert(tables_view(s.tables@).len() == s.tables@.len());
        assert(tables_view(r.tables@).len() == r.tables@.len());
    }
    let ghost all = pasts_view(h@);
    let mut i: usize = 0;
    assert(all.take(0).len() == 0);
    while i < h.len()
        invariant
            i <= h.len(),
            r.wf(),
            all == pasts_view(h@),
            r@ == redone(base, all.take(i as int), *eye),
            r@.tables.len() == base.tables.len(),
        decreases h.len() - i,
    {
        proof {
            assert(all.take(i + 1).drop_last() =~= all.take(i as int));
            assert(all.take(i + 1).last() == h@[i as int]@);
        }
        if does_see(eye, &h[i]) {
            let c = &h[i].change;
            let again = Change {
                table: c.table.clone(),
                key: crate::value::dup_values(&c.key),
                before: match &c.after {
                    Some(x) => Some(crate::value::dup_values(x)),
                    None => None,
                },
                after: match &c.after {
                    Some(x) => Some(crate::value::dup_values(x)),
                    None => None,
                },
            };
            assert(again@ == (ChangeView { before: c@.after, ..c@ }));
            proof {
                lemma_index_range(table_names(r@.tables), again@.table);
            }
            r.undo(&again);
        }
        i = i + 1;
    }
    assert(tables_view(r.tables@).len() == r.tables@.len());
    assert(all.take(h.len() as int) =~= all);
    r
}

/// Changes as a transaction made them, or, outside any, as a commit made them.
pub open spec fn made_by(log: Seq<ChangeView>, by: Option<u64>, commit: Option<u64>) -> Seq<PastView> {
    Seq::new(log.len(), |i: int| PastView { change: log[i], by, commit })
}

pub fn add_pasts(h: &mut Vec<Past>, log: &Vec<Change>, by: Option<u64>, commit: Option<u64>)
    ensures
        pasts_view(final(h)@) == pasts_view(old(h)@) + made_by(changes_view(log@), by, commit),
{
    let ghost start = pasts_view(h@);
    let ghost all = made_by(changes_view(log@), by, commit);
    let mut i: usize = 0;
    assert(start + all.take(0) =~= start);
    while i < log.len()
        invariant
            i <= log.len(),
            all == made_by(changes_view(log@), by, commit),
            pasts_view(h@) == start + all.take(i as int),
        decreases log.len() - i,
    {
        let p = Past { change: log[i].dup(), by, commit };
        let ghost before = h@;
        h.push(p);
        proof {
            assert(pasts_view(h@) =~= pasts_view(before).push(p@));
            assert(start + all.take(i + 1) =~= (start + all.take(i as int)).push(p@));
        }
        i = i + 1;
    }
    assert(all.take(log.len() as int) =~= all);
}

/// The history after a transaction was committed.
pub open spec fn with_commit(h: Seq<PastView>, id: u64, c: u64) -> Seq<PastView> {
    Seq::new(
        h.len(),
        |i: int|
            if h[i].by == Some(id) && h[i].commit is None {
                PastView { commit: Some(c), ..h[i] }
            } else {
                h[i]
            },
    )
}

pub fn mark_commit(h: Vec<Past>, id: u64, c: u64) -> (r: Vec<Past>)
    ensures
        pasts_view(r@) == with_commit(pasts_view(h@), id, c),
{
    let ghost all = with_commit(pasts_view(h@), id, c);
    let mut r: Vec<Past> = Vec::new();
    let mut i: usize = 0;
    assert(pasts_view(r@) =~= all.take(0));
    while i < h.len()
        invariant
            i <= h.len(),
            all == with_commit(pasts_view(h@), id, c),
            pasts_view(r@) == all.take(i as int),
        decreases h.len() - i,
    {
        let own = match h[i].by {
            Some(x) => x == id && h[i].commit.is_none(),
            None => false,
        };
        let p = Past {
            change: h[i].change.dup(),
            by: h[i].by,
            commit: if own {
                Some(c)
            } else {
                h[i].commit
            },
        };
        let ghost before = r@;
        r.push(p);
        proof {
            assert(pasts_view(h@)[i as int] == h@[i as int]@);
            assert(pasts_view(r@) =~= pasts_view(before).push(p@));
            assert(all.take(i + 1) =~= all.take(i as int).push(p@));
        }
        i = i + 1;
    }
    assert(all.take(h.len() as int) =~= all);
    r
}

/// The history without what a transaction did.
pub open spec fn without_past(h: Seq<PastView>, id: u64) -> Seq<PastView>
    decreases h.len(),
{
    if h.len() == 0 {
        Seq::empty()
    } else if h.last().by == Some(id) && h.last().commit is None {
        without_past(h.drop_last(), id)
    } else {
        without_past(h.drop_last(), id).push(h.last())
    }
}

pub fn drop_past(h: Vec<Past>, id: u64) -> (r: Vec<Past>)
    ensures
        pasts_view(r@) == without_past(pasts_view(h@), id),
{
    let ghost all = pasts_view(h@);
    let mut r: Vec<Past> = Vec::new();
    let mut i: usize = 0;
    proof {
        assert(all.take(0).len() == 0);
        assert(pasts_view(r@) =~= Seq::empty());
    }
    while i < h.len()
        invariant
            i <= h.len(),
            all == pasts_view(h@),
            pasts_view(r@) == without_past(all.take(i as int), id),
        decreases h.len() - i,
    {
        proof {
            assert(all.take(i + 1).drop_last() =~= all.take(i as int));
            assert(all.take(i + 1).last() == h@[i as int]@);
        }
        let own = match h[i].by {
            Some(x) => x == id && h[i].commit.is_none(),
            None => false,
        };
        if !own {
            let p = Past { change: h[i].change.dup(), by: h[i].by, commit: h[i].commit };
            let ghost before = r@;
            r.push(p);
            assert(pasts_view(r@) =~= pasts_view(before).push(p@));
        }
        i = i + 1;
    }
    assert(all.take(h.len() as int) =~= all);
    r
}

// ---- what transactions see

proof fn lemma_alike_redone(a: StoreView, b: StoreView, h: Seq<PastView>, eye: Eye)
    requires
        alike(a, b),
    ensures
        alike(redone(a, h, eye), redone(b, h, eye)),
    decreases h.len(),
{
    if h.len() > 0 {
        lemma_alike_redone(a, b, h.drop_last(), eye);
        if sees(eye, h.last()) {
            let c = h.last().change;
            lemma_alike_undo(redone(a, h.drop_last(), eye), redone(b, h.drop_last(), eye), ChangeView { before: c.after, ..c });
        }
    }
}

pub proof fn lemma_alike_redo_all(a: StoreView, b: StoreView, c: Seq<ChangeView>)
    requires
        alike(a, b),
    ensures
        alike(store_redo_all(a, c), store_redo_all(b, c)),
    decreases c.len(),
{
    if c.len() > 0 {
        lemma_alike_redo_all(a, b, c.drop_last());
        lemma_alike_undo(
            store_redo_all(a, c.drop_last()),
            store_redo_all(b, c.drop_last()),
            ChangeView { before: c.last().after, ..c.last() },
        );
    }
}

pub proof fn lemma_redo_in_parts(s: StoreView, x: Seq<ChangeView>, y: Seq<ChangeView>)
    ensures
        store_redo_all(s, x + y) == store_redo_all(store_redo_all(s, x), y),
    decreases y.len(),
{
    if y.len() == 0 {
        assert(x + y =~= x);
    } else {
        assert((x + y).drop_last() =~= x + y.drop_last());
        assert((x + y).last() == y.last());
        lemma_redo_in_parts(s, x, y.drop_last());
    }
}

proof fn lemma_all_seen(s: StoreView, h: Seq<PastView>, log: Seq<ChangeView>, eye: Eye)
    ensures
        redone(s, h + made_by(log, Some(eye.id), None), eye) == store_redo_all(redone(s, h, eye), log),
    decreases log.len(),
{
    let more = made_by(log, Some(eye.id), None);
    if log.len() == 0 {
        assert(h + more =~= h);
    } else {
        lemma_all_seen(s, h, log.drop_last(), eye);
        assert((h + more).drop_last() =~= h + made_by(log.drop_last(), Some(eye.id), None));
        assert((h + more).last() == more.last());
    }
}

/// A transaction sees its own changes: they are made on top of what it saw before.
pub proof fn law_own_changes_are_seen(before: StoreView, after: StoreView, h: Seq<PastView>, log: Seq<ChangeView>, eye: Eye)
    requires
        alike(store_undo_all(after, log), before),
    ensures
        alike(seen(after, h + made_by(log, Some(eye.id), None), eye), store_redo_all(seen(before, h, eye), log)),
{
    let more = made_by(log, Some(eye.id), None);
    assert(changes_of(h + more) =~= changes_of(h) + log);
    super::rollback::lemma_undo_in_parts(after, changes_of(h), log);
    lemma_alike_undo_all(store_undo_all(after, log), before, changes_of(h));
    let a = store_undo_all(after, changes_of(h) + log);
    let b = store_undo_all(before, changes_of(h));
    lemma_all_seen(a, h, log, eye);
    lemma_alike_redone(a, b, h, eye);
    lemma_alike_redo_all(redone(a, h, eye), redone(b, h, eye), log);
}

proof fn lemma_unseen(s: StoreView, h: Seq<PastView>, more: Seq<PastView>, eye: Eye)
    requires
        forall|i: int| 0 <= i < more.len() ==> !sees(eye, #[trigger] more[i]),
    ensures
        redone(s, h + more, eye) == redone(s, h, eye),
    decreases more.len(),
{
    if more.len() == 0 {
        assert(h + more =~= h);
    } else {
        let d = more.drop_last();
        assert forall|i: int| 0 <= i < d.len() implies !sees(eye, #[trigger] d[i]) by {
            assert(d[i] == more[i]);
        }
        lemma_unseen(s, h, d, eye);
        assert((h + more).drop_last() =~= h + d);
        assert((h + more).last() == more[more.len() - 1]);
    }
}

/// Changes that a transaction does not see leave what it sees as it was: where taking them back
/// gives a store like the one before, the transaction sees the same tables and rows.
pub proof fn law_unseen_changes(before: StoreView, after: StoreView, h: Seq<PastView>, log: Seq<ChangeView>, by: Option<u64>, commit: Option<u64>, eye: Eye)
    requires
        alike(store_undo_all(after, log), before),
        by != Some(eye.id),
        commit matches Some(c) ==> eye.level != IsolationLevel::ReadCommitted && c > eye.snap,
    ensures
        alike(seen(after, h + made_by(log, by, commit), eye), seen(before, h, eye)),
{
    let more = made_by(log, by, commit);
    assert(changes_of(h + more) =~= changes_of(h) + log);
    super::rollback::lemma_undo_in_parts(after, changes_of(h), log);
    lemma_alike_undo_all(store_undo_all(after, log), before, changes_of(h));
    let a = store_undo_all(after, changes_of(h) + log);
    let b = store_undo_all(before, changes_of(h));
    lemma_unseen(a, h, more, eye);
    lemma_alike_redone(a, b, h, eye);
}

proof fn lemma_seen(s: StoreView, h: Seq<PastView>, log: Seq<ChangeView>, by: Option<u64>, c: u64, eye: Eye)
    requires
        eye.level == IsolationLevel::ReadCommitted || c <= eye.snap,
    ensures
        redone(s, h + made_by(log, by, Some(c)), eye) == store_redo_all(redone(s, h, eye), log),
    decreases log.len(),
{
    let more = made_by(log, by, Some(c));
    if log.len() == 0 {
        assert(h + more =~= h);
    } else {
        lemma_seen(s, h, log.drop_last(), by, c, eye);
        assert((h + more).drop_last() =~= h + made_by(log.drop_last(), by, Some(c)));
        assert((h + more).last() == more.last());
    }
}

/// A transaction sees what was committed before it began, and at READ COMMITTED all that was
/// committed: the changes are made on top of what it saw without them.
pub proof fn law_commits_are_seen(before: StoreView, after: StoreView, h: Seq<PastView>, log: Seq<ChangeView>, by: Option<u64>, c: u64, eye: Eye)
    requires
        alike(store_undo_all(after, log), before),
        eye.level == IsolationLevel::ReadCommitted || c <= eye.snap,
    ensures
        alike(seen(after, h + made_by(log, by, Some(c)), eye), store_redo_all(seen(before, h, eye), log)),
{
    let more = made_by(log, by, Some(c));
    assert(changes_of(h + more) =~= changes_of(h) + log);
    super::rollback::lemma_undo_in_parts(after, changes_of(h), log);
    lemma_alike_undo_all(store_undo_all(after, log), before, changes_of(h));
    let a = store_undo_all(after, changes_of(h) + log);
    let b = store_undo_all(before, changes_of(h));
    lemma_seen(a, h, log, by, c, eye);
    lemma_alike_redone(a, b, h, eye);
    lemma_alike_redo_all(redone(a, h, eye), redone(b, h, eye), log);
}

/// A commit makes the changes of its transaction lasting, and no others.
pub proof fn law_commit_is_of_its_own(h: Seq<PastView>, id: u64, c: u64, i: int)
    requires
        0 <= i < h.len(),
    ensures
        with_commit(h, id, c).len() == h.len(),
        with_commit(h, id, c)[i].change == h[i].change,
        with_commit(h, id, c)[i].by == h[i].by,
        h[i].by == Some(id) && h[i].commit is None ==> with_commit(h, id, c)[i].commit == Some(c),
        h[i].by != Some(id) || h[i].commit is Some ==> with_commit(h, id, c)[i].commit == h[i].commit,
{
}

/// A commit that comes after a transaction above READ COMMITTED began changes nothing that the
/// transaction sees.
pub proof fn law_later_commits_are_unseen(s: StoreView, h: Seq<PastView>, id: u64, c: u64, eye: Eye)
    requires
        id != eye.id,
        eye.level != IsolationLevel::ReadCommitted,
        c > eye.snap,
    ensures
        seen(s, with_commit(h, id, c), eye) == seen(s, h, eye),
{
    assert(changes_of(with_commit(h, id, c)) =~= changes_of(h));
    lemma_commit_unseen(store_undo_all(s, changes_of(h)), h, id, c, eye);
}

proof fn lemma_commit_unseen(s: StoreView, h: Seq<PastView>, id: u64, c: u64, eye: Eye)
    requires
        id != eye.id,
        eye.level != IsolationLevel::ReadCommitted,
        c > eye.snap,
    ensures
        redone(s, with_commit(h, id, c), eye) == redone(s, h, eye),
    decreases h.len(),
{
    if h.len() > 0 {
        lemma_commit_unseen(s, h.drop_last(), id, c, eye);
        assert(with_commit(h, id, c).drop_last() =~= with_commit(h.drop_last(), id, c));
    }
}

} // verus!

use vstd::prelude::*;
use vstd::string::*;
use crate::error::ErrorView;
use crate::parser::ast::SelectStmtView;
use crate::text::{join3, text_is};
use crate::value::{Value, ValueView, dup_names, dup_values, names_view, values_view};
use super::relation::{Relation, RelationView};
use super::unit::Unit;

verus! {

/// The columns that a row of a query offers, with the tables that they come from and the other
/// names that the query gives to tables.
#[derive(Debug)]
pub struct Names {
    pub tables: Vec<String>,
    pub aliases: Vec<String>,
    pub reals: Vec<String>,
    pub columns: Vec<String>,
}

/// What contracts say about `Names`.
pub struct NamesView {
    pub tables: Seq<Seq<char>>,
    pub aliases: Seq<Seq<char>>,
    pub reals: Seq<Seq<char>>,
    pub columns: Seq<Seq<char>>,
}

impl Names {
    pub open spec fn view(&self) -> NamesView {
        NamesView {
            tables: names_view(self.tables@),
            aliases: names_view(self.aliases@),
            reals: names_view(self.reals@),
            columns: names_view(self.columns@),
        }
    }

    /// A copy of the names.
    pub fn dup(&self) -> (r: Names)
        ensures
            r@ == self@,
    {
        Names {
            tables: dup_names(&self.tables),
            aliases: dup_names(&self.aliases),
            reals: dup_names(&self.reals),
            columns: dup_names(&self.columns),
        }
    }
}

/// Names of columns only.
pub open spec fn bare(columns: Seq<Seq<char>>) -> NamesView {
    NamesView { tables: Seq::empty(), aliases: Seq::empty(), reals: Seq::empty(), columns }
}

pub fn bare_names(columns: &Vec<String>) -> (r: Names)
    ensures
        r@ == bare(names_view(columns@)),
{
    let r = Names { tables: Vec::new(), aliases: Vec::new(), reals: Vec::new(), columns: dup_names(columns) };
    assert(r@.tables =~= Seq::empty());
    assert(r@.aliases =~= Seq::empty());
    assert(r@.reals =~= Seq::empty());
    r
}

/// A row of an enclosing query.
#[derive(Debug)]
pub struct Scope {
    pub names: Names,
    pub row: Vec<Value>,
}

/// What contracts say about a `Scope`.
pub struct ScopeView {
    pub names: NamesView,
    pub row: Seq<ValueView>,
}

impl Scope {
    pub open spec fn view(&self) -> ScopeView {
        ScopeView { names: self.names@, row: values_view(self.row@) }
    }
}

pub open spec fn scopes_view(s: Seq<Scope>) -> Seq<ScopeView> {
    Seq::new(s.len(), |i: int| s[i]@)
}

/// The enclosing rows with one more around what they enclose.
pub fn deepen(outer: &Vec<Scope>, names: &Names, row: &Vec<Value>) -> (r: Vec<Scope>)
    ensures
        scopes_view(r@) == scopes_view(outer@).push(ScopeView { names: names@, row: values_view(row@) }),
{
    let mut r: Vec<Scope> = Vec::new();
    let mut i: usize = 0;
    while i < outer.len()
        invariant
            i <= outer.len(),
            scopes_view(r@) == scopes_view(outer@).take(i as int),
            r@.len() == i,
        decreases outer.len() - i,
    {
        r.push(Scope { names: outer[i].names.dup(), row: dup_values(&outer[i].row) });
        assert(scopes_view(r@) =~= scopes_view(outer@).take(i + 1));
        i = i + 1;
    }
    let ghost before = r@;
    assert(scopes_view(before) =~= scopes_view(outer@));
    r.push(Scope { names: names.dup(), row: dup_values(row) });
    assert(r@.drop_last() =~= before);
    assert(forall|j: int| 0 <= j < before.len() ==> scopes_view(r@)[j] == #[trigger] scopes_view(before)[j]);
    assert(scopes_view(r@) =~= scopes_view(outer@).push(ScopeView { names: names@, row: values_view(row@) }));
    r
}

/// A table that a query can read.
#[derive(Debug)]
pub struct Source {
    pub name: String,
    pub rel: Relation,
}

/// What contracts say about a `Source`.
pub struct SourceView {
    pub name: Seq<char>,
    pub rel: RelationView,
}

impl Source {
    pub open spec fn view(&self) -> SourceView {
        SourceView { name: self.name@, rel: self.rel@ }
    }

    /// A copy of the table.
    pub fn dup(&self) -> (r: Source)
        ensures
            r@ == self@,
    {
        Source { name: self.name.clone(), rel: self.rel.dup() }
    }
}

pub open spec fn sources_view(s: Seq<Source>) -> Seq<SourceView> {
    Seq::new(s.len(), |i: int| s[i]@)
}

/// A copy of the tables.
pub fn dup_sources(v: &Vec<Source>) -> (r: Vec<Source>)
    ensures
        sources_view(r@) == sources_view(v@),
{
    let mut r: Vec<Source> = Vec::new();
    let mut i: usize = 0;
    while i < v.len()
        invariant
            i <= v.len(),
            r@.len() == i,
            sources_view(r@) == sources_view(v@).take(i as int),
        decreases v.len() - i,
    {
        r.push(v[i].dup());
        assert(sources_view(r@) =~= sources_view(v@).take(i + 1));
        i = i + 1;
    }
    assert(sources_view(v@).take(v.len() as int) =~= sources_view(v@));
    r
}

/// The tables with one more, which hides an earlier one of its name.
pub fn push_source(v: &mut Vec<Source>, s: Source)
    ensures
        sources_view(final(v)@) == sources_view(old(v)@).push(s@),
{
    let ghost before = v@;
    v.push(s);
    assert(sources_view(v@) =~= sources_view(before).push(s@));
}

/// The last table of the name.
pub open spec fn source_of(db: Seq<SourceView>, name: Seq<char>) -> Option<RelationView>
    decreases db.len(),
{
    if db.len() == 0 {
        None
    } else if db.last().name == name {
        Some(db.last().rel)
    } else {
        source_of(db.drop_last(), name)
    }
}

pub fn find_source<'a>(db: &'a Vec<Source>, name: &str) -> (r: Option<&'a Source>)
    ensures
        (match r { Some(s) => Some(s.rel@), None => None }) == source_of(sources_view(db@), name@),
{
    let ghost all = sources_view(db@);
    let mut i: usize = db.len();
    assert(all.take(i as int) =~= all);
    while i > 0
        invariant
            i <= db.len(),
            all == sources_view(db@),
            source_of(all, name@) == source_of(all.take(i as int), name@),
        decreases i,
    {
        i = i - 1;
        assert(all.take(i + 1).drop_last() =~= all.take(i as int));
        assert(all.take(i + 1).last() == db@[i as int]@);
        if text_is(db[i].name.as_str(), name) {
            return Some(&db[i]);
        }
    }
    None
}

/// What comes of a query: its rows, or an error.
pub type Outcome = Result<RelationView, ErrorView>;

/// What is known while a statement runs: the time, and how many rows tables have.
pub struct Known {
    pub now: i64,
    pub counts: Seq<(Seq<char>, u64)>,
}

/// What an expression can read besides its row: the unit, what is known, the tables, and the outcome
/// of a query over given tables inside given rows.
pub struct Env {
    pub m: Unit,
    pub known: Known,
    pub db: Seq<SourceView>,
    pub sub: spec_fn(SelectStmtView, Seq<SourceView>, Seq<ScopeView>) -> Outcome,
}

/// The first place of a name.
pub open spec fn index_of(names: Seq<Seq<char>>, name: Seq<char>) -> Option<int>
    decreases names.len(),
{
    if names.len() == 0 {
        None
    } else {
        match index_of(names.drop_last(), name) {
            Some(i) => Some(i),
            None => if names.last() == name {
                Some(names.len() - 1)
            } else {
                None
            },
        }
    }
}

pub fn find_index(names: &Vec<String>, name: &str) -> (r: Option<usize>)
    ensures
        (match r { Some(i) => Some(i as int), None => None }) == index_of(names_view(names@), name@),
        r matches Some(i) ==> i < names@.len(),
{
    let ghost all = names_view(names@);
    let mut i: usize = 0;
    let mut r: Option<usize> = None;
    assert(all.take(0).len() == 0);
    while i < names.len()
        invariant
            i <= names.len(),
            all == names_view(names@),
            (match r { Some(i) => Some(i as int), None => None }) == index_of(all.take(i as int), name@),
            r matches Some(i) ==> i < names@.len(),
        decreases names.len() - i,
    {
        assert(all.take(i + 1).drop_last() =~= all.take(i as int));
        assert(all.take(i + 1).last() == names@[i as int]@);
        if r.is_none() && text_is(names[i].as_str(), name) {
            r = Some(i);
        }
        i = i + 1;
    }
    assert(all.take(names.len() as int) =~= all);
    r
}

/// The last place of a name.
pub open spec fn last_index_of(names: Seq<Seq<char>>, name: Seq<char>) -> Option<int>
    decreases names.len(),
{
    if names.len() == 0 {
        None
    } else if names.last() == name {
        Some(names.len() - 1)
    } else {
        last_index_of(names.drop_last(), name)
    }
}

fn find_last_index(names: &Vec<String>, name: &str) -> (r: Option<usize>)
    ensures
        (match r { Some(i) => Some(i as int), None => None }) == last_index_of(names_view(names@), name@),
        r matches Some(i) ==> i < names@.len(),
{
    let ghost all = names_view(names@);
    let mut i: usize = names.len();
    assert(all.take(i as int) =~= all);
    while i > 0
        invariant
            i <= names.len(),
            all == names_view(names@),
            last_index_of(all, name@) == last_index_of(all.take(i as int), name@),
        decreases i,
    {
        i = i - 1;
        assert(all.take(i + 1).drop_last() =~= all.take(i as int));
        assert(all.take(i + 1).last() == names@[i as int]@);
        if text_is(names[i].as_str(), name) {
            return Some(i);
        }
    }
    None
}

/// The table that `t` stands for: the one that the last alias of that name names, or itself.
pub open spec fn real_table(n: NamesView, t: Seq<char>) -> Seq<char> {
    match last_index_of(n.aliases, t) {
        Some(i) => if i < n.reals.len() {
            n.reals[i]
        } else {
            t
        },
        None => t,
    }
}

pub fn resolve_table<'a>(n: &'a Names, t: &'a str) -> (r: &'a str)
    ensures
        r@ == real_table(n@, t@),
{
    match find_last_index(&n.aliases, t) {
        Some(i) => if i < n.reals.len() {
            n.reals[i].as_str()
        } else {
            t
        },
        None => t,
    }
}

/// The value at a place of a row, or null.
pub open spec fn value_at(row: Seq<ValueView>, i: Option<int>) -> ValueView {
    match i {
        Some(i) => if 0 <= i < row.len() {
            row[i]
        } else {
            ValueView::Null
        },
        None => ValueView::Null,
    }
}

pub fn get_value(row: &Vec<Value>, i: Option<usize>) -> (r: Value)
    ensures
        r@ == value_at(values_view(row@), match i { Some(i) => Some(i as int), None => None }),
{
    match i {
        Some(i) => if i < row.len() {
            row[i].dup()
        } else {
            Value::Null
        },
        None => Value::Null,
    }
}

/// The name of a column with its table.
pub open spec fn dotted(t: Seq<char>, c: Seq<char>) -> Seq<char> {
    t + "."@ + c
}

/// The value of column `c` of table `t` in a row.
pub open spec fn qualified_value(n: NamesView, row: Seq<ValueView>, t: Seq<char>, c: Seq<char>) -> ValueView {
    match index_of(n.columns, c) {
        Some(i) => value_at(row, Some(i)),
        None => value_at(row, index_of(n.columns, dotted(real_table(n, t), c))),
    }
}

pub fn get_qualified(n: &Names, row: &Vec<Value>, t: &str, c: &str) -> (r: Value)
    ensures
        r@ == qualified_value(n@, values_view(row@), t@, c@),
{
    match find_index(&n.columns, c) {
        Some(i) => get_value(row, Some(i)),
        None => {
            let name = join3(resolve_table(n, t), ".", c);
            get_value(row, find_index(&n.columns, name.as_str()))
        },
    }
}

/// Whether a row comes from a table that is called `t`.
pub open spec fn names_table(n: NamesView, t: Seq<char>) -> bool {
    index_of(n.tables, t) is Some || last_index_of(n.aliases, t) is Some
}

pub fn has_table(n: &Names, t: &str) -> (r: bool)
    ensures
        r == names_table(n@, t@),
{
    find_index(&n.tables, t).is_some() || find_last_index(&n.aliases, t).is_some()
}

/// The innermost enclosing row that comes from a table called `t`.
pub open spec fn outer_scope(o: Seq<ScopeView>, t: Seq<char>) -> Option<ScopeView>
    decreases o.len(),
{
    if o.len() == 0 {
        None
    } else if names_table(o.last().names, t) {
        Some(o.last())
    } else {
        outer_scope(o.drop_last(), t)
    }
}

/// The value of `t.c` where it stands: that of the row's own table, else that of the innermost
/// enclosing row that comes from a table of this name, else whatever the row calls so.
pub open spec fn resolved(o: Seq<ScopeView>, n: NamesView, row: Seq<ValueView>, t: Seq<char>, c: Seq<char>) -> ValueView {
    if names_table(n, t) {
        qualified_value(n, row, t, c)
    } else {
        match outer_scope(o, t) {
            Some(s) => qualified_value(s.names, s.row, t, c),
            None => qualified_value(n, row, t, c),
        }
    }
}

pub fn resolve(o: &Vec<Scope>, n: &Names, row: &Vec<Value>, t: &str, c: &str) -> (r: Value)
    ensures
        r@ == resolved(scopes_view(o@), n@, values_view(row@), t@, c@),
{
    if has_table(n, t) {
        return get_qualified(n, row, t, c);
    }
    let ghost all = scopes_view(o@);
    let mut i: usize = o.len();
    assert(all.take(i as int) =~= all);
    while i > 0
        invariant
            i <= o.len(),
            all == scopes_view(o@),
            !names_table(n@, t@),
            outer_scope(all, t@) == outer_scope(all.take(i as int), t@),
        decreases i,
    {
        i = i - 1;
        assert(all.take(i + 1).drop_last() =~= all.take(i as int));
        assert(all.take(i + 1).last() == o@[i as int]@);
        if has_table(&o[i].names, t) {
            return get_qualified(&o[i].names, &o[i].row, t, c);
        }
    }
    get_qualified(n, row, t, c)
}

} // verus!

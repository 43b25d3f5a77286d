use vstd::prelude::*;
use vstd::string::*;
use crate::error::{QueryError, Result};
use crate::text::{join2, nat_text, nat_to_text, text_is};
use crate::value::{names_push, names_view};
use super::json::{Json, JsonView, Member, MemberView, dup_jsons, jsons_push, jsons_view, members_view};
use super::json_text::{json_of_text, read_json};
use super::json_path::{at_path, evaluate_path, set_member, with_member};

verus! {

/// Documents under a name.
#[derive(Debug)]
struct Collection {
    name: String,
    docs: Vec<Json>,
}

/// Collections of documents, each of which gets a number of its own.
#[derive(Debug)]
pub struct DocEngine {
    collections: Vec<Collection>,
    next_id: u64,
}

/// What contracts say about a `DocEngine`.
pub struct DocsView {
    pub names: Seq<Seq<char>>,
    pub docs: Seq<Seq<JsonView>>,
    pub next_id: u64,
}

/// The place of the collection of a name.
pub open spec fn collection_place(names: Seq<Seq<char>>, name: Seq<char>) -> Option<int> {
    crate::executor::scope::index_of(names, name)
}

/// The documents of a collection; of one that is not there, none.
pub open spec fn docs_in(s: DocsView, name: Seq<char>) -> Seq<JsonView> {
    match collection_place(s.names, name) {
        Some(i) => s.docs[i],
        None => Seq::empty(),
    }
}

/// The name of the document of a number.
pub open spec fn doc_name(n: u64) -> Seq<char> {
    "doc_"@ + nat_text(n as nat)
}

/// A document that has been given its name, if it is an object.
pub open spec fn named_doc(d: JsonView, id: Seq<char>) -> JsonView {
    match d {
        JsonView::Object(m) => JsonView::Object(with_member(m, "_id"@, JsonView::Text(id))),
        _ => d,
    }
}

pub open spec fn after_id(n: u64) -> u64 {
    if n == u64::MAX {
        0
    } else {
        (n + 1) as u64
    }
}

/// The engine with one more document.
pub open spec fn doc_inserted(s: DocsView, collection: Seq<char>, d: JsonView) -> DocsView {
    let x = named_doc(d, doc_name(s.next_id));
    match collection_place(s.names, collection) {
        Some(i) => DocsView { docs: s.docs.update(i, s.docs[i].push(x)), next_id: after_id(s.next_id), ..s },
        None => DocsView {
            names: s.names.push(collection),
            docs: s.docs.push(seq![x]),
            next_id: after_id(s.next_id),
        },
    }
}

/// A value with its zeros without a sign, which makes no difference between two values.
pub open spec fn unsigned_zeros(j: JsonView) -> JsonView
    decreases j,
{
    match j {
        JsonView::Number(n) => JsonView::Number(
            if n == "-0.0"@ {
                "0.0"@
            } else {
                n
            },
        ),
        JsonView::List(l) => JsonView::List(unsigned_list(l)),
        JsonView::Object(m) => JsonView::Object(unsigned_members(m)),
        _ => j,
    }
}

pub open spec fn unsigned_list(l: Seq<JsonView>) -> Seq<JsonView>
    decreases l,
{
    Seq::new(l.len(), |i: int| if 0 <= i < l.len() { unsigned_zeros(l[i]) } else { arbitrary() })
}

pub open spec fn unsigned_members(m: Seq<MemberView>) -> Seq<MemberView>
    decreases m,
{
    Seq::new(m.len(), |i: int| if 0 <= i < m.len() { unsigned_member(m[i]) } else { arbitrary() })
}

pub open spec fn unsigned_member(m: MemberView) -> MemberView
    decreases m,
{
    MemberView { name: m.name, value: unsigned_zeros(m.value) }
}

/// Whether two values are the same.
pub open spec fn equal_jsons(a: JsonView, b: JsonView) -> bool {
    unsigned_zeros(a) == unsigned_zeros(b)
}

/// Whether a path leads to a value.
pub open spec fn leads_to(d: JsonView, path: Seq<char>, v: JsonView) -> bool {
    at_path(d, path) matches Some(x) && equal_jsons(x, v)
}

/// The documents in which a path leads to a value, or the others.
pub open spec fn docs_where(docs: Seq<JsonView>, path: Seq<char>, v: JsonView, yes: bool) -> Seq<JsonView>
    decreases docs.len(),
{
    if docs.len() == 0 {
        Seq::empty()
    } else {
        let r = docs_where(docs.drop_last(), path, v, yes);
        if leads_to(docs.last(), path, v) == yes {
            r.push(docs.last())
        } else {
            r
        }
    }
}

/// Whether an update concerns a document.
pub open spec fn update_hits(d: JsonView, path: Seq<char>, v: JsonView) -> bool {
    leads_to(d, path, v) && d is Object
}

/// A document after an update.
pub open spec fn doc_updated(d: JsonView, path: Seq<char>, v: JsonView, name: Seq<char>, new: JsonView) -> JsonView {
    if update_hits(d, path, v) {
        JsonView::Object(with_member(d->Object_0, name, new))
    } else {
        d
    }
}

/// How many documents an update concerns.
pub open spec fn hits(docs: Seq<JsonView>, path: Seq<char>, v: JsonView) -> nat
    decreases docs.len(),
{
    if docs.len() == 0 {
        0
    } else {
        hits(docs.drop_last(), path, v) + (if update_hits(docs.last(), path, v) {
            1nat
        } else {
            0nat
        })
    }
}

// ---- comparing values

fn same_jsons(a: &Vec<Json>, b: &Vec<Json>) -> (r: bool)
    ensures
        r == (unsigned_list(jsons_view(a@)) == unsigned_list(jsons_view(b@))),
    decreases a,
{
    let ghost x = unsigned_list(jsons_view(a@));
    let ghost y = unsigned_list(jsons_view(b@));
    proof {
        assert(x.len() == a@.len());
        assert(y.len() == b@.len());
    }
    if a.len() != b.len() {
        return false;
    }
    let mut i: usize = 0;
    while i < a.len()
        invariant
            i <= a.len(),
            a@.len() == b@.len(),
            x == unsigned_list(jsons_view(a@)),
            y == unsigned_list(jsons_view(b@)),
            x.len() == a@.len(),
            y.len() == b@.len(),
            forall|j: int| 0 <= j < i ==> #[trigger] x[j] == y[j],
        decreases a.len() - i,
    {
        assert(x[i as int] == unsigned_zeros(a@[i as int]@));
        assert(y[i as int] == unsigned_zeros(b@[i as int]@));
        if !same_json(&a[i], &b[i]) {
            return false;
        }
        i = i + 1;
    }
    assert(x =~= y);
    true
}

fn same_members(a: &Vec<Member>, b: &Vec<Member>) -> (r: bool)
    ensures
        r == (unsigned_members(members_view(a@)) == unsigned_members(members_view(b@))),
    decreases a,
{
    let ghost x = unsigned_members(members_view(a@));
    let ghost y = unsigned_members(members_view(b@));
    proof {
        assert(x.len() == a@.len());
        assert(y.len() == b@.len());
    }
    if a.len() != b.len() {
        return false;
    }
    let mut i: usize = 0;
    while i < a.len()
        invariant
            i <= a.len(),
            a@.len() == b@.len(),
            x == unsigned_members(members_view(a@)),
            y == unsigned_members(members_view(b@)),
            x.len() == a@.len(),
            y.len() == b@.len(),
            forall|j: int| 0 <= j < i ==> #[trigger] x[j] == y[j],
        decreases a.len() - i,
    {
        assert(x[i as int] == unsigned_member(a@[i as int]@));
        assert(y[i as int] == unsigned_member(b@[i as int]@));
        if !text_is(a[i].name.as_str(), b[i].name.as_str()) || !same_json(&a[i].value, &b[i].value) {
            return false;
        }
        i = i + 1;
    }
    assert(x =~= y);
    true
}

fn same_number(x: &str, y: &str) -> (r: bool)
    ensures
        r == equal_jsons(JsonView::Number(x@), JsonView::Number(y@)),
{
    let a = if text_is(x, "-0.0") {
        "0.0"
    } else {
        x
    };
    let b = if text_is(y, "-0.0") {
        "0.0"
    } else {
        y
    };
    text_is(a, b)
}

/// Whether two values are the same.
pub fn same_json(a: &Json, b: &Json) -> (r: bool)
    ensures
        r == equal_jsons(a@, b@),
    decreases a,
{
    match (a, b) {
        (Json::Null, Json::Null) => true,
        (Json::Bool(x), Json::Bool(y)) => *x == *y,
        (Json::Number(x), Json::Number(y)) => same_number(x.as_str(), y.as_str()),
        (Json::Text(x), Json::Text(y)) => text_is(x.as_str(), y.as_str()),
        (Json::List(x), Json::List(y)) => same_jsons(x, y),
        (Json::Object(x), Json::Object(y)) => same_members(x, y),
        _ => false,
    }
}

fn does_lead(d: &Json, path: &str, v: &Json) -> (r: bool)
    ensures
        r == leads_to(d@, path@, v@),
{
    match evaluate_path(d, path) {
        Some(x) => same_json(&x, v),
        None => false,
    }
}

fn pick_docs(docs: &Vec<Json>, path: &str, v: &Json, yes: bool) -> (r: Vec<Json>)
    ensures
        jsons_view(r@) == docs_where(jsons_view(docs@), path@, v@, yes),
{
    let ghost all = jsons_view(docs@);
    let mut r: Vec<Json> = Vec::new();
    let mut i: usize = 0;
    proof {
        assert(all.take(0).len() == 0);
        assert(jsons_view(r@) =~= Seq::empty());
    }
    while i < docs.len()
        invariant
            i <= docs.len(),
            all == jsons_view(docs@),
            jsons_view(r@) == docs_where(all.take(i as int), path@, v@, yes),
        decreases docs.len() - i,
    {
        proof {
            assert(all.take(i + 1).drop_last() =~= all.take(i as int));
            assert(all.take(i + 1).last() == docs@[i as int]@);
        }
        if does_lead(&docs[i], path, v) == yes {
            let d = docs[i].dup();
            proof {
                jsons_push(r@, d);
            }
            r.push(d);
        }
        i = i + 1;
    }
    assert(all.take(docs.len() as int) =~= all);
    r
}

/// Whether a filter may answer so of each document.
pub open spec fn answers<F: Fn(&Json) -> bool>(f: F, docs: Seq<Json>, a: Seq<bool>) -> bool {
    a.len() == docs.len() && forall|i: int| 0 <= i < docs.len() ==> call_ensures(f, (&docs[i],), #[trigger] a[i])
}

/// The documents that got the answer yes.
pub open spec fn accepted(docs: Seq<JsonView>, a: Seq<bool>) -> Seq<JsonView>
    decreases docs.len(),
{
    if docs.len() == 0 {
        Seq::empty()
    } else if a[docs.len() - 1] {
        accepted(docs.drop_last(), a).push(docs.last())
    } else {
        accepted(docs.drop_last(), a)
    }
}

proof fn lemma_accepted(docs: Seq<JsonView>, a: Seq<bool>, b: Seq<bool>)
    requires
        forall|i: int| 0 <= i < docs.len() ==> a[i] == b[i],
    ensures
        accepted(docs, a) == accepted(docs, b),
    decreases docs.len(),
{
    if docs.len() > 0 {
        lemma_accepted(docs.drop_last(), a, b);
        assert(a[docs.len() - 1] == b[docs.len() - 1]);
    }
}

fn filter_docs<F: Fn(&Json) -> bool>(docs: &Vec<Json>, f: F) -> (r: Vec<Json>)
    requires
        forall|d: &Json| call_requires(f, (d,)),
    ensures
        exists|a: Seq<bool>| #[trigger] answers(f, docs@, a) && jsons_view(r@) == accepted(jsons_view(docs@), a),
{
    let ghost all = jsons_view(docs@);
    let ghost mut a = Seq::<bool>::empty();
    let mut r: Vec<Json> = Vec::new();
    let mut i: usize = 0;
    proof {
        assert(all.take(0).len() == 0);
        assert(jsons_view(r@) =~= Seq::empty());
    }
    while i < docs.len()
        invariant
            i <= docs.len(),
            forall|d: &Json| call_requires(f, (d,)),
            all == jsons_view(docs@),
            a.len() == i,
            forall|j: int| 0 <= j < i ==> call_ensures(f, (&docs@[j],), #[trigger] a[j]),
            jsons_view(r@) == accepted(all.take(i as int), a),
        decreases docs.len() - i,
    {
        let ghost before = a;
        let yes = f(&docs[i]);
        proof {
            a = a.push(yes);
            assert(all.take(i + 1).drop_last() =~= all.take(i as int));
            assert(all.take(i + 1).last() == docs@[i as int]@);
            lemma_accepted(all.take(i as int), before, a);
        }
        if yes {
            let d = docs[i].dup();
            proof {
                jsons_push(r@, d);
            }
            r.push(d);
        }
        i = i + 1;
    }
    assert(all.take(docs.len() as int) =~= all);
    assert(answers(f, docs@, a));
    r
}

// ---- the engine

impl DocEngine {
    pub closed spec fn view(&self) -> DocsView {
        DocsView {
            names: Seq::new(self.collections@.len(), |i: int| self.collections@[i].name@),
            docs: Seq::new(self.collections@.len(), |i: int| jsons_view(self.collections@[i].docs@)),
            next_id: self.next_id,
        }
    }

    pub fn new() -> (r: DocEngine)
        ensures
            r@ == (DocsView { names: Seq::empty(), docs: Seq::empty(), next_id: 1 }),
    {
        let r = DocEngine { collections: Vec::new(), next_id: 1 };
        assert(r@.names =~= Seq::empty());
        assert(r@.docs =~= Seq::empty());
        r
    }

    /// The names of the collections.
    pub fn list_collections(&self) -> (r: Vec<String>)
        ensures
            names_view(r@) == self@.names,
    {
        let mut r: Vec<String> = Vec::new();
        let mut i: usize = 0;
        assert(names_view(r@) =~= self@.names.take(0));
        while i < self.collections.len()
            invariant
                i <= self.collections.len(),
                names_view(r@) == self@.names.take(i as int),
            decreases self.collections.len() - i,
        {
            proof {
                names_push(r@, self.collections@[i as int].name);
                assert(self@.names.take(i + 1) =~= self@.names.take(i as int).push(self.collections@[i as int].name@));
            }
            r.push(self.collections[i].name.clone());
            i = i + 1;
        }
        assert(self@.names.take(i as int) =~= self@.names);
        r
    }

    fn find_collection(&self, name: &str) -> (r: Option<usize>)
        ensures
            (match r { Some(i) => Some(i as int), None => None }) == collection_place(self@.names, name@),
            r matches Some(i) ==> i < self.collections@.len(),
    {
        let names = self.list_collections();
        proof {
            assert(names_view(names@).len() == names@.len());
        }
        crate::executor::scope::find_index(&names, name)
    }

    /// Puts the document that a text writes out into a collection and gives the name that the document
    /// got. A text that is no JSON value changes nothing.
    pub fn insert(&mut self, collection: &str, doc_json: &str) -> (r: Result<String>)
        ensures
            match json_of_text(doc_json@) {
                Some(d) => {
                    &&& r matches Ok(id) && id@ == doc_name(old(self)@.next_id)
                    &&& final(self)@ == doc_inserted(old(self)@, collection@, d)
                },
                None => (r matches Err(QueryError::Execution(m)) && "Invalid JSON: "@.is_prefix_of(m@)) && final(self)@ == old(self)@,
            },
    {
        match read_json(doc_json) {
            Ok(d) => self.insert_value(collection, d),
            Err(e) => {
                let m = crate::text::join2("Invalid JSON: ", e.as_str());
                assert(m@.take("Invalid JSON: "@.len() as int) =~= "Invalid JSON: "@);
                Err(QueryError::Execution(m))
            },
        }
    }

    /// Puts a document into a collection and gives the name that the document got.
    pub fn insert_value(&mut self, collection: &str, doc: Json) -> (r: Result<String>)
        ensures
            r matches Ok(id) && id@ == doc_name(old(self)@.next_id),
            final(self)@ == doc_inserted(old(self)@, collection@, doc@),
    {
        let ghost before = self@;
        let n = nat_to_text(self.next_id as u128);
        let id = join2("doc_", n.as_str());
        let data = match doc {
            Json::Object(m) => {
                let mut m = m;
                set_member(&mut m, "_id", Json::Text(id.clone()));
                Json::Object(m)
            },
            other => other,
        };
        assert(data@ == named_doc(doc@, id@));
        self.next_id = if self.next_id == u64::MAX {
            0
        } else {
            self.next_id + 1
        };
        match self.find_collection(collection) {
            Some(i) => {
                let mut c = self.collections.remove(i);
                proof {
                    jsons_push(c.docs@, data);
                }
                c.docs.push(data);
                self.collections.insert(i, c);
                proof {
                    assert(self@.names =~= before.names);
                    assert(self@.docs =~= before.docs.update(i as int, before.docs[i as int].push(data@)));
                }
            },
            None => {
                let mut docs: Vec<Json> = Vec::new();
                docs.push(data);
                assert(jsons_view(docs@) =~= seq![data@]);
                self.collections.push(Collection { name: collection.to_string(), docs });
                proof {
                    assert(self@.names =~= before.names.push(collection@));
                    assert(self@.docs =~= before.docs.push(seq![data@]));
                }
            },
        }
        Ok(id)
    }

    /// The documents of a collection as they are stored.
    pub closed spec fn stored_docs(&self, collection: Seq<char>) -> Seq<Json> {
        match collection_place(self@.names, collection) {
            Some(i) => self.collections@[i].docs@,
            None => Seq::empty(),
        }
    }

    /// The documents of a collection that a filter accepts, and all of them where there is none.
    pub fn find<F: Fn(&Json) -> bool>(&self, collection: &str, filter: Option<F>) -> (r: Result<Vec<Json>>)
        requires
            filter matches Some(f) ==> forall|d: &Json| call_requires(f, (d,)),
        ensures
            jsons_view(self.stored_docs(collection@)) == docs_in(self@, collection@),
            r matches Ok(v) && match filter {
                None => jsons_view(v@) == docs_in(self@, collection@),
                Some(f) => exists|a: Seq<bool>| #[trigger]
                    answers(f, self.stored_docs(collection@), a) && jsons_view(v@) == accepted(docs_in(self@, collection@), a),
            },
    {
        let i = match self.find_collection(collection) {
            Some(i) => i,
            None => {
                let r: Vec<Json> = Vec::new();
                assert(jsons_view(r@) =~= Seq::empty());
                proof {
                    assert(jsons_view(self.stored_docs(collection@)) =~= Seq::empty());
                    if let Some(f) = filter {
                        let none = Seq::<bool>::empty();
                        assert(answers(f, self.stored_docs(collection@), none));
                    }
                }
                return Ok(r);
            },
        };
        assert(self@.docs[i as int] == jsons_view(self.collections@[i as int].docs@));
        assert(self.stored_docs(collection@) == self.collections@[i as int].docs@);
        match filter {
            None => {
                let all = dup_jsons(&self.collections[i].docs);
                assert(jsons_view(all@) == docs_in(self@, collection@));
                Ok(all)
            },
            Some(f) => Ok(filter_docs(&self.collections[i].docs, f)),
        }
    }

    /// All documents of a collection.
    pub fn find_all(&self, collection: &str) -> (r: Result<Vec<Json>>)
        ensures
            r matches Ok(v) && jsons_view(v@) == docs_in(self@, collection@),
    {
        match self.find_collection(collection) {
            Some(i) => {
                assert(self@.docs[i as int] == jsons_view(self.collections@[i as int].docs@));
                Ok(dup_jsons(&self.collections[i].docs))
            },
            None => {
                let r: Vec<Json> = Vec::new();
                assert(jsons_view(r@) =~= Seq::empty());
                Ok(r)
            },
        }
    }

    /// The documents of a collection in which a path leads to a value.
    pub fn find_by_path(&self, collection: &str, path: &str, expected: &Json) -> (r: Result<Vec<Json>>)
        ensures
            r matches Ok(v) && jsons_view(v@) == docs_where(docs_in(self@, collection@), path@, expected@, true),
    {
        match self.find_collection(collection) {
            Some(i) => {
                assert(self@.docs[i as int] == jsons_view(self.collections@[i as int].docs@));
                Ok(pick_docs(&self.collections[i].docs, path, expected, true))
            },
            None => {
                let r: Vec<Json> = Vec::new();
                assert(jsons_view(r@) =~= Seq::empty());
                Ok(r)
            },
        }
    }

    /// Sets a member of the documents of a collection in which a path leads to a value; gives their
    /// number.
    pub fn update_by_path(&mut self, collection: &str, filter_path: &str, filter_value: &Json, set_path: &str, set_value: Json) -> (r: Result<u64>)
        ensures
            r matches Ok(n) && n == hits(docs_in(old(self)@, collection@), filter_path@, filter_value@),
            final(self)@.names == old(self)@.names,
            final(self)@.next_id == old(self)@.next_id,
            final(self)@.docs == (match collection_place(old(self)@.names, collection@) {
                Some(i) => old(self)@.docs.update(
                    i,
                    old(self)@.docs[i].map_values(
                        |d: JsonView| doc_updated(d, filter_path@, filter_value@, set_path@, set_value@),
                    ),
                ),
                None => old(self)@.docs,
            }),
    {
        let ghost before = self@;
        let i = match self.find_collection(collection) {
            Some(i) => i,
            None => {
                return Ok(0);
            },
        };
        assert(before.docs[i as int] == jsons_view(self.collections@[i as int].docs@));
        let mut c = self.collections.remove(i);
        let n = update_docs(&mut c.docs, filter_path, filter_value, set_path, &set_value);
        self.collections.insert(i, c);
        proof {
            assert(self@.names =~= before.names);
            assert(self@.docs =~= before.docs.update(i as int, jsons_view(c.docs@)));
        }
        Ok(n)
    }

    /// Takes away the documents of a collection in which a path leads to a value; gives their number.
    pub fn delete_by_path(&mut self, collection: &str, path: &str, expected: &Json) -> (r: Result<u64>)
        ensures
            r matches Ok(n) && n == docs_in(old(self)@, collection@).len() - docs_in(final(self)@, collection@).len(),
            final(self)@.names == old(self)@.names,
            final(self)@.next_id == old(self)@.next_id,
            final(self)@.docs == (match collection_place(old(self)@.names, collection@) {
                Some(i) => old(self)@.docs.update(i, docs_where(old(self)@.docs[i], path@, expected@, false)),
                None => old(self)@.docs,
            }),
    {
        let ghost before = self@;
        let i = match self.find_collection(collection) {
            Some(i) => i,
            None => {
                return Ok(0);
            },
        };
        assert(before.docs[i as int] == jsons_view(self.collections@[i as int].docs@));
        let mut c = self.collections.remove(i);
        let all = c.docs.len();
        proof {
            lemma_fewer(jsons_view(c.docs@), path@, expected@, false);
            assert(jsons_view(c.docs@).len() == c.docs@.len());
        }
        c.docs = pick_docs(&c.docs, path, expected, false);
        assert(jsons_view(c.docs@).len() == c.docs@.len());
        let left = c.docs.len();
        self.collections.insert(i, c);
        proof {
            assert(self@.names =~= before.names);
            assert(self@.docs =~= before.docs.update(i as int, jsons_view(c.docs@)));
        }
        Ok((all - left) as u64)
    }

    pub fn count(&self, collection: &str) -> (r: usize)
        ensures
            r == docs_in(self@, collection@).len(),
    {
        match self.find_collection(collection) {
            Some(i) => {
                assert(self@.docs[i as int] == jsons_view(self.collections@[i as int].docs@));
                assert(jsons_view(self.collections@[i as int].docs@).len() == self.collections@[i as int].docs@.len());
                self.collections[i].docs.len()
            },
            None => 0,
        }
    }
}

impl Default for DocEngine {
    fn default() -> (r: Self)
        ensures
            r@ == (DocsView { names: Seq::empty(), docs: Seq::empty(), next_id: 1 }),
    {
        DocEngine::new()
    }
}

fn update_docs(docs: &mut Vec<Json>, path: &str, v: &Json, name: &str, new: &Json) -> (r: u64)
    ensures
        r == hits(jsons_view(old(docs)@), path@, v@),
        jsons_view(final(docs)@) == jsons_view(old(docs)@).map_values(
            |d: JsonView| doc_updated(d, path@, v@, name@, new@),
        ),
{
    let ghost all = jsons_view(docs@);
    let ghost f = |d: JsonView| doc_updated(d, path@, v@, name@, new@);
    let mut out: Vec<Json> = Vec::new();
    let mut n: u64 = 0;
    let mut i: usize = 0;
    proof {
        assert(all.take(0).len() == 0);
        assert(jsons_view(out@) =~= all.take(0).map_values(f));
    }
    while i < docs.len()
        invariant
            i <= docs.len(),
            *docs == *old(docs),
            all == jsons_view(docs@),
            f == (|d: JsonView| doc_updated(d, path@, v@, name@, new@)),
            n == hits(all.take(i as int), path@, v@),
            n <= i,
            jsons_view(out@) == all.take(i as int).map_values(f),
        decreases docs.len() - i,
    {
        proof {
            assert(all.take(i + 1).drop_last() =~= all.take(i as int));
            assert(all.take(i + 1).last() == docs@[i as int]@);
        }
        let found = does_lead(&docs[i], path, v);
        let d = match docs[i].dup() {
            Json::Object(m) => {
                if found {
                    let mut m = m;
                    set_member(&mut m, name, new.dup());
                    n = n + 1;
                    Json::Object(m)
                } else {
                    Json::Object(m)
                }
            },
            other => other,
        };
        proof {
            assert(d@ == f(docs@[i as int]@));
            jsons_push(out@, d);
            assert(all.take(i + 1).map_values(f) =~= all.take(i as int).map_values(f).push(d@));
        }
        out.push(d);
        i = i + 1;
    }
    proof {
        assert(all.take(docs.len() as int) =~= all);
    }
    *docs = out;
    n
}

proof fn lemma_fewer(docs: Seq<JsonView>, path: Seq<char>, v: JsonView, yes: bool)
    ensures
        docs_where(docs, path, v, yes).len() <= docs.len(),
    decreases docs.len(),
{
    if docs.len() > 0 {
        lemma_fewer(docs.drop_last(), path, v, yes);
    }
}

/// Each document of a collection is either found by a path and a value or left by a deletion.
pub proof fn law_found_or_left(docs: Seq<JsonView>, path: Seq<char>, v: JsonView)
    ensures
        docs_where(docs, path, v, true).len() + docs_where(docs, path, v, false).len() == docs.len(),
    decreases docs.len(),
{
    if docs.len() > 0 {
        law_found_or_left(docs.drop_last(), path, v);
    }
}

/// After a deletion the path leads to the value in no document.
pub proof fn law_nothing_found_after_delete(docs: Seq<JsonView>, path: Seq<char>, v: JsonView)
    ensures
        docs_where(docs_where(docs, path, v, false), path, v, true) == Seq::<JsonView>::empty(),
    decreases docs.len(),
{
    if docs.len() > 0 {
        law_nothing_found_after_delete(docs.drop_last(), path, v);
        let r = docs_where(docs.drop_last(), path, v, false);
        if !leads_to(docs.last(), path, v) {
            assert(r.push(docs.last()).drop_last() =~= r);
        }
    }
}

/// An inserted document is the last of its collection.
pub proof fn law_inserted_is_last(s: DocsView, collection: Seq<char>, d: JsonView)
    requires
        s.names.len() == s.docs.len(),
    ensures
        docs_in(doc_inserted(s, collection, d), collection) == docs_in(s, collection).push(
            named_doc(d, doc_name(s.next_id)),
        ),
{
    lemma_place(s.names, collection);
    let x = named_doc(d, doc_name(s.next_id));
    if collection_place(s.names, collection) is None {
        assert(s.names.push(collection).drop_last() =~= s.names);
        assert(seq![x] =~= Seq::<JsonView>::empty().push(x));
    }
}

proof fn lemma_place(names: Seq<Seq<char>>, name: Seq<char>)
    ensures
        collection_place(names, name) matches Some(i) ==> 0 <= i < names.len(),
    decreases names.len(),
{
    if names.len() > 0 {
        lemma_place(names.drop_last(), name);
    }
}

} // verus!

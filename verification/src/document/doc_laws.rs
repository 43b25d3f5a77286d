use vstd::prelude::*;
use vstd::string::*;
use crate::executor::scalar::{all_digits, digits_value, is_digit};
use super::doc_engine::{DocsView, collection_place, doc_inserted, doc_name, doc_updated, docs_in, docs_where, hits, leads_to};
use super::json::{JsonView, MemberView};
use super::json_path::{at_parts, at_path, bracketed, digits_number, law_member_after_set, law_set_leaves_other_members, member_of, path_parts};

verus! {

/// Whether a text holds no dot.
pub open spec fn dotless(s: Seq<char>) -> bool {
    forall|i: int| 0 <= i < s.len() ==> #[trigger] s[i] != '.'
}

proof fn lemma_parts(s: Seq<char>)
    ensures
        path_parts(s).len() > 0,
    decreases s.len(),
{
    if s.len() > 0 {
        lemma_parts(s.drop_last());
    }
}

/// A path without a dot is one name; a path goes on behind a dot with the next.
pub proof fn law_path_parts(s: Seq<char>, t: Seq<char>)
    requires
        dotless(t),
    ensures
        path_parts(t) == seq![t],
        path_parts(s + seq!['.'] + t) == path_parts(s).push(t),
    decreases t.len(),
{
    let p = s + seq!['.'] + t;
    lemma_parts(s);
    if t.len() > 0 {
        let d = t.drop_last();
        assert forall|i: int| 0 <= i < d.len() implies #[trigger] d[i] != '.' by {
            assert(d[i] == t[i]);
        }
        law_path_parts(s, d);
        assert(t[t.len() - 1] != '.');
        assert(d.push(t.last()) =~= t);
        assert(path_parts(t) =~= seq![t]);
        assert(p.drop_last() =~= s + seq!['.'] + d);
        assert(p.last() == t.last());
        assert(path_parts(s).push(d).drop_last() =~= path_parts(s));
        assert(path_parts(p) =~= path_parts(s).push(t));
    } else {
        assert(t =~= Seq::empty());
        assert(path_parts(t) =~= seq![t]);
        assert(p.drop_last() =~= s);
        assert(p.last() == '.');
        assert(path_parts(p) =~= path_parts(s).push(t));
    }
}

/// A name leads to the member of an object, and to nothing in anything else; a path leads where its
/// last name leads from where the path before it led.
pub proof fn law_path_leads(d: JsonView, s: Seq<char>, t: Seq<char>)
    requires
        dotless(t),
        !bracketed(t),
    ensures
        at_path(d, t) == (match d {
            JsonView::Object(m) => member_of(m, t),
            _ => None,
        }),
        at_path(d, s + seq!['.'] + t) == (match at_path(d, s) {
            Some(JsonView::Object(m)) => member_of(m, t),
            _ => None,
        }),
{
    law_path_parts(s, t);
    let one = seq![t];
    assert(one.drop_last() =~= Seq::empty());
    reveal_with_fuel(at_parts, 2);
    assert(path_parts(s).push(t).drop_last() =~= path_parts(s));
}

proof fn lemma_digits(s: Seq<char>)
    requires
        all_digits(s),
    ensures
        digits_number(s) == Some(digits_value(s)),
    decreases s.len(),
{
    let d = s.drop_last();
    assert(is_digit(s[s.len() - 1]));
    reveal_with_fuel(digits_value, 2);
    if s.len() > 1 {
        assert forall|i: int| 0 <= i < d.len() implies is_digit(#[trigger] d[i]) by {
            assert(d[i] == s[i]);
        }
        lemma_digits(d);
    } else {
        assert(d =~= Seq::empty());
    }
}

/// A number in brackets leads to the item of a list at that place, counted from zero, and to nothing
/// behind its end or in anything else.
pub proof fn law_path_into_list(d: JsonView, s: Seq<char>, n: Seq<char>)
    requires
        all_digits(n),
    ensures
        at_path(d, s + seq!['.'] + (seq!['['] + n + seq![']'])) == (match at_path(d, s) {
            Some(JsonView::List(l)) => if digits_value(n) < l.len() {
                Some(l[digits_value(n) as int])
            } else {
                None
            },
            _ => None,
        }),
{
    let t = seq!['['] + n + seq![']'];
    assert forall|i: int| 0 <= i < t.len() implies #[trigger] t[i] != '.' by {
        if 0 < i < t.len() - 1 {
            assert(t[i] == n[i - 1]);
            assert(is_digit(n[i - 1]));
        }
    }
    law_path_parts(s, t);
    assert(path_parts(s).push(t).drop_last() =~= path_parts(s));
    assert(bracketed(t));
    assert(t.subrange(1, t.len() - 1) =~= n);
    assert(is_digit(n[0]));
    lemma_digits(n);
}

/// A search gives the documents in which the path leads to the value, and a deletion leaves the
/// others, both in their order.
pub proof fn law_docs_found(docs: Seq<JsonView>, path: Seq<char>, v: JsonView)
    ensures
        docs_where(docs, path, v, true) == docs.filter(|d: JsonView| leads_to(d, path, v)),
        docs_where(docs, path, v, false) == docs.filter(|d: JsonView| !leads_to(d, path, v)),
    decreases docs.len(),
{
    reveal(Seq::filter);
    if docs.len() > 0 {
        law_docs_found(docs.drop_last(), path, v);
    }
    assert(docs_where(docs, path, v, true) =~= docs.filter(|d: JsonView| leads_to(d, path, v)));
    assert(docs_where(docs, path, v, false) =~= docs.filter(|d: JsonView| !leads_to(d, path, v)));
}

/// An update sets one member of each object in which the path leads to the value, leaves its other
/// members and all other documents, and counts the objects that it set.
pub proof fn law_docs_updated(docs: Seq<JsonView>, d: JsonView, path: Seq<char>, v: JsonView, name: Seq<char>, new: JsonView, other: Seq<char>)
    ensures
        ({
            let u = doc_updated(d, path, v, name, new);
            if d is Object && leads_to(d, path, v) {
                &&& u is Object
                &&& member_of(u->Object_0, name) == Some(new)
                &&& other != name ==> member_of(u->Object_0, other) == member_of(d->Object_0, other)
            } else {
                u == d
            }
        }),
        hits(docs, path, v) == docs.filter(|x: JsonView| x is Object && leads_to(x, path, v)).len(),
{
    if d is Object {
        law_member_after_set(d->Object_0, name, new);
        if other != name {
            law_set_leaves_other_members(d->Object_0, name, new, other);
        }
    }
    lemma_hits(docs, path, v);
}

proof fn lemma_hits(docs: Seq<JsonView>, path: Seq<char>, v: JsonView)
    ensures
        hits(docs, path, v) == docs.filter(|x: JsonView| x is Object && leads_to(x, path, v)).len(),
    decreases docs.len(),
{
    reveal(Seq::filter);
    if docs.len() > 0 {
        lemma_hits(docs.drop_last(), path, v);
    }
}

/// An object that is inserted is found under the number that it was given, with its other members as
/// they were; other collections stay, and the next object gets another number.
pub proof fn law_doc_inserted(s: DocsView, collection: Seq<char>, m: Seq<MemberView>, other: Seq<char>, name: Seq<char>)
    requires
        s.names.len() == s.docs.len(),
        s.next_id < u64::MAX,
        other != collection,
        name != "_id"@,
    ensures
        ({
            let t = doc_inserted(s, collection, JsonView::Object(m));
            let docs = docs_in(t, collection);
            &&& docs.len() == docs_in(s, collection).len() + 1
            &&& docs.last() is Object
            &&& member_of(docs.last()->Object_0, "_id"@) == Some(JsonView::Text("doc_"@ + crate::text::nat_text(s.next_id as nat)))
            &&& member_of(docs.last()->Object_0, name) == member_of(m, name)
            &&& docs_in(t, other) == docs_in(s, other)
            &&& t.next_id == s.next_id + 1
        }),
{
    super::doc_engine::law_inserted_is_last(s, collection, JsonView::Object(m));
    let id = JsonView::Text(doc_name(s.next_id));
    law_member_after_set(m, "_id"@, id);
    law_set_leaves_other_members(m, "_id"@, id, name);
    lemma_other_place(s.names, collection, other);
}

proof fn lemma_other_place(names: Seq<Seq<char>>, name: Seq<char>, other: Seq<char>)
    requires
        other != name,
    ensures
        collection_place(names.push(name), other) == collection_place(names, other),
        collection_place(names, name) matches Some(i) ==> 0 <= i < names.len() && names[i] == name,
        collection_place(names, other) matches Some(i) ==> 0 <= i < names.len() && names[i] == other,
    decreases names.len(),
{
    assert(names.push(name).drop_last() =~= names);
    lemma_at(names, name);
    lemma_at(names, other);
}

proof fn lemma_at(names: Seq<Seq<char>>, x: Seq<char>)
    ensures
        collection_place(names, x) matches Some(i) ==> 0 <= i < names.len() && names[i] == x,
    decreases names.len(),
{
    if names.len() > 0 {
        lemma_at(names.drop_last(), x);
    }
}

} // verus!

use vstd::prelude::*;
use vstd::string::*;
use super::json::{Json, JsonView, Member, MemberView, jsons_push, jsons_view, members_push, members_view};

verus! {

/// A JSON value as `serde_json` holds it.
#[verifier::external_body]
pub struct Parsed {
    inner: serde_json::Value,
}

/// What a `Parsed` holds.
pub uninterp spec fn held(p: Parsed) -> JsonView;

/// The value that `serde_json` reads from a text; none where it refuses the text.
pub uninterp spec fn json_of_text(s: Seq<char>) -> Option<JsonView>;

/// The outermost part of a `Parsed`.
pub enum Piece {
    Null,
    Bool(bool),
    Number(String),
    Text(String),
    List(Vec<Parsed>),
    Object(Vec<(String, Parsed)>),
}

pub open spec fn all_held(s: Seq<Parsed>) -> Seq<JsonView> {
    Seq::new(s.len(), |i: int| held(s[i]))
}

pub open spec fn members_held(s: Seq<(String, Parsed)>) -> Seq<MemberView> {
    Seq::new(s.len(), |i: int| MemberView { name: s[i].0@, value: held(s[i].1) })
}

/// `serde_json::from_str`, which reads a text as a value: what it gives is the same for the same
/// text. What that is for a given text is left unsaid, and so is how a refusal is worded.
#[verifier::external_body]
fn parse_json(s: &str) -> (r: Result<Parsed, String>)
    ensures
        (match r { Ok(p) => Some(held(p)), Err(_) => None }) == json_of_text(s@),
{
    match serde_json::from_str(s) {
        Ok(inner) => Ok(Parsed { inner }),
        Err(e) => Err(e.to_string()),
    }
}

/// The variants of `serde_json::Value`, told apart: each holds what the value holds. A number is
/// given as `serde_json::Number` writes it, and the members of an object in the order of its map.
#[verifier::external_body]
fn open_json(p: &Parsed) -> (r: Piece)
    ensures
        match r {
            Piece::Null => held(*p) == JsonView::Null,
            Piece::Bool(b) => held(*p) == JsonView::Bool(b),
            Piece::Number(n) => held(*p) == JsonView::Number(n@),
            Piece::Text(t) => held(*p) == JsonView::Text(t@),
            Piece::List(l) => held(*p) == JsonView::List(all_held(l@)),
            Piece::Object(m) => held(*p) == JsonView::Object(members_held(m@)),
        },
{
    match p.inner.clone() {
        serde_json::Value::Null => Piece::Null,
        serde_json::Value::Bool(b) => Piece::Bool(b),
        serde_json::Value::Number(n) => Piece::Number(n.to_string()),
        serde_json::Value::String(t) => Piece::Text(t),
        serde_json::Value::Array(a) => Piece::List(a.into_iter().map(|inner| Parsed { inner }).collect()),
        serde_json::Value::Object(m) => Piece::Object(m.into_iter().map(|(k, inner)| (k, Parsed { inner })).collect()),
    }
}

fn make_json(p: &Parsed) -> (r: Json)
    ensures
        r@ == held(*p),
    decreases held(*p),
{
    match open_json(p) {
        Piece::Null => Json::Null,
        Piece::Bool(b) => Json::Bool(b),
        Piece::Number(n) => Json::Number(n),
        Piece::Text(t) => Json::Text(t),
        Piece::List(l) => {
            let ghost all = all_held(l@);
            let mut v: Vec<Json> = Vec::new();
            let mut i: usize = 0;
            assert(jsons_view(v@) =~= all.take(0));
            while i < l.len()
                invariant
                    i <= l.len(),
                    held(*p) == JsonView::List(all_held(l@)),
                    all == all_held(l@),
                    jsons_view(v@) == all.take(i as int),
                decreases l.len() - i,
            {
                assert(all[i as int] == held(l@[i as int]));
                assert(decreases_to!(held(*p) => held(*p)->List_0));
                assert(decreases_to!(held(*p)->List_0 => held(*p)->List_0[i as int]));
                let j = make_json(&l[i]);
                proof {
                    jsons_push(v@, j);
                    assert(all.take(i + 1) =~= all.take(i as int).push(j@));
                }
                v.push(j);
                i = i + 1;
            }
            assert(all.take(l.len() as int) =~= all);
            Json::List(v)
        },
        Piece::Object(m) => {
            let ghost all = members_held(m@);
            let mut v: Vec<Member> = Vec::new();
            let mut i: usize = 0;
            assert(members_view(v@) =~= all.take(0));
            while i < m.len()
                invariant
                    i <= m.len(),
                    held(*p) == JsonView::Object(members_held(m@)),
                    all == members_held(m@),
                    members_view(v@) == all.take(i as int),
                decreases m.len() - i,
            {
                assert(all[i as int] == (MemberView { name: m@[i as int].0@, value: held(m@[i as int].1) }));
                assert(decreases_to!(held(*p) => held(*p)->Object_0));
                assert(decreases_to!(held(*p)->Object_0 => held(*p)->Object_0[i as int]));
                assert(decreases_to!(held(*p)->Object_0[i as int] => held(*p)->Object_0[i as int].value));
                let x = Member { name: m[i].0.clone(), value: make_json(&m[i].1) };
                proof {
                    members_push(v@, x);
                    assert(all.take(i + 1) =~= all.take(i as int).push(x@));
                }
                v.push(x);
                i = i + 1;
            }
            assert(all.take(m.len() as int) =~= all);
            Json::Object(v)
        },
    }
}

/// Reads a text as a JSON value, or says why it is none.
pub fn read_json(s: &str) -> (r: Result<Json, String>)
    ensures
        (match r { Ok(j) => Some(j@), Err(_) => None }) == json_of_text(s@),
{
    match parse_json(s) {
        Ok(p) => Ok(make_json(&p)),
        Err(e) => Err(e),
    }
}

} // verus!

use vstd::prelude::*;
use vstd::string::*;

verus! {

/// A JSON value. A number is held as it is written.
#[derive(Debug)]
pub enum Json {
    Null,
    Bool(bool),
    Number(String),
    Text(String),
    List(Vec<Json>),
    Object(Vec<Member>),
}

/// What contracts say about a `Json`.
pub enum JsonView {
    Null,
    Bool(bool),
    Number(Seq<char>),
    Text(Seq<char>),
    List(Seq<JsonView>),
    Object(Seq<MemberView>),
}

impl Json {
    pub open spec fn view(&self) -> JsonView
        decreases self,
    {
        match self {
            Json::Null => JsonView::Null,
            Json::Bool(a) => JsonView::Bool(*a),
            Json::Number(a) => JsonView::Number(a@),
            Json::Text(a) => JsonView::Text(a@),
            Json::List(a) => JsonView::List(jsons_view(a@)),
            Json::Object(a) => JsonView::Object(members_view(a@)),
        }
    }

    /// A copy of the whole value.
    pub fn dup(&self) -> (r: Json)
        ensures
            r@ == self@,
        decreases self,
    {
        match self {
            Json::Null => Json::Null,
            Json::Bool(a) => Json::Bool(*a),
            Json::Number(a) => Json::Number(a.clone()),
            Json::Text(a) => Json::Text(a.clone()),
            Json::List(a) => Json::List(dup_jsons(a)),
            Json::Object(a) => Json::Object(dup_members(a)),
        }
    }
}

impl Clone for Json {
    fn clone(&self) -> (r: Self)
        ensures
            r@ == self@,
    {
        self.dup()
    }
}

/// A member of a JSON object.
#[derive(Debug)]
pub struct Member {
    pub name: String,
    pub value: Json,
}

/// What contracts say about a `Member`.
pub struct MemberView {
    pub name: Seq<char>,
    pub value: JsonView,
}

impl Member {
    pub open spec fn view(&self) -> MemberView
        decreases self,
    {
        MemberView {
            name: self.name@,
            value: self.value@,
        }
    }

    /// A copy of the whole value.
    pub fn dup(&self) -> (r: Member)
        ensures
            r@ == self@,
        decreases self,
    {
        Member {
            name: self.name.clone(),
            value: self.value.dup(),
        }
    }
}

impl Clone for Member {
    fn clone(&self) -> (r: Self)
        ensures
            r@ == self@,
    {
        self.dup()
    }
}

/// The views of a sequence, item by item.
pub open spec fn jsons_view(s: Seq<Json>) -> Seq<JsonView>
    decreases s,
{
    Seq::new(s.len(), |i: int| if 0 <= i < s.len() { s[i]@ } else { arbitrary() })
}

pub broadcast proof fn jsons_push(s: Seq<Json>, e: Json)
    ensures
        #[trigger] jsons_view(s.push(e)) == jsons_view(s).push(e@),
{
    assert(jsons_view(s.push(e)) =~= jsons_view(s).push(e@));
}

/// A copy of a list, item by item.
pub fn dup_jsons(v: &Vec<Json>) -> (r: Vec<Json>)
    ensures
        jsons_view(r@) == jsons_view(v@),
    decreases v,
{
    let mut r: Vec<Json> = Vec::new();
    let mut i: usize = 0;
    while i < v.len()
        invariant
            i <= v.len(),
            jsons_view(r@) == jsons_view(v@).take(i as int),
        decreases v.len() - i,
    {
        let e = v[i].dup();
        proof {
            jsons_push(r@, e);
            assert(jsons_view(v@).take(i + 1) =~= jsons_view(v@).take(i as int).push(v@[i as int]@));
        }
        r.push(e);
        i = i + 1;
    }
    assert(jsons_view(v@).take(v@.len() as int) =~= jsons_view(v@));
    r
}

/// The views of a sequence, item by item.
pub open spec fn members_view(s: Seq<Member>) -> Seq<MemberView>
    decreases s,
{
    Seq::new(s.len(), |i: int| if 0 <= i < s.len() { s[i]@ } else { arbitrary() })
}

pub broadcast proof fn members_push(s: Seq<Member>, e: Member)
    ensures
        #[trigger] members_view(s.push(e)) == members_view(s).push(e@),
{
    assert(members_view(s.push(e)) =~= members_view(s).push(e@));
}

/// A copy of a list, item by item.
pub fn dup_members(v: &Vec<Member>) -> (r: Vec<Member>)
    ensures
        members_view(r@) == members_view(v@),
    decreases v,
{
    let mut r: Vec<Member> = Vec::new();
    let mut i: usize = 0;
    while i < v.len()
        invariant
            i <= v.len(),
            members_view(r@) == members_view(v@).take(i as int),
        decreases v.len() - i,
    {
        let e = v[i].dup();
        proof {
            members_push(r@, e);
            assert(members_view(v@).take(i + 1) =~= members_view(v@).take(i as int).push(v@[i as int]@));
        }
        r.push(e);
        i = i + 1;
    }
    assert(members_view(v@).take(v@.len() as int) =~= members_view(v@));
    r
}

} // verus!

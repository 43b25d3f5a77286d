use vstd::prelude::*;
use vstd::string::*;
use crate::executor::scalar::order_texts;
use crate::executor::show::name_order;
use crate::text::{chars_of, string_of, text_is};
use crate::value::{Order, names_push, names_view};
use super::json::{Json, JsonView, Member, MemberView, jsons_view, members_view};

verus! {

// ---- objects

/// The place of the member of a name.
pub open spec fn member_place(m: Seq<MemberView>, name: Seq<char>) -> Option<int>
    decreases m.len(),
{
    if m.len() == 0 {
        None
    } else {
        match member_place(m.drop_last(), name) {
            Some(i) => Some(i),
            None => if m.last().name == name {
                Some(m.len() - 1)
            } else {
                None
            },
        }
    }
}

/// The value of the member of a name.
pub open spec fn member_of(m: Seq<MemberView>, name: Seq<char>) -> Option<JsonView> {
    match member_place(m, name) {
        Some(i) => Some(m[i].value),
        None => None,
    }
}

/// The members with a new one, which comes before those whose names come after its own.
pub open spec fn member_added(m: Seq<MemberView>, x: MemberView) -> Seq<MemberView>
    decreases m.len(),
{
    if m.len() > 0 && name_order(m.last().name, x.name) == Order::Greater {
        member_added(m.drop_last(), x).push(m.last())
    } else {
        m.push(x)
    }
}

/// The members with a value under a name.
pub open spec fn with_member(m: Seq<MemberView>, name: Seq<char>, value: JsonView) -> Seq<MemberView> {
    match member_place(m, name) {
        Some(i) => m.update(i, MemberView { name, value }),
        None => member_added(m, MemberView { name, value }),
    }
}

proof fn lemma_member_place(m: Seq<MemberView>, name: Seq<char>)
    ensures
        match member_place(m, name) {
            Some(i) => 0 <= i < m.len() && m[i].name == name,
            None => forall|i: int| 0 <= i < m.len() ==> (#[trigger] m[i]).name != name,
        },
    decreases m.len(),
{
    if m.len() > 0 {
        lemma_member_place(m.drop_last(), name);
        if member_place(m, name) is None {
            assert forall|i: int| 0 <= i < m.len() implies (#[trigger] m[i]).name != name by {
                if i < m.len() - 1 {
                    assert(m.drop_last()[i] == m[i]);
                }
            }
        }
    }
}

fn find_member(m: &Vec<Member>, name: &str) -> (r: Option<usize>)
    ensures
        (match r { Some(i) => Some(i as int), None => None }) == member_place(members_view(m@), name@),
        r matches Some(i) ==> i < m@.len(),
{
    let ghost all = members_view(m@);
    let mut r: Option<usize> = None;
    let mut i: usize = 0;
    assert(all.take(0).len() == 0);
    while i < m.len()
        invariant
            i <= m.len(),
            all == members_view(m@),
            (match r { Some(i) => Some(i as int), None => None }) == member_place(all.take(i as int), name@),
            r matches Some(j) ==> j < m@.len(),
        decreases m.len() - i,
    {
        proof {
            assert(all.take(i + 1).drop_last() =~= all.take(i as int));
            assert(all.take(i + 1).last() == m@[i as int]@);
        }
        if r.is_none() && text_is(m[i].name.as_str(), name) {
            r = Some(i);
        }
        i = i + 1;
    }
    assert(all.take(m.len() as int) =~= all);
    r
}

fn add_member(m: &mut Vec<Member>, x: Member)
    ensures
        members_view(final(m)@) == member_added(members_view(old(m)@), x@),
{
    let ghost all = members_view(m@);
    let mut i: usize = m.len();
    proof {
        assert(all.take(i as int) =~= all);
        assert(member_added(all, x@) + all.skip(i as int) =~= member_added(all, x@));
    }
    let mut searching = true;
    while searching && i > 0
        invariant
            i <= m.len(),
            *m == *old(m),
            all == members_view(m@),
            member_added(all, x@) == member_added(all.take(i as int), x@) + all.skip(i as int),
            !searching ==> member_added(all.take(i as int), x@) == all.take(i as int).push(x@),
        decreases i, if searching { 1int } else { 0int },
    {
        assert(all.take(i as int).drop_last() =~= all.take(i - 1));
        assert(all.take(i as int).last() == all[i - 1]);
        match order_texts(m[i - 1].name.as_str(), x.name.as_str()) {
            Order::Greater => {
                proof {
                    let w = member_added(all.take(i - 1), x@);
                    assert(w.push(all[i - 1]) + all.skip(i as int) =~= w + all.skip(i - 1));
                }
                i = i - 1;
            },
            _ => {
                searching = false;
            },
        }
    }
    proof {
        assert(member_added(all.take(i as int), x@) =~= all.take(i as int).push(x@));
        assert(all.take(i as int).push(x@) + all.skip(i as int) =~= all.insert(i as int, x@));
    }
    m.insert(i, x);
    assert(members_view(m@) =~= all.insert(i as int, x@));
}

/// Sets the member of a name.
pub fn set_member(m: &mut Vec<Member>, name: &str, value: Json)
    ensures
        members_view(final(m)@) == with_member(members_view(old(m)@), name@, value@),
{
    let ghost all = members_view(m@);
    let x = Member { name: name.to_string(), value };
    match find_member(m, name) {
        Some(i) => {
            m.set(i, x);
            assert(members_view(m@) =~= all.update(i as int, x@));
        },
        None => {
            add_member(m, x);
        },
    }
}

// ---- paths

/// The parts of a path between its dots.
pub open spec fn path_parts(s: Seq<char>) -> Seq<Seq<char>>
    decreases s.len(),
{
    if s.len() == 0 {
        seq![Seq::empty()]
    } else {
        let p = path_parts(s.drop_last());
        if s.last() == '.' {
            p.push(Seq::empty())
        } else {
            p.drop_last().push(p.last().push(s.last()))
        }
    }
}

/// Whether a part stands in square brackets.
pub open spec fn bracketed(s: Seq<char>) -> bool {
    s.len() >= 2 && s[0] == '[' && s.last() == ']'
}

/// The number that digits write out, behind a plus sign or none.
pub open spec fn index_number(s: Seq<char>) -> Option<nat> {
    digits_number(if s.len() > 0 && s[0] == '+' {
        s.skip(1)
    } else {
        s
    })
}

pub open spec fn digits_number(s: Seq<char>) -> Option<nat>
    decreases s.len(),
{
    if s.len() == 0 {
        None
    } else if !('0' <= s.last() <= '9') {
        None
    } else if s.len() == 1 {
        Some((s.last() as nat - '0' as nat) as nat)
    } else {
        match digits_number(s.drop_last()) {
            Some(n) => Some(n * 10 + (s.last() as nat - '0' as nat) as nat),
            None => None,
        }
    }
}

/// What one part of a path leads to: the item of a list by its number in brackets, the member of an
/// object by its name.
pub open spec fn path_step(d: JsonView, part: Seq<char>) -> Option<JsonView> {
    if bracketed(part) {
        match index_number(part.subrange(1, part.len() - 1)) {
            None => None,
            Some(i) => match d {
                JsonView::List(l) => if i < l.len() {
                    Some(l[i as int])
                } else {
                    None
                },
                _ => None,
            },
        }
    } else {
        match d {
            JsonView::Object(m) => member_of(m, part),
            _ => None,
        }
    }
}

/// What the parts of a path lead to.
pub open spec fn at_parts(d: JsonView, parts: Seq<Seq<char>>) -> Option<JsonView>
    decreases parts.len(),
{
    if parts.len() == 0 {
        Some(d)
    } else {
        match at_parts(d, parts.drop_last()) {
            Some(x) => path_step(x, parts.last()),
            None => None,
        }
    }
}

/// What a path leads to.
pub open spec fn at_path(d: JsonView, path: Seq<char>) -> Option<JsonView> {
    at_parts(d, path_parts(path))
}

fn split_path(path: &str) -> (r: Vec<String>)
    ensures
        names_view(r@) == path_parts(path@),
        r@.len() > 0,
{
    let v = chars_of(path);
    let mut done: Vec<String> = Vec::new();
    let mut from: usize = 0;
    let mut i: usize = 0;
    proof {
        assert(v@.take(0).len() == 0);
        assert(v@.subrange(0, 0) =~= Seq::<char>::empty());
        assert(names_view(done@).push(v@.subrange(0, 0)) =~= seq![Seq::<char>::empty()]);
    }
    while i < v.len()
        invariant
            from <= i <= v.len(),
            v@ == path@,
            path_parts(v@.take(i as int)) == names_view(done@).push(v@.subrange(from as int, i as int)),
        decreases v.len() - i,
    {
        let ghost p = path_parts(v@.take(i as int));
        proof {
            assert(v@.take(i + 1).drop_last() =~= v@.take(i as int));
            assert(v@.take(i + 1).last() == v@[i as int]);
            assert(p.drop_last() =~= names_view(done@));
            assert(p.last() == v@.subrange(from as int, i as int));
        }
        if v[i] == '.' {
            let part = string_of(&v, from, i);
            let ghost before = done@;
            proof {
                names_push(before, part);
            }
            done.push(part);
            from = i + 1;
            proof {
                assert(v@.subrange(i + 1, i + 1) =~= Seq::empty());
                assert(names_view(done@) =~= p);
            }
        } else {
            assert(v@.subrange(from as int, i + 1) =~= v@.subrange(from as int, i as int).push(v@[i as int]));
        }
        i = i + 1;
    }
    assert(v@.take(v.len() as int) =~= v@);
    let part = string_of(&v, from, v.len());
    proof {
        names_push(done@, part);
    }
    done.push(part);
    done
}

/// Reads a number; one that no list could be as long as counts as the largest.
fn read_index(v: &Vec<char>, from: usize, to: usize) -> (r: Option<usize>)
    requires
        from <= to <= v@.len(),
    ensures
        match r {
            Some(n) => digits_number(v@.subrange(from as int, to as int)) matches Some(k) && (if k <= usize::MAX {
                n == k
            } else {
                n == usize::MAX
            }),
            None => digits_number(v@.subrange(from as int, to as int)) is None,
        },
{
    if from >= to {
        return None;
    }
    let ghost all = v@.subrange(from as int, to as int);
    let mut n: usize = 0;
    let mut i: usize = from;
    while i < to
        invariant
            from <= i <= to,
            to <= v@.len(),
            all == v@.subrange(from as int, to as int),
            i > from ==> (digits_number(all.take(i - from)) matches Some(k) && (if k <= usize::MAX {
                n == k
            } else {
                n == usize::MAX
            })),
            i == from ==> n == 0,
        decreases to - i,
    {
        proof {
            assert(all.take(i + 1 - from).drop_last() =~= all.take(i - from));
            assert(all.take(i + 1 - from).last() == v@[i as int]);
        }
        if !('0' <= v[i] && v[i] <= '9') {
            proof {
                lemma_digits_stop(all, i + 1 - from);
            }
            return None;
        }
        let d = (v[i] as u32 - 48) as usize;
        n = if n > (usize::MAX - d) / 10 {
            usize::MAX
        } else {
            n * 10 + d
        };
        i = i + 1;
    }
    assert(all.take(to - from) =~= all);
    Some(n)
}

proof fn lemma_digits_stop(s: Seq<char>, k: int)
    requires
        0 < k <= s.len(),
        digits_number(s.take(k)) is None,
    ensures
        digits_number(s) is None,
    decreases s.len() - k,
{
    if k < s.len() {
        assert(s.take(k + 1).drop_last() =~= s.take(k));
        lemma_digits_stop(s, k + 1);
    } else {
        assert(s.take(k) =~= s);
    }
}

fn take_step<'a>(d: &'a Json, part: &str) -> (r: Option<&'a Json>)
    ensures
        (match r { Some(x) => Some(x@), None => None }) == path_step(d@, part@),
{
    let v = chars_of(part);
    if v.len() >= 2 && v[0] == '[' && v[v.len() - 1] == ']' {
        let from: usize = if v.len() > 2 && v[1] == '+' {
            2
        } else {
            1
        };
        proof {
            let inner = part@.subrange(1, part@.len() - 1);
            assert(inner.len() > 0 ==> inner[0] == part@[1]);
            if from == 2 {
                assert(inner.skip(1) =~= part@.subrange(2, part@.len() - 1));
            } else if inner.len() > 0 {
                assert(inner[0] != '+');
            }
        }
        let i = match read_index(&v, from, v.len() - 1) {
            Some(i) => i,
            None => {
                return None;
            },
        };
        match d {
            Json::List(l) => {
                assert(jsons_view(l@).len() == l@.len());
                if i < l.len() {
                    Some(&l[i])
                } else {
                    None
                }
            },
            _ => None,
        }
    } else {
        match d {
            Json::Object(m) => match find_member(m, part) {
                Some(i) => {
                    assert(members_view(m@)[i as int] == m@[i as int]@);
                    Some(&m[i].value)
                },
                None => None,
            },
            _ => None,
        }
    }
}

proof fn lemma_parts_stop(d: JsonView, parts: Seq<Seq<char>>, k: int)
    requires
        0 <= k <= parts.len(),
        at_parts(d, parts.take(k)) is None,
    ensures
        at_parts(d, parts) is None,
    decreases parts.len() - k,
{
    if k < parts.len() {
        assert(parts.take(k + 1).drop_last() =~= parts.take(k));
        lemma_parts_stop(d, parts, k + 1);
    } else {
        assert(parts.take(k) =~= parts);
    }
}

/// Follows a path into a document.
pub fn evaluate_path(doc: &Json, path: &str) -> (r: Option<Json>)
    ensures
        (match r { Some(x) => Some(x@), None => None }) == at_path(doc@, path@),
{
    let parts = split_path(path);
    let ghost all = names_view(parts@);
    let mut d = doc;
    let mut i: usize = 0;
    assert(all.take(0).len() == 0);
    while i < parts.len()
        invariant
            i <= parts.len(),
            all == names_view(parts@),
            all == path_parts(path@),
            at_parts(doc@, all.take(i as int)) == Some(d@),
        decreases parts.len() - i,
    {
        proof {
            assert(all.take(i + 1).drop_last() =~= all.take(i as int));
            assert(all.take(i + 1).last() == parts@[i as int]@);
        }
        match take_step(d, parts[i].as_str()) {
            Some(x) => {
                d = x;
            },
            None => {
                proof {
                    lemma_parts_stop(doc@, all, i + 1);
                }
                return None;
            },
        }
        i = i + 1;
    }
    assert(all.take(parts.len() as int) =~= all);
    Some(d.dup())
}

/// A document with a value where names lead to, and whether they lead into objects all the way.
/// Objects that are missing on the way are made.
pub open spec fn set_parts(d: JsonView, parts: Seq<Seq<char>>, v: JsonView) -> (JsonView, bool)
    decreases parts.len(),
{
    match d {
        JsonView::Object(m) => if parts.len() == 0 {
            (d, false)
        } else if parts.len() == 1 {
            (JsonView::Object(with_member(m, parts[0], v)), true)
        } else {
            let inner = match member_of(m, parts[0]) {
                Some(x) => x,
                None => JsonView::Object(Seq::empty()),
            };
            let r = set_parts(inner, parts.skip(1), v);
            (JsonView::Object(with_member(m, parts[0], r.0)), r.1)
        },
        _ => (d, false),
    }
}

fn put_parts(d: Json, parts: &Vec<String>, i: usize, v: Json) -> (r: (Json, bool))
    requires
        i <= parts@.len(),
    ensures
        (r.0@, r.1) == set_parts(d@, names_view(parts@).skip(i as int), v@),
    decreases parts@.len() - i,
{
    let ghost rest = names_view(parts@).skip(i as int);
    assert(names_view(parts@).len() == parts@.len());
    match d {
        Json::Object(m) => {
            if i == parts.len() {
                return (Json::Object(m), false);
            }
            proof {
                assert(rest[0] == parts@[i as int]@);
                assert(rest.skip(1) =~= names_view(parts@).skip(i + 1));
            }
            let mut m = m;
            if i + 1 == parts.len() {
                set_member(&mut m, parts[i].as_str(), v);
                return (Json::Object(m), true);
            }
            let inner = match find_member(&m, parts[i].as_str()) {
                Some(k) => {
                    assert(members_view(m@)[k as int] == m@[k as int]@);
                    m[k].value.dup()
                },
                None => {
                    let none: Vec<Member> = Vec::new();
                    assert(members_view(none@) =~= Seq::empty());
                    Json::Object(none)
                },
            };
            let (n, ok) = put_parts(inner, parts, i + 1, v);
            set_member(&mut m, parts[i].as_str(), n);
            (Json::Object(m), ok)
        },
        other => (other, false),
    }
}

/// Sets what a path of names leads to; says whether it leads into objects all the way.
pub fn set_path(doc: &mut Json, path: &str, value: Json) -> (r: bool)
    ensures
        (final(doc)@, r) == set_parts(old(doc)@, path_parts(path@), value@),
{
    let parts = split_path(path);
    let mut d = Json::Null;
    std::mem::swap(&mut d, doc);
    assert(names_view(parts@).skip(0) =~= names_view(parts@));
    let (n, ok) = put_parts(d, &parts, 0, value);
    *doc = n;
    ok
}

// ---- what paths keep

proof fn lemma_added(m: Seq<MemberView>, x: MemberView)
    requires
        member_place(m, x.name) is None,
    ensures
        member_of(member_added(m, x), x.name) == Some(x.value),
    decreases m.len(),
{
    lemma_member_place(m, x.name);
    if m.len() > 0 && name_order(m.last().name, x.name) == Order::Greater {
        let d = m.drop_last();
        lemma_added(d, x);
        let w = member_added(d, x);
        lemma_member_place(w, x.name);
        assert(w.push(m.last()).drop_last() =~= w);
    } else {
        assert(m.push(x).drop_last() =~= m);
    }
}

/// A member that was set is read back.
pub proof fn law_member_after_set(m: Seq<MemberView>, name: Seq<char>, v: JsonView)
    ensures
        member_of(with_member(m, name, v), name) == Some(v),
{
    lemma_member_place(m, name);
    match member_place(m, name) {
        Some(i) => {
            lemma_same_names(m, m.update(i, MemberView { name, value: v }), name);
        },
        None => {
            lemma_added(m, MemberView { name, value: v });
        },
    }
}

proof fn lemma_same_names(a: Seq<MemberView>, b: Seq<MemberView>, name: Seq<char>)
    requires
        a.len() == b.len(),
        forall|i: int| 0 <= i < a.len() ==> (#[trigger] a[i]).name == (#[trigger] b[i]).name,
    ensures
        member_place(a, name) == member_place(b, name),
    decreases a.len(),
{
    if a.len() > 0 {
        assert(a.last().name == b.last().name) by {
            assert(a[a.len() - 1].name == b[b.len() - 1].name);
        }
        lemma_same_names(a.drop_last(), b.drop_last(), name);
    }
}

proof fn lemma_from_front(d: JsonView, parts: Seq<Seq<char>>)
    requires
        parts.len() > 0,
    ensures
        at_parts(d, parts) == (match path_step(d, parts[0]) {
            Some(x) => at_parts(x, parts.skip(1)),
            None => None,
        }),
    decreases parts.len(),
{
    if parts.len() == 1 {
        assert(parts.drop_last() =~= Seq::empty());
        assert(parts.skip(1) =~= Seq::empty());
        assert(at_parts(d, parts.drop_last()) == Some(d));
    } else {
        lemma_from_front(d, parts.drop_last());
        assert(parts.skip(1).drop_last() =~= parts.drop_last().skip(1));
        assert(parts.skip(1).last() == parts.last());
    }
}

/// What was set under a path of names is what the path leads to.
pub proof fn law_read_after_set_path(d: JsonView, parts: Seq<Seq<char>>, v: JsonView)
    requires
        set_parts(d, parts, v).1,
        forall|i: int| 0 <= i < parts.len() ==> !bracketed(#[trigger] parts[i]),
    ensures
        at_parts(set_parts(d, parts, v).0, parts) == Some(v),
    decreases parts.len(),
{
    let m = d->Object_0;
    let r = set_parts(d, parts, v).0;
    lemma_from_front(r, parts);
    assert(!bracketed(parts[0]));
    if parts.len() == 1 {
        law_member_after_set(m, parts[0], v);
        assert(parts.skip(1) =~= Seq::empty());
    } else {
        let inner = match member_of(m, parts[0]) {
            Some(x) => x,
            None => JsonView::Object(Seq::empty()),
        };
        let rest = parts.skip(1);
        assert forall|i: int| 0 <= i < rest.len() implies !bracketed(#[trigger] rest[i]) by {
            assert(rest[i] == parts[i + 1]);
        }
        law_read_after_set_path(inner, rest, v);
        law_member_after_set(m, parts[0], set_parts(inner, rest, v).0);
    }
}

proof fn lemma_added_other(m: Seq<MemberView>, x: MemberView, name: Seq<char>)
    requires
        name != x.name,
    ensures
        member_of(member_added(m, x), name) == member_of(m, name),
    decreases m.len(),
{
    if m.len() > 0 && name_order(m.last().name, x.name) == Order::Greater {
        let d = m.drop_last();
        lemma_added_other(d, x, name);
        let w = member_added(d, x);
        lemma_member_place(w, name);
        lemma_member_place(d, name);
        assert(w.push(m.last()).drop_last() =~= w);
    } else {
        lemma_member_place(m, name);
        assert(m.push(x).drop_last() =~= m);
    }
}

/// Setting a member leaves the others alone.
pub proof fn law_set_leaves_other_members(m: Seq<MemberView>, name: Seq<char>, v: JsonView, other: Seq<char>)
    requires
        other != name,
    ensures
        member_of(with_member(m, name, v), other) == member_of(m, other),
{
    lemma_member_place(m, name);
    lemma_member_place(m, other);
    match member_place(m, name) {
        Some(i) => {
            lemma_same_names(m, m.update(i, MemberView { name, value: v }), other);
        },
        None => {
            lemma_added_other(m, MemberView { name, value: v }, other);
        },
    }
}

proof fn lemma_fresh_path(parts: Seq<Seq<char>>, v: JsonView)
    requires
        parts.len() > 0,
    ensures
        set_parts(JsonView::Object(Seq::empty()), parts, v).1,
    decreases parts.len(),
{
    if parts.len() > 1 {
        lemma_fresh_path(parts.skip(1), v);
    }
}

/// A path that is refused, since it leads through something that is no object, leaves the document as
/// it was.
pub proof fn law_refused_path_changes_nothing(d: JsonView, parts: Seq<Seq<char>>, v: JsonView)
    requires
        !set_parts(d, parts, v).1,
    ensures
        set_parts(d, parts, v).0 == d,
    decreases parts.len(),
{
    if d is Object && parts.len() > 1 {
        let m = d->Object_0;
        lemma_member_place(m, parts[0]);
        match member_place(m, parts[0]) {
            Some(i) => {
                law_refused_path_changes_nothing(m[i].value, parts.skip(1), v);
                assert(with_member(m, parts[0], m[i].value) =~= m);
            },
            None => {
                lemma_fresh_path(parts.skip(1), v);
            },
        }
    }
}

/// What lies off the path is left alone: a path that parts from the one that was set, at its part
/// `k`, leads to what it led to before.
pub proof fn law_set_path_leaves_others(d: JsonView, parts: Seq<Seq<char>>, v: JsonView, other: Seq<Seq<char>>, k: int)
    requires
        0 <= k < parts.len(),
        k < other.len(),
        parts.take(k) == other.take(k),
        parts[k] != other[k],
        forall|i: int| 0 <= i < parts.len() ==> !bracketed(#[trigger] parts[i]),
    ensures
        at_parts(set_parts(d, parts, v).0, other) == at_parts(d, other),
    decreases k,
{
    let r = set_parts(d, parts, v).0;
    lemma_from_front(r, other);
    lemma_from_front(d, other);
    if d is Object {
        let m = d->Object_0;
        if k == 0 {
            let x = if parts.len() == 1 {
                v
            } else {
                set_parts(
                    match member_of(m, parts[0]) {
                        Some(x) => x,
                        None => JsonView::Object(Seq::empty()),
                    },
                    parts.skip(1),
                    v,
                ).0
            };
            law_set_leaves_other_members(m, parts[0], x, other[0]);
        } else {
            assert(parts.take(k)[0] == other.take(k)[0]);
            assert(parts[0] == other[0]);
            assert(!bracketed(parts[0]));
            let rest = parts.skip(1);
            let off = other.skip(1);
            let inner = match member_of(m, parts[0]) {
                Some(x) => x,
                None => JsonView::Object(Seq::empty()),
            };
            assert forall|i: int| 0 <= i < rest.len() implies !bracketed(#[trigger] rest[i]) by {
                assert(rest[i] == parts[i + 1]);
            }
            assert(rest.take(k - 1) =~= parts.take(k).skip(1));
            assert(off.take(k - 1) =~= other.take(k).skip(1));
            law_set_path_leaves_others(inner, rest, v, off, k - 1);
            law_member_after_set(m, parts[0], set_parts(inner, rest, v).0);
            if member_of(m, parts[0]) is None {
                lemma_from_front(inner, off);
            }
        }
    }
}

} // verus!

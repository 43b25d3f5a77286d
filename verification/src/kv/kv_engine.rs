use vstd::prelude::*;
use vstd::string::*;
use crate::error::Result;
use crate::executor::keys::{key_order, order_keys};
use crate::executor::rows::{Rows, del, del_row, find_place, get_row, law_del_keeps_order, law_del_leaves_others, law_put_keeps_order, law_put_leaves_others, law_read_after_del, law_read_after_put, put, put_row, row_of, well_kept};
use crate::value::{Order, Value, ValueView, rows_view, values_view};

verus! {

/// Texts under keys, in the order of the keys.
#[derive(Debug)]
pub struct KvEngine {
    keys: Vec<Vec<Value>>,
    values: Vec<Vec<Value>>,
}

/// A text as a row.
pub open spec fn text_row(s: Seq<char>) -> Seq<ValueView> {
    seq![ValueView::Text(s)]
}

/// The text of a row.
pub open spec fn row_text(r: Seq<ValueView>) -> Seq<char> {
    if r.len() > 0 {
        match r[0] {
            ValueView::Text(s) => s,
            _ => Seq::empty(),
        }
    } else {
        Seq::empty()
    }
}

/// The text under a key.
pub open spec fn value_under(r: Rows, k: Seq<char>) -> Option<Seq<char>> {
    match row_of(r, text_row(k)) {
        Some(v) => Some(row_text(v)),
        None => None,
    }
}

pub open spec fn pairs_view(s: Seq<(String, String)>) -> Seq<(Seq<char>, Seq<char>)> {
    Seq::new(s.len(), |i: int| (s[i].0@, s[i].1@))
}

/// Whether a key lies between two others or is one of them.
pub open spec fn between(k: Seq<ValueView>, start: Seq<char>, end: Seq<char>) -> bool {
    key_order(k, text_row(start), 0) != Order::Less && key_order(k, text_row(end), 0) != Order::Greater
}

/// The keys from one to another with their texts, in order, from the first `n` entries.
pub open spec fn entries_between(r: Rows, start: Seq<char>, end: Seq<char>, n: nat) -> Seq<(Seq<char>, Seq<char>)>
    decreases n,
{
    if n == 0 {
        Seq::empty()
    } else {
        let before = entries_between(r, start, end, (n - 1) as nat);
        if between(r.keys[n - 1], start, end) {
            before.push((row_text(r.keys[n - 1]), row_text(r.rows[n - 1])))
        } else {
            before
        }
    }
}

fn make_row(s: &str) -> (r: Vec<Value>)
    ensures
        values_view(r@) == text_row(s@),
{
    let mut r: Vec<Value> = Vec::new();
    r.push(Value::Text(s.to_string()));
    assert(values_view(r@) =~= text_row(s@));
    r
}

fn read_text(r: &Vec<Value>) -> (s: String)
    ensures
        s@ == row_text(values_view(r@)),
{
    proof {
        reveal_strlit("");
        assert(values_view(r@).len() == r@.len());
        assert(""@ =~= Seq::<char>::empty());
    }
    if r.len() > 0 {
        match &r[0] {
            Value::Text(s) => s.clone(),
            _ => "".to_string(),
        }
    } else {
        "".to_string()
    }
}

impl KvEngine {
    pub closed spec fn view(&self) -> Rows {
        Rows { keys: rows_view(self.keys@), rows: rows_view(self.values@) }
    }

    pub closed spec fn wf(&self) -> bool {
        self.keys@.len() == self.values@.len() && well_kept(self@)
    }

    pub fn new() -> (r: KvEngine)
        ensures
            r.wf(),
            r@ == (Rows { keys: Seq::empty(), rows: Seq::empty() }),
    {
        let r = KvEngine { keys: Vec::new(), values: Vec::new() };
        assert(r@.keys =~= Seq::empty());
        assert(r@.rows =~= Seq::empty());
        r
    }

    pub fn get(&self, key: &str) -> (r: Result<Option<String>>)
        requires
            self.wf(),
        ensures
            r matches Ok(v) && (match v { Some(s) => Some(s@), None => None }) == value_under(self@, key@),
    {
        let k = make_row(key);
        match get_row(&self.keys, &self.values, &k) {
            Some(v) => Ok(Some(read_text(&v))),
            None => Ok(None),
        }
    }

    pub fn set(&mut self, key: &str, value: &str) -> (r: Result<()>)
        requires
            old(self).wf(),
        ensures
            final(self).wf(),
            r is Ok,
            final(self)@ == put(old(self)@, text_row(key@), text_row(value@)),
    {
        proof {
            law_put_keeps_order(self@, text_row(key@), text_row(value@));
        }
        put_row(&mut self.keys, &mut self.values, make_row(key), make_row(value));
        Ok(())
    }

    /// Takes a key away; says whether it was there.
    pub fn delete(&mut self, key: &str) -> (r: Result<bool>)
        requires
            old(self).wf(),
        ensures
            final(self).wf(),
            r matches Ok(found) && found == (value_under(old(self)@, key@) is Some),
            final(self)@ == del(old(self)@, text_row(key@)),
    {
        proof {
            law_del_keeps_order(self@, text_row(key@));
        }
        let k = make_row(key);
        let (_, found) = find_place(&self.keys, &k);
        proof {
            assert(rows_view(self.values@).len() == self.values@.len());
        }
        del_row(&mut self.keys, &mut self.values, &k);
        Ok(found)
    }

    /// The keys from `start` to `end`, both included, with their texts.
    pub fn scan(&self, start: &str, end: &str) -> (r: Result<Vec<(String, String)>>)
        requires
            self.wf(),
        ensures
            r matches Ok(v) && pairs_view(v@) == entries_between(self@, start@, end@, self@.keys.len()),
    {
        let s = make_row(start);
        let e = make_row(end);
        let mut out: Vec<(String, String)> = Vec::new();
        let mut i: usize = 0;
        proof {
            assert(self@.keys.len() == self.keys@.len());
            assert(pairs_view(out@) =~= Seq::empty());
        }
        while i < self.keys.len()
            invariant
                i <= self.keys.len(),
                self.keys@.len() == self.values@.len(),
                values_view(s@) == text_row(start@),
                values_view(e@) == text_row(end@),
                pairs_view(out@) == entries_between(self@, start@, end@, i as nat),
            decreases self.keys.len() - i,
        {
            proof {
                assert((i + 1) as nat - 1 == i);
                assert(self@.keys[i as int] == values_view(self.keys@[i as int]@));
                assert(self@.rows[i as int] == values_view(self.values@[i as int]@));
            }
            let low = matches!(order_keys(&self.keys[i], &s), Order::Less);
            let high = matches!(order_keys(&self.keys[i], &e), Order::Greater);
            if !low && !high {
                let ghost before = out@;
                let p = (read_text(&self.keys[i]), read_text(&self.values[i]));
                out.push(p);
                assert(pairs_view(out@) =~= pairs_view(before).push((p.0@, p.1@)));
            }
            i = i + 1;
        }
        Ok(out)
    }
}

impl Default for KvEngine {
    fn default() -> (r: Self)
        ensures
            r.wf(),
            r@ == (Rows { keys: Seq::empty(), rows: Seq::empty() }),
    {
        KvEngine::new()
    }
}

/// A text that was set is read back, and the other keys keep theirs.
pub proof fn law_get_after_set(r: Rows, k: Seq<char>, v: Seq<char>, other: Seq<char>)
    requires
        well_kept(r),
    ensures
        value_under(put(r, text_row(k), text_row(v)), k) == Some(v),
        other != k ==> value_under(put(r, text_row(k), text_row(v)), other) == value_under(r, other),
{
    law_read_after_put(r, text_row(k), text_row(v));
    assert(text_row(k)[0] == ValueView::Text(k));
    assert(text_row(other)[0] == ValueView::Text(other));
    if other != k {
        law_put_leaves_others(r, text_row(k), text_row(v), text_row(other));
    }
}

/// A key that was deleted holds nothing, and the other keys keep their texts.
pub proof fn law_get_after_delete(r: Rows, k: Seq<char>, other: Seq<char>)
    requires
        well_kept(r),
    ensures
        value_under(del(r, text_row(k)), k) is None,
        other != k ==> value_under(del(r, text_row(k)), other) == value_under(r, other),
{
    law_read_after_del(r, text_row(k));
    assert(text_row(k)[0] == ValueView::Text(k));
    assert(text_row(other)[0] == ValueView::Text(other));
    if other != k {
        law_del_leaves_others(r, text_row(k), text_row(other));
    }
}

} // verus!

use vstd::prelude::*;
use vstd::string::*;
use vstd::utf8::encode_utf8;
use crate::parser::lexer::char_is_whitespace;
use crate::parser::token::{ascii_upper, ascii_upper_char};
use crate::text::{chars_of, string_of};
use super::like::ascii_lower_char;

verus! {

/// A text in upper case, as Unicode maps it.
pub uninterp spec fn unicode_upper(s: Seq<char>) -> Seq<char>;

/// A text in lower case, as Unicode maps it.
pub uninterp spec fn unicode_lower(s: Seq<char>) -> Seq<char>;

/// The characters that a character becomes in upper case, as Unicode maps it.
pub uninterp spec fn unicode_char_upper(c: char) -> Seq<char>;

/// The characters that a character becomes in lower case, as Unicode maps it.
pub uninterp spec fn unicode_char_lower(c: char) -> Seq<char>;

pub open spec fn is_ascii_text(s: Seq<char>) -> bool {
    forall|i: int| 0 <= i < s.len() ==> (#[trigger] s[i] as u32) < 128
}

pub open spec fn ascii_lowered(s: Seq<char>) -> Seq<char> {
    Seq::new(s.len(), |i: int| ascii_lower_char(s[i]))
}

/// A text in upper case.
pub open spec fn text_upper(s: Seq<char>) -> Seq<char> {
    if is_ascii_text(s) {
        ascii_upper(s)
    } else {
        unicode_upper(s)
    }
}

/// A text in lower case.
pub open spec fn text_lower(s: Seq<char>) -> Seq<char> {
    if is_ascii_text(s) {
        ascii_lowered(s)
    } else {
        unicode_lower(s)
    }
}

/// The characters that a character becomes in upper case.
pub open spec fn char_upper_all(c: char) -> Seq<char> {
    if (c as u32) < 128 {
        seq![ascii_upper_char(c)]
    } else {
        unicode_char_upper(c)
    }
}

/// The characters that a character becomes in lower case.
pub open spec fn char_lower_all(c: char) -> Seq<char> {
    if (c as u32) < 128 {
        seq![ascii_lower_char(c)]
    } else {
        unicode_char_lower(c)
    }
}

/// `str::to_uppercase`: the text in upper case, as Unicode maps it. In an ASCII text each letter is
/// mapped by itself; what becomes of another text is left unsaid.
pub assume_specification[ str::to_uppercase ](s: &str) -> (r: String)
    ensures
        is_ascii_text(s@) ==> r@ == ascii_upper(s@),
        !is_ascii_text(s@) ==> r@ == unicode_upper(s@),
;

/// `str::to_lowercase`: the text in lower case, as Unicode maps it. In an ASCII text each letter is
/// mapped by itself; what becomes of another text is left unsaid.
pub assume_specification[ str::to_lowercase ](s: &str) -> (r: String)
    ensures
        is_ascii_text(s@) ==> r@ == ascii_lowered(s@),
        !is_ascii_text(s@) ==> r@ == unicode_lower(s@),
;

/// `char::to_uppercase`, all the characters that it gives. Of an ASCII character that is one; what
/// they are for another character is left unsaid.
#[verifier::external_body]
pub(crate) fn upper_all(c: char) -> (r: Vec<char>)
    ensures
        (c as u32) < 128 ==> r@ == seq![ascii_upper_char(c)],
        (c as u32) >= 128 ==> r@ == unicode_char_upper(c),
{
    c.to_uppercase().collect()
}

/// `char::to_lowercase`, all the characters that it gives. Of an ASCII character that is one; what
/// they are for another character is left unsaid.
#[verifier::external_body]
pub(crate) fn lower_all(c: char) -> (r: Vec<char>)
    ensures
        (c as u32) < 128 ==> r@ == seq![ascii_lower_char(c)],
        (c as u32) >= 128 ==> r@ == unicode_char_lower(c),
{
    c.to_lowercase().collect()
}

/// The first character that a character becomes in upper case.
pub open spec fn char_upper(c: char) -> char {
    if char_upper_all(c).len() > 0 {
        char_upper_all(c)[0]
    } else {
        c
    }
}

/// The first character that a character becomes in lower case.
pub open spec fn char_lower(c: char) -> char {
    if char_lower_all(c).len() > 0 {
        char_lower_all(c)[0]
    } else {
        c
    }
}

fn first_upper(c: char) -> (r: char)
    ensures
        r == char_upper(c),
{
    let v = upper_all(c);
    if v.len() > 0 {
        v[0]
    } else {
        c
    }
}

fn first_lower(c: char) -> (r: char)
    ensures
        r == char_lower(c),
{
    let v = lower_all(c);
    if v.len() > 0 {
        v[0]
    } else {
        c
    }
}

/// A text with each character put into lower case by itself.
pub open spec fn chars_lower(s: Seq<char>) -> Seq<char>
    decreases s.len(),
{
    if s.len() == 0 {
        Seq::empty()
    } else {
        chars_lower(s.drop_last()) + char_lower_all(s.last())
    }
}

pub fn lower_chars(v: &Vec<char>) -> (r: Vec<char>)
    ensures
        r@ == chars_lower(v@),
{
    let mut r: Vec<char> = Vec::new();
    let mut i: usize = 0;
    assert(v@.take(0) =~= Seq::empty());
    while i < v.len()
        invariant
            i <= v.len(),
            r@ == chars_lower(v@.take(i as int)),
        decreases v.len() - i,
    {
        let l = lower_all(v[i]);
        push_all(&mut r, &l);
        i = i + 1;
        assert(v@.take(i as int).drop_last() =~= v@.take(i - 1));
    }
    assert(v@.take(v.len() as int) =~= v@);
    r
}

/// The text without the white space before it.
pub open spec fn trim_front(s: Seq<char>) -> Seq<char>
    decreases s.len(),
{
    if s.len() > 0 && char_is_whitespace(s[0]) {
        trim_front(s.skip(1))
    } else {
        s
    }
}

/// The text without the white space behind it.
pub open spec fn trim_back(s: Seq<char>) -> Seq<char>
    decreases s.len(),
{
    if s.len() > 0 && char_is_whitespace(s.last()) {
        trim_back(s.drop_last())
    } else {
        s
    }
}

pub open spec fn trimmed(s: Seq<char>) -> Seq<char> {
    trim_back(trim_front(s))
}

pub fn trim_text(s: &str) -> (r: String)
    ensures
        r@ == trimmed(s@),
{
    let v = chars_of(s);
    let mut a: usize = 0;
    assert(v@.skip(0) =~= v@);
    while a < v.len() && v[a].is_whitespace()
        invariant
            a <= v.len(),
            trim_front(v@.skip(a as int)) == trim_front(v@),
        decreases v.len() - a,
    {
        assert(v@.skip(a as int).skip(1) =~= v@.skip(a + 1));
        a = a + 1;
    }
    let mut b: usize = v.len();
    assert(v@.subrange(a as int, b as int) =~= v@.skip(a as int));
    while b > a && v[b - 1].is_whitespace()
        invariant
            a <= b <= v.len(),
            trim_back(v@.subrange(a as int, b as int)) == trim_back(v@.skip(a as int)),
        decreases b,
    {
        assert(v@.subrange(a as int, b as int).drop_last() =~= v@.subrange(a as int, b - 1));
        b = b - 1;
    }
    string_of(&v, a, b)
}

/// Whether `n` stands in `s` at `i`.
pub open spec fn stands_at(s: Seq<char>, n: Seq<char>, i: int) -> bool {
    0 <= i && i + n.len() <= s.len() && s.subrange(i, i + n.len()) == n
}

fn is_at(s: &Vec<char>, n: &Vec<char>, i: usize) -> (r: bool)
    requires
        i <= s.len(),
    ensures
        r == stands_at(s@, n@, i as int),
{
    if n.len() > s.len() - i {
        return false;
    }
    let mut k: usize = 0;
    while k < n.len()
        invariant
            k <= n.len(),
            i + n.len() <= s.len(),
            forall|j: int| 0 <= j < k ==> s@[i + j] == n@[j],
        decreases n.len() - k,
    {
        if s[i + k] != n[k] {
            assert(s@.subrange(i as int, i + n.len())[k as int] == s@[i + k]);
            return false;
        }
        k = k + 1;
    }
    assert(s@.subrange(i as int, i + n.len()) =~= n@);
    true
}

/// The first place from `i` on where `n` stands in `s`.
pub open spec fn find_from(s: Seq<char>, n: Seq<char>, i: int) -> Option<int>
    decreases s.len() + 1 - i,
{
    if i < 0 || i > s.len() {
        None
    } else if stands_at(s, n, i) {
        Some(i)
    } else {
        find_from(s, n, i + 1)
    }
}

fn find_chars(s: &Vec<char>, n: &Vec<char>, from: usize) -> (r: Option<usize>)
    requires
        from <= s.len(),
    ensures
        match r {
            Some(i) => find_from(s@, n@, from as int) == Some(i as int) && from <= i && i + n.len() <= s.len(),
            None => find_from(s@, n@, from as int) is None,
        },
{
    let mut i: usize = from;
    loop
        invariant
            from <= i <= s.len(),
            find_from(s@, n@, from as int) == find_from(s@, n@, i as int),
        decreases s.len() - i,
    {
        if is_at(s, n, i) {
            return Some(i);
        }
        if i == s.len() {
            assert(find_from(s@, n@, i + 1) is None);
            return None;
        }
        i = i + 1;
    }
}

pub fn contains_text(s: &str, n: &str) -> (r: bool)
    ensures
        r == (find_from(s@, n@, 0) is Some),
{
    find_chars(&chars_of(s), &chars_of(n), 0).is_some()
}

pub fn starts_with_text(s: &str, n: &str) -> (r: bool)
    ensures
        r == stands_at(s@, n@, 0),
{
    is_at(&chars_of(s), &chars_of(n), 0)
}

pub fn ends_with_text(s: &str, n: &str) -> (r: bool)
    ensures
        r == stands_at(s@, n@, s@.len() - n@.len()),
{
    let v = chars_of(s);
    let w = chars_of(n);
    if w.len() > v.len() {
        false
    } else {
        is_at(&v, &w, v.len() - w.len())
    }
}

/// The place of `n` in `s`, counted in bytes from 1, or 0.
pub open spec fn position_of(s: Seq<char>, n: Seq<char>) -> i64 {
    match find_from(s, n, 0) {
        Some(i) => if encode_utf8(s.take(i)).len() < i64::MAX {
            (encode_utf8(s.take(i)).len() + 1) as i64
        } else {
            i64::MAX
        },
        None => 0,
    }
}

pub fn position_in(s: &str, n: &str) -> (r: i64)
    ensures
        r == position_of(s@, n@),
{
    let v = chars_of(s);
    match find_chars(&v, &chars_of(n), 0) {
        Some(i) => {
            let before = string_of(&v, 0, i);
            assert(s@.take(i as int) =~= v@.subrange(0, i as int));
            let b = before.as_str().as_bytes_vec();
            if (b.len() as u64) < (i64::MAX as u64) {
                b.len() as i64 + 1
            } else {
                i64::MAX
            }
        },
        None => 0,
    }
}

/// The text from place `i` on with every `f`, read from the left, replaced by `t`.
pub open spec fn replaced_from(s: Seq<char>, f: Seq<char>, t: Seq<char>, i: int) -> Seq<char>
    decreases s.len() - i,
{
    if i < 0 || i > s.len() {
        Seq::empty()
    } else if f.len() == 0 {
        if i == s.len() {
            t
        } else {
            t + seq![s[i]] + replaced_from(s, f, t, i + 1)
        }
    } else if i == s.len() {
        Seq::empty()
    } else if stands_at(s, f, i) {
        t + replaced_from(s, f, t, i + f.len())
    } else {
        seq![s[i]] + replaced_from(s, f, t, i + 1)
    }
}

fn push_all(out: &mut Vec<char>, v: &Vec<char>)
    ensures
        final(out)@ == old(out)@ + v@,
{
    let mut i: usize = 0;
    assert(v@.take(0) =~= Seq::empty());
    while i < v.len()
        invariant
            i <= v.len(),
            out@ == old(out)@ + v@.take(i as int),
        decreases v.len() - i,
    {
        out.push(v[i]);
        i = i + 1;
        assert(v@.take(i as int) =~= v@.take(i - 1).push(v@[i - 1]));
    }
    assert(v@.take(v.len() as int) =~= v@);
}

fn text_of_chars(v: &Vec<char>) -> (r: String)
    ensures
        r@ == v@,
{
    assert(v@.subrange(0, v.len() as int) =~= v@);
    string_of(v, 0, v.len())
}

pub fn replace_text(s: &str, f: &str, t: &str) -> (r: String)
    ensures
        r@ == replaced_from(s@, f@, t@, 0),
{
    let v = chars_of(s);
    let fv = chars_of(f);
    let tv = chars_of(t);
    let mut out: Vec<char> = Vec::new();
    let mut i: usize = 0;
    assert(out@ + replaced_from(v@, fv@, tv@, 0) =~= replaced_from(v@, fv@, tv@, 0));
    loop
        invariant
            i <= v.len(),
            v@ == s@,
            fv@ == f@,
            tv@ == t@,
            out@ + replaced_from(v@, fv@, tv@, i as int) == replaced_from(v@, fv@, tv@, 0),
        decreases v.len() - i,
    {
        let ghost before = out@;
        let ghost rest = replaced_from(v@, fv@, tv@, i as int);
        if fv.len() == 0 {
            push_all(&mut out, &tv);
            if i == v.len() {
                assert(out@ =~= before + rest);
                return text_of_chars(&out);
            }
            out.push(v[i]);
            assert(out@ + replaced_from(v@, fv@, tv@, i + 1) =~= before + rest);
            i = i + 1;
        } else if i == v.len() {
            assert(out@ + rest =~= out@);
            return text_of_chars(&out);
        } else if is_at(&v, &fv, i) {
            push_all(&mut out, &tv);
            assert(out@ + replaced_from(v@, fv@, tv@, i + fv.len()) =~= before + rest);
            i = i + fv.len();
        } else {
            out.push(v[i]);
            assert(out@ + replaced_from(v@, fv@, tv@, i + 1) =~= before + rest);
            i = i + 1;
        }
    }
}

/// The part number `n`, counted from 0, of the text from place `i` on, split at every `sep`.
pub open spec fn part_from(s: Seq<char>, sep: Seq<char>, i: int, n: nat) -> Option<Seq<char>>
    decreases n,
{
    match find_from(s, sep, i) {
        None => if n == 0 && 0 <= i <= s.len() {
            Some(s.skip(i))
        } else {
            None
        },
        Some(j) => if n == 0 {
            Some(s.subrange(i, j))
        } else {
            part_from(s, sep, j + sep.len(), (n - 1) as nat)
        },
    }
}

/// The part number `n`, counted from 1, of a text that is split at every `sep`. An empty `sep`
/// stands before and behind every character.
pub open spec fn split_part(s: Seq<char>, sep: Seq<char>, n: int) -> Seq<char> {
    if n < 1 {
        Seq::empty()
    } else if sep.len() == 0 {
        if 2 <= n <= s.len() + 1 {
            seq![s[n - 2]]
        } else {
            Seq::empty()
        }
    } else {
        match part_from(s, sep, 0, (n - 1) as nat) {
            Some(p) => p,
            None => Seq::empty(),
        }
    }
}

fn nth_part(v: &Vec<char>, sep: &Vec<char>, n: usize) -> (r: String)
    requires
        sep.len() > 0,
    ensures
        r@ == (match part_from(v@, sep@, 0, n as nat) { Some(p) => p, None => Seq::empty() }),
{
    let mut i: usize = 0;
    let mut k: usize = n;
    loop
        invariant
            i <= v.len(),
            k <= n,
            sep.len() > 0,
            part_from(v@, sep@, 0, n as nat) == part_from(v@, sep@, i as int, k as nat),
        decreases k,
    {
        match find_chars(v, sep, i) {
            None => {
                if k == 0 {
                    assert(v@.skip(i as int) =~= v@.subrange(i as int, v.len() as int));
                    return string_of(v, i, v.len());
                }
                let e = String::new();
                assert(e@ =~= Seq::empty());
                return e;
            },
            Some(j) => {
                if k == 0 {
                    return string_of(v, i, j);
                }
                i = j + sep.len();
                k = k - 1;
            },
        }
    }
}

pub fn split_part_text(s: &str, sep: &str, n: i64) -> (r: String)
    ensures
        r@ == split_part(s@, sep@, n as int),
{
    let v = chars_of(s);
    let w = chars_of(sep);
    if n < 1 {
        let e = String::new();
        assert(e@ =~= Seq::empty());
        return e;
    }
    if w.len() == 0 {
        if n >= 2 && (n as u64) - 2 < v.len() as u64 {
            let i: usize = (n - 2) as usize;
            assert(v@.subrange(i as int, i + 1) =~= seq![v@[i as int]]);
            string_of(&v, i, i + 1)
        } else {
            let e = String::new();
            assert(e@ =~= Seq::empty());
            e
        }
    } else if (n as u64) - 1 > v.len() as u64 {
        proof {
            lemma_few_parts(v@, w@, 0, (n - 1) as nat);
        }
        let e = String::new();
        assert(e@ =~= Seq::empty());
        e
    } else {
        nth_part(&v, &w, (n - 1) as usize)
    }
}

/// A text has no more parts than one for each character and one more.
proof fn lemma_few_parts(s: Seq<char>, sep: Seq<char>, i: int, n: nat)
    requires
        sep.len() > 0,
        0 <= i <= s.len(),
        n > s.len() - i,
    ensures
        part_from(s, sep, i, n) is None,
    decreases n,
{
    lemma_found_in_range(s, sep, i);
    match find_from(s, sep, i) {
        None => {},
        Some(j) => {
            lemma_few_parts(s, sep, j + sep.len(), (n - 1) as nat);
        },
    }
}

proof fn lemma_found_in_range(s: Seq<char>, n: Seq<char>, i: int)
    requires
        0 <= i <= s.len(),
    ensures
        find_from(s, n, i) matches Some(j) ==> i <= j && j + n.len() <= s.len(),
    decreases s.len() - i,
{
    if !stands_at(s, n, i) {
        if i < s.len() {
            lemma_found_in_range(s, n, i + 1);
        } else {
            assert(find_from(s, n, i + 1) is None);
        }
    }
}

/// `n` characters of `pad`, over and over.
pub open spec fn padding(pad: Seq<char>, n: nat) -> Seq<char> {
    if pad.len() == 0 {
        Seq::empty()
    } else {
        Seq::new(n, |i: int| pad[i % (pad.len() as int)])
    }
}

fn pad_chars(out: &mut Vec<char>, pad: &Vec<char>, n: u64)
    ensures
        final(out)@ == old(out)@ + padding(pad@, n as nat),
{
    if pad.len() == 0 {
        assert(out@ + padding(pad@, n as nat) =~= out@);
        return;
    }
    let mut i: u64 = 0;
    assert(old(out)@ + padding(pad@, 0) =~= old(out)@);
    while i < n
        invariant
            i <= n,
            pad.len() > 0,
            out@ == old(out)@ + padding(pad@, i as nat),
        decreases n - i,
    {
        out.push(pad[(i % pad.len() as u64) as usize]);
        i = i + 1;
        assert(out@ =~= old(out)@ + padding(pad@, i as nat));
    }
}

/// A text cut off to `n` characters, or filled up to them at its front or its back.
pub open spec fn padded(s: Seq<char>, n: nat, pad: Seq<char>, front: bool) -> Seq<char> {
    if s.len() >= n {
        s.take(n as int)
    } else if front {
        padding(pad, (n - s.len()) as nat) + s
    } else {
        s + padding(pad, (n - s.len()) as nat)
    }
}

pub fn pad_text(s: &str, n: u64, pad: &str, front: bool) -> (r: String)
    ensures
        r@ == padded(s@, n as nat, pad@, front),
{
    let v = chars_of(s);
    let p = chars_of(pad);
    if v.len() as u64 >= n {
        assert(s@.take(n as int) =~= v@.subrange(0, n as int));
        string_of(&v, 0, n as usize)
    } else {
        let mut out: Vec<char> = Vec::new();
        if front {
            pad_chars(&mut out, &p, n - v.len() as u64);
            push_all(&mut out, &v);
            assert(out@ =~= padding(p@, (n - v.len()) as nat) + v@);
        } else {
            push_all(&mut out, &v);
            pad_chars(&mut out, &p, n - v.len() as u64);
            assert(out@ =~= v@ + padding(p@, (n - v.len()) as nat));
        }
        text_of_chars(&out)
    }
}

/// A text `n` times.
pub open spec fn repeated(s: Seq<char>, n: nat) -> Seq<char>
    decreases n,
{
    if n == 0 {
        Seq::empty()
    } else {
        repeated(s, (n - 1) as nat) + s
    }
}

pub fn reverse_text(s: &str) -> (r: String)
    ensures
        r@ == s@.reverse(),
{
    let v = chars_of(s);
    let mut out: Vec<char> = Vec::new();
    let mut i: usize = v.len();
    while i > 0
        invariant
            i <= v.len(),
            out@ == v@.reverse().take(v.len() - i),
        decreases i,
    {
        i = i - 1;
        out.push(v[i]);
        assert(out@ =~= v@.reverse().take(v.len() - i));
    }
    assert(out@ =~= v@.reverse());
    text_of_chars(&out)
}

/// A text with each word's first character in upper case and the others in lower case; `cap` says
/// whether a word starts at place `i`.
pub open spec fn initcap_from(s: Seq<char>, i: int, cap: bool) -> Seq<char>
    decreases s.len() - i,
{
    if i < 0 || i >= s.len() {
        Seq::empty()
    } else if cap {
        seq![char_upper(s[i])] + initcap_from(s, i + 1, false)
    } else if char_is_whitespace(s[i]) {
        seq![s[i]] + initcap_from(s, i + 1, true)
    } else {
        seq![char_lower(s[i])] + initcap_from(s, i + 1, false)
    }
}

pub fn initcap_text(s: &str) -> (r: String)
    ensures
        r@ == initcap_from(s@, 0, true),
{
    let v = chars_of(s);
    let mut out: Vec<char> = Vec::new();
    let mut cap = true;
    let mut i: usize = 0;
    assert(out@ + initcap_from(v@, 0, true) =~= initcap_from(v@, 0, true));
    while i < v.len()
        invariant
            i <= v.len(),
            out@ + initcap_from(v@, i as int, cap) == initcap_from(v@, 0, true),
        decreases v.len() - i,
    {
        let ghost before = out@;
        let ghost rest = initcap_from(v@, i as int, cap);
        let c = v[i];
        if cap {
            cap = false;
            out.push(first_upper(c));
        } else if c.is_whitespace() {
            cap = true;
            out.push(c);
        } else {
            out.push(first_lower(c));
        }
        i = i + 1;
        assert(out@ + initcap_from(v@, i as int, cap) =~= before + rest);
    }
    assert(out@ + initcap_from(v@, i as int, cap) =~= out@);
    text_of_chars(&out)
}

/// The characters of a text from `from` on, at most `n` of them.
pub open spec fn slice_of<T>(s: Seq<T>, from: nat, n: Option<nat>) -> Seq<T> {
    let a = if from <= s.len() { from as int } else { s.len() as int };
    match n {
        None => s.skip(a),
        Some(k) => if a + k <= s.len() {
            s.subrange(a, a + k)
        } else {
            s.skip(a)
        },
    }
}

pub fn slice_text(s: &str, from: u64, n: Option<u64>) -> (r: String)
    ensures
        r@ == slice_of(s@, from as nat, match n { Some(k) => Some(k as nat), None => None }),
{
    let v = chars_of(s);
    let a: usize = if from <= v.len() as u64 { from as usize } else { v.len() };
    let b: usize = match n {
        None => v.len(),
        Some(k) => if k <= (v.len() - a) as u64 { a + k as usize } else { v.len() },
    };
    assert(v@.skip(a as int) =~= v@.subrange(a as int, v.len() as int));
    string_of(&v, a, b)
}

pub fn slice_bytes(v: &Vec<u8>, from: u64, n: Option<u64>) -> (r: Vec<u8>)
    ensures
        r@ == slice_of(v@, from as nat, match n { Some(k) => Some(k as nat), None => None }),
{
    let a: usize = if from <= v.len() as u64 { from as usize } else { v.len() };
    let b: usize = match n {
        None => v.len(),
        Some(k) => if k <= (v.len() - a) as u64 { a + k as usize } else { v.len() },
    };
    let mut r: Vec<u8> = Vec::new();
    let mut i: usize = a;
    while i < b
        invariant
            a <= i <= b <= v.len(),
            r@ == v@.subrange(a as int, i as int),
        decreases b - i,
    {
        r.push(v[i]);
        i = i + 1;
        assert(r@ =~= v@.subrange(a as int, i as int));
    }
    assert(v@.skip(a as int) =~= v@.subrange(a as int, v.len() as int));
    r
}

} // verus!

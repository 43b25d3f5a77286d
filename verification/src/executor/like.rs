use vstd::prelude::*;
use vstd::string::*;
use crate::text::chars_of;
use super::strings::{chars_lower, is_ascii_text, lower_chars};

verus! {

/// A character, a letter of ASCII in lower case.
pub open spec fn ascii_lower_char(c: char) -> char {
    if 65 <= c as u32 <= 90 {
        ((c as u32 + 32) as u8) as char
    } else {
        c
    }
}

/// Whether two characters are the same, with `fold` whatever the case of a letter of ASCII.
pub open spec fn same_char(a: char, b: char, fold: bool) -> bool {
    a == b || fold && ascii_lower_char(a) == ascii_lower_char(b)
}

/// Where a pattern's last `%` stands, and which place of the text it has reached.
pub open spec fn star_fits(star: Option<(int, int)>, si: int, p: Seq<char>) -> bool {
    match star {
        None => true,
        Some((sp, ss)) => 0 <= sp < p.len() && 0 <= ss <= si,
    }
}

/// Whether the pattern from `pi` on matches the text from `si` on. A character of the pattern that
/// is that of the text stands for itself, `%` among them; otherwise `%` stands for any characters,
/// first for none, and for one more of the text whenever what follows does not match; `_` stands
/// for any one character.
pub open spec fn like_from(
    s: Seq<char>,
    p: Seq<char>,
    fold: bool,
    si: int,
    pi: int,
    star: Option<(int, int)>,
) -> bool
    decreases s.len() + 1 - (match star { Some((_, ss)) => ss, None => -1 }), s.len() - si, p.len() - pi,
    when 0 <= si <= s.len() && 0 <= pi <= p.len() && star_fits(star, si, p)
{
    if si >= s.len() {
        only_stars(p, pi)
    } else if pi < p.len() && (p[pi] == '_' || same_char(p[pi], s[si], fold)) {
        like_from(s, p, fold, si + 1, pi + 1, star)
    } else if pi < p.len() && p[pi] == '%' {
        like_from(s, p, fold, si, pi + 1, Some((pi, si)))
    } else {
        match star {
            Some((sp, ss)) => like_from(s, p, fold, ss + 1, sp + 1, Some((sp, ss + 1))),
            None => false,
        }
    }
}

/// Whether the pattern holds nothing but `%` from `pi` on.
pub open spec fn only_stars(p: Seq<char>, pi: int) -> bool {
    forall|i: int| pi <= i < p.len() ==> #[trigger] p[i] == '%'
}

/// LIKE.
pub open spec fn like(s: Seq<char>, p: Seq<char>) -> bool {
    like_from(s, p, false, 0, 0, None)
}

/// ILIKE: texts of ASCII are matched whatever the case of their letters, others by their lower
/// case.
pub open spec fn ilike(s: Seq<char>, p: Seq<char>) -> bool {
    if is_ascii_text(s) && is_ascii_text(p) {
        like_from(s, p, true, 0, 0, None)
    } else {
        like_from(chars_lower(s), chars_lower(p), false, 0, 0, None)
    }
}

fn lower_ascii(c: char) -> (r: char)
    ensures
        r == ascii_lower_char(c),
{
    let n: u32 = c as u32;
    if n >= 65 && n <= 90 {
        (n as u8 + 32) as char
    } else {
        c
    }
}

fn chars_same(a: char, b: char, fold: bool) -> (r: bool)
    ensures
        r == same_char(a, b, fold),
{
    a == b || (fold && lower_ascii(a) == lower_ascii(b))
}

fn rest_is_stars(p: &Vec<char>, from: usize) -> (r: bool)
    requires
        from <= p.len(),
    ensures
        r == only_stars(p@, from as int),
{
    let mut i: usize = from;
    while i < p.len()
        invariant
            from <= i <= p.len(),
            forall|j: int| from <= j < i ==> #[trigger] p@[j] == '%',
        decreases p.len() - i,
    {
        if p[i] != '%' {
            return false;
        }
        i = i + 1;
    }
    true
}

pub fn like_match_inner(s: &Vec<char>, p: &Vec<char>, fold: bool) -> (r: bool)
    ensures
        r == like_from(s@, p@, fold, 0, 0, None),
{
    let mut si: usize = 0;
    let mut pi: usize = 0;
    let mut star: Option<(usize, usize)> = None;
    while si < s.len()
        invariant
            si <= s.len(),
            pi <= p.len(),
            star_fits(match star { Some((a, b)) => Some((a as int, b as int)), None => None }, si as int, p@),
            like_from(s@, p@, fold, 0, 0, None) == like_from(
                s@,
                p@,
                fold,
                si as int,
                pi as int,
                match star { Some((a, b)) => Some((a as int, b as int)), None => None },
            ),
        decreases s.len() + 1 - (match star { Some((_, ss)) => ss as int, None => -1 }), s.len() - si, p.len() - pi,
    {
        if pi < p.len() && (p[pi] == '_' || chars_same(p[pi], s[si], fold)) {
            si = si + 1;
            pi = pi + 1;
        } else if pi < p.len() && p[pi] == '%' {
            star = Some((pi, si));
            pi = pi + 1;
        } else {
            match star {
                Some((sp, ss)) => {
                    pi = sp + 1;
                    si = ss + 1;
                    star = Some((sp, si));
                },
                None => {
                    return false;
                },
            }
        }
    }
    rest_is_stars(p, pi)
}

fn text_is_ascii(v: &Vec<char>) -> (r: bool)
    ensures
        r == is_ascii_text(v@),
{
    let mut i: usize = 0;
    while i < v.len()
        invariant
            i <= v.len(),
            forall|j: int| 0 <= j < i ==> (#[trigger] v@[j] as u32) < 128,
        decreases v.len() - i,
    {
        if v[i] as u32 >= 128 {
            return false;
        }
        i = i + 1;
    }
    true
}

pub fn like_match(s: &str, pattern: &str) -> (r: bool)
    ensures
        r == like(s@, pattern@),
{
    like_match_inner(&chars_of(s), &chars_of(pattern), false)
}

pub fn ilike_match(s: &str, pattern: &str) -> (r: bool)
    ensures
        r == ilike(s@, pattern@),
{
    let a = chars_of(s);
    let b = chars_of(pattern);
    if text_is_ascii(&a) && text_is_ascii(&b) {
        like_match_inner(&a, &b, true)
    } else {
        like_match_inner(&lower_chars(&a), &lower_chars(&b), false)
    }
}

// ---- what patterns stand for

/// Whether a pattern from `pi` on stands for the text from `si` on: `%` for no character or for one
/// and more, `_` for any one, and every other character for itself.
pub open spec fn stands_for(s: Seq<char>, p: Seq<char>, fold: bool, si: int, pi: int) -> bool
    decreases p.len() - pi, s.len() - si,
{
    if pi >= p.len() {
        si == s.len()
    } else if p[pi] == '%' {
        stands_for(s, p, fold, si, pi + 1) || (si < s.len() && stands_for(s, p, fold, si + 1, pi))
    } else {
        si < s.len() && (p[pi] == '_' || same_char(p[pi], s[si], fold)) && stands_for(s, p, fold, si + 1, pi + 1)
    }
}

/// The rest of the text that the pattern behind a `%` stands for, if there is one.
proof fn lemma_some_rest(s: Seq<char>, p: Seq<char>, fold: bool, si: int, pi: int) -> (t: int)
    requires
        0 <= si <= s.len(),
        0 <= pi < p.len(),
        p[pi] == '%',
        stands_for(s, p, fold, si, pi),
    ensures
        si <= t <= s.len(),
        stands_for(s, p, fold, t, pi + 1),
    decreases s.len() - si,
{
    if stands_for(s, p, fold, si, pi + 1) {
        si
    } else {
        lemma_some_rest(s, p, fold, si + 1, pi)
    }
}

proof fn lemma_from_rest(s: Seq<char>, p: Seq<char>, fold: bool, si: int, pi: int, t: int)
    requires
        0 <= si <= t <= s.len(),
        0 <= pi < p.len(),
        p[pi] == '%',
        stands_for(s, p, fold, t, pi + 1),
    ensures
        stands_for(s, p, fold, si, pi),
    decreases t - si,
{
    if si < t {
        lemma_from_rest(s, p, fold, si + 1, pi, t);
    }
}

/// Whether the pattern from `sp` to `pi` holds no `%` and stands for the text from `ss` to `si`.
spec fn piece(s: Seq<char>, p: Seq<char>, fold: bool, ss: int, sp: int, si: int, pi: int) -> bool {
    &&& 0 <= ss <= si <= s.len()
    &&& 0 <= sp <= pi <= p.len()
    &&& pi - sp == si - ss
    &&& forall|k: int|
        0 <= k < pi - sp ==> #[trigger] p[sp + k] != '%' && (p[sp + k] == '_' || same_char(p[sp + k], s[ss + k], fold))
}

proof fn lemma_along(s: Seq<char>, p: Seq<char>, fold: bool, ss: int, sp: int, si: int, pi: int)
    requires
        piece(s, p, fold, ss, sp, si, pi),
    ensures
        stands_for(s, p, fold, ss, sp) == stands_for(s, p, fold, si, pi),
    decreases pi - sp,
{
    if sp < pi {
        assert(p[sp + 0] != '%');
        assert forall|k: int| 0 <= k < pi - (sp + 1) implies #[trigger] p[sp + 1 + k] != '%' && (p[sp + 1 + k] == '_' || same_char(
            p[sp + 1 + k],
            s[ss + 1 + k],
            fold,
        )) by {
            assert(p[sp + (k + 1)] != '%');
        }
        lemma_along(s, p, fold, ss + 1, sp + 1, si, pi);
    }
}

/// A pattern that begins without `%` stands for texts that go on at least as long, and what follows
/// stands for their rest.
proof fn lemma_strip(s: Seq<char>, p: Seq<char>, fold: bool, t: int, sp: int, pi: int)
    requires
        0 <= t,
        0 <= sp <= pi <= p.len(),
        forall|k: int| sp <= k < pi ==> #[trigger] p[k] != '%',
        stands_for(s, p, fold, t, sp),
        t <= s.len(),
    ensures
        t + (pi - sp) <= s.len(),
        stands_for(s, p, fold, t + (pi - sp), pi),
    decreases pi - sp,
{
    if sp < pi {
        assert(p[sp] != '%');
        lemma_strip(s, p, fold, t + 1, sp + 1, pi);
    }
}

proof fn lemma_end(s: Seq<char>, p: Seq<char>, fold: bool, pi: int)
    requires
        0 <= pi <= p.len(),
    ensures
        stands_for(s, p, fold, s.len() as int, pi) == only_stars(p, pi),
    decreases p.len() - pi,
{
    if pi < p.len() {
        lemma_end(s, p, fold, pi + 1);
        if p[pi] == '%' {
            if only_stars(p, pi + 1) {
                assert forall|i: int| pi <= i < p.len() implies #[trigger] p[i] == '%' by {}
            }
            if only_stars(p, pi) {
                assert(only_stars(p, pi + 1));
            }
        } else {
            assert(!only_stars(p, pi)) by {
                assert(p[pi] != '%');
            }
        }
    }
}

proof fn lemma_like(s: Seq<char>, p: Seq<char>, fold: bool, si: int, pi: int, star: Option<(int, int)>)
    requires
        0 <= si <= s.len(),
        0 <= pi <= p.len(),
        star_fits(star, si, p),
        forall|i: int| 0 <= i < s.len() ==> #[trigger] s[i] != '%',
        star matches Some((sp, ss)) ==> p[sp] == '%' && piece(s, p, fold, ss, sp + 1, si, pi),
    ensures
        like_from(s, p, fold, si, pi, star) == (match star {
            Some((sp, ss)) => stands_for(s, p, fold, ss, sp),
            None => stands_for(s, p, fold, si, pi),
        }),
    decreases s.len() + 1 - (match star { Some((_, ss)) => ss, None => -1 }), s.len() - si, p.len() - pi,
{
    if si >= s.len() {
        lemma_end(s, p, fold, pi);
        match star {
            Some((sp, ss)) => {
                lemma_along(s, p, fold, ss, sp + 1, si, pi);
                lemma_no_star(s, p, fold, ss, sp + 1, si, pi);
                if stands_for(s, p, fold, ss, sp) {
                    let t = lemma_some_rest(s, p, fold, ss, sp);
                    lemma_strip(s, p, fold, t, sp + 1, pi);
                    assert(t == ss);
                }
            },
            None => {},
        }
    } else if pi < p.len() && (p[pi] == '_' || same_char(p[pi], s[si], fold)) {
        assert(s[si] != '%');
        assert(p[pi] != '%');
        match star {
            Some((sp, ss)) => {
                lemma_longer(s, p, fold, ss, sp + 1, si, pi);
            },
            None => {},
        }
        lemma_like(s, p, fold, si + 1, pi + 1, star);
    } else if pi < p.len() && p[pi] == '%' {
        lemma_like(s, p, fold, si, pi + 1, Some((pi, si)));
        match star {
            Some((sp, ss)) => {
                lemma_along(s, p, fold, ss, sp + 1, si, pi);
                lemma_no_star(s, p, fold, ss, sp + 1, si, pi);
                if stands_for(s, p, fold, ss, sp) {
                    let t = lemma_some_rest(s, p, fold, ss, sp);
                    lemma_strip(s, p, fold, t, sp + 1, pi);
                    let v = lemma_some_rest(s, p, fold, t + (pi - (sp + 1)), pi);
                    lemma_from_rest(s, p, fold, si, pi, v);
                }
            },
            None => {},
        }
    } else {
        match star {
            Some((sp, ss)) => {
                lemma_along(s, p, fold, ss, sp + 1, si, pi);
                assert(!stands_for(s, p, fold, si, pi));
                lemma_like(s, p, fold, ss + 1, sp + 1, Some((sp, ss + 1)));
            },
            None => {},
        }
    }
}

proof fn lemma_no_star(s: Seq<char>, p: Seq<char>, fold: bool, ss: int, sp: int, si: int, pi: int)
    requires
        piece(s, p, fold, ss, sp, si, pi),
    ensures
        forall|k: int| sp <= k < pi ==> #[trigger] p[k] != '%',
{
    assert forall|k: int| sp <= k < pi implies #[trigger] p[k] != '%' by {
        assert(p[sp + (k - sp)] != '%');
    }
}

proof fn lemma_longer(s: Seq<char>, p: Seq<char>, fold: bool, ss: int, sp: int, si: int, pi: int)
    requires
        piece(s, p, fold, ss, sp, si, pi),
        si < s.len(),
        pi < p.len(),
        p[pi] != '%',
        p[pi] == '_' || same_char(p[pi], s[si], fold),
    ensures
        piece(s, p, fold, ss, sp, si + 1, pi + 1),
{
    assert forall|k: int| 0 <= k < pi + 1 - sp implies #[trigger] p[sp + k] != '%' && (p[sp + k] == '_' || same_char(
        p[sp + k],
        s[ss + k],
        fold,
    )) by {
        if k < pi - sp {
            assert(p[sp + k] != '%');
        }
    }
}

/// LIKE goes by what the pattern stands for, of texts that hold no `%` themselves.
pub proof fn law_like_is_what_patterns_stand_for(s: Seq<char>, p: Seq<char>)
    requires
        forall|i: int| 0 <= i < s.len() ==> #[trigger] s[i] != '%',
    ensures
        like(s, p) == stands_for(s, p, false, 0, 0),
{
    lemma_like(s, p, false, 0, 0, None);
}

/// ILIKE of texts of ASCII goes by what the pattern stands for whatever the case of letters, of texts
/// that hold no `%` themselves.
pub proof fn law_ilike_is_what_patterns_stand_for(s: Seq<char>, p: Seq<char>)
    requires
        is_ascii_text(s),
        is_ascii_text(p),
        forall|i: int| 0 <= i < s.len() ==> #[trigger] s[i] != '%',
    ensures
        ilike(s, p) == stands_for(s, p, true, 0, 0),
{
    lemma_like(s, p, true, 0, 0, None);
}

} // verus!

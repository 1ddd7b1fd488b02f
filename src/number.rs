//! Reading numbers out of text: the integer grammar of `i32::from_str` and the
//! literal grammar of `f32::from_str`.
use vstd::prelude::*;

verus! {

pub open spec fn is_digit(c: char) -> bool {
    '0' <= c && c <= '9'
}

pub open spec fn all_digits(s: Seq<char>) -> bool {
    forall|i: int| 0 <= i < s.len() ==> is_digit(#[trigger] s[i])
}

pub open spec fn digit_value(c: char) -> int {
    (c as u32) as int - ('0' as u32) as int
}

/// Value of a run of decimal digits.
pub open spec fn digits_value(s: Seq<char>) -> int
    decreases s.len(),
{
    if s.len() == 0 {
        0
    } else {
        digits_value(s.drop_last()) * 10 + digit_value(s.last())
    }
}

/// `s` read as an `i32` the way `i32::from_str` reads it: an optional `+` or
/// `-`, then at least one ASCII digit, and a value that fits.
pub open spec fn parse_i32(s: Seq<char>) -> Option<i32> {
    let signed = s.len() > 0 && (s[0] == '-' || s[0] == '+');
    let body = if signed {
        s.drop_first()
    } else {
        s
    };
    let v = if s.len() > 0 && s[0] == '-' {
        -digits_value(body)
    } else {
        digits_value(body)
    };
    if body.len() == 0 || !all_digits(body) || v < i32::MIN || v > i32::MAX {
        None
    } else {
        Some(v as i32)
    }
}

const BEYOND_I32: i64 = 2147483649;

pub fn parse_i32_exec(s: &Vec<char>) -> (r: Option<i32>)
    ensures
        r == parse_i32(s@),
{
    let n = s.len();
    if n == 0 {
        return None;
    }
    let neg = s[0] == '-';
    let start: usize = if s[0] == '-' || s[0] == '+' {
        1
    } else {
        0
    };
    let ghost body = s@.subrange(start as int, n as int);
    assert(start == 1 ==> body =~= s@.drop_first());
    assert(start == 0 ==> body =~= s@);
    if start == n {
        return None;
    }
    let mut acc: i64 = 0;
    let mut over = false;
    let mut k: usize = start;
    while k < n
        invariant
            start <= k <= n == s@.len(),
            body == s@.subrange(start as int, n as int),
            start == 1 ==> body == s@.drop_first(),
            start == 0 ==> body == s@,
            start == 1 <==> (s@[0] == '-' || s@[0] == '+'),
            neg == (s@[0] == '-'),
            all_digits(s@.subrange(start as int, k as int)),
            0 <= acc <= BEYOND_I32,
            digits_value(s@.subrange(start as int, k as int)) >= 0,
            !over ==> acc == digits_value(s@.subrange(start as int, k as int)),
            over ==> digits_value(s@.subrange(start as int, k as int)) >= BEYOND_I32,
        decreases n - k,
    {
        let c = s[k];
        if !('0' <= c && c <= '9') {
            assert(body[k - start] == c);
            assert(!is_digit(body[k - start]));
            return None;
        }
        let ghost pre = s@.subrange(start as int, k as int);
        assert(s@.subrange(start as int, k + 1).drop_last() =~= pre);
        let d = (c as u32 - '0' as u32) as i64;
        if !over {
            let v = acc * 10 + d;
            if v >= BEYOND_I32 {
                over = true;
            } else {
                acc = v;
            }
        }
        k += 1;
        assert(all_digits(s@.subrange(start as int, k as int)));
    }
    assert(s@.subrange(start as int, k as int) == body);
    if over {
        return None;
    }
    if neg {
        if acc > 2147483648 {
            None
        } else {
            Some((-acc) as i32)
        }
    } else {
        if acc > 2147483647 {
            None
        } else {
            Some(acc as i32)
        }
    }
}

/// `c` is the lower-case letter `w`, or its upper-case form.
pub open spec fn letter_is(c: char, w: char) -> bool {
    c == w || (c as u32) as int + 32 == (w as u32) as int
}

/// `t` spells the lower-case word `w`, ignoring ASCII case.
pub open spec fn spells(t: Seq<char>, w: Seq<char>) -> bool {
    t.len() == w.len() && forall|i: int| 0 <= i < t.len() ==> letter_is(#[trigger] t[i], w[i])
}

/// The mantissa of a float literal: digits with at most one `.`, at least one digit.
pub open spec fn is_mantissa(m: Seq<char>) -> bool {
    match crate::text::find_char_from(m, '.', 0) {
        None => m.len() >= 1 && all_digits(m),
        Some(p) => m.len() >= 2 && all_digits(m.subrange(0, p)) && all_digits(
            m.subrange(p + 1, m.len() as int),
        ),
    }
}

/// The exponent digits of a float literal, after the `e`: an optional sign and digits.
pub open spec fn is_exponent(x: Seq<char>) -> bool {
    let d = if x.len() > 0 && (x[0] == '+' || x[0] == '-') {
        x.drop_first()
    } else {
        x
    };
    d.len() >= 1 && all_digits(d)
}

/// First position at or after `i` of an `e` or `E`, or the length of `t`.
pub open spec fn exp_mark(t: Seq<char>, i: int) -> int
    decreases t.len() - i,
{
    if i < 0 || i >= t.len() {
        t.len() as int
    } else if t[i] == 'e' || t[i] == 'E' {
        i
    } else {
        exp_mark(t, i + 1)
    }
}

pub open spec fn is_number_literal(t: Seq<char>) -> bool {
    let e = exp_mark(t, 0);
    is_mantissa(t.subrange(0, e)) && (e == t.len() || is_exponent(
        t.subrange(e + 1, t.len() as int),
    ))
}

/// `s` is accepted by `f32::from_str`: an optional sign, then `inf`, `infinity`
/// or `nan` in any case, or a decimal number with an optional exponent.
pub open spec fn is_float_literal(s: Seq<char>) -> bool {
    let t = if s.len() > 0 && (s[0] == '+' || s[0] == '-') {
        s.drop_first()
    } else {
        s
    };
    spells(t, seq!['i', 'n', 'f']) || spells(t, seq!['i', 'n', 'f', 'i', 'n', 'i', 't', 'y'])
        || spells(t, seq!['n', 'a', 'n']) || is_number_literal(t)
}

fn spells_exec(t: &Vec<char>, lo: usize, w: &Vec<char>) -> (r: bool)
    requires
        lo <= t@.len(),
    ensures
        r == spells(t@.subrange(lo as int, t@.len() as int), w@),
{
    let ghost u = t@.subrange(lo as int, t@.len() as int);
    if t.len() - lo != w.len() {
        return false;
    }
    let mut k: usize = 0;
    while k < w.len()
        invariant
            u == t@.subrange(lo as int, t@.len() as int),
            u.len() == w@.len(),
            lo <= t@.len(),
            t.len() - lo == w.len(),
            k <= w@.len(),
            forall|i: int| 0 <= i < k ==> letter_is(#[trigger] u[i], w@[i]),
        decreases w.len() - k,
    {
        let c = t[lo + k];
        let x = w[k];
        assert(u[k as int] == c);
        if !(c == x || (x as u32 >= 32 && c as u32 == x as u32 - 32)) {
            return false;
        }
        k += 1;
    }
    true
}

/// Whether `t[lo..hi]` is all digits.
fn all_digits_exec(t: &Vec<char>, lo: usize, hi: usize) -> (r: bool)
    requires
        lo <= hi <= t@.len(),
    ensures
        r == all_digits(t@.subrange(lo as int, hi as int)),
{
    let mut k: usize = lo;
    while k < hi
        invariant
            lo <= k <= hi <= t@.len(),
            all_digits(t@.subrange(lo as int, k as int)),
        decreases hi - k,
    {
        if !('0' <= t[k] && t[k] <= '9') {
            assert(t@.subrange(lo as int, hi as int)[k - lo] == t@[k as int]);
            return false;
        }
        k += 1;
        assert(all_digits(t@.subrange(lo as int, k as int)));
    }
    true
}

fn is_mantissa_exec(t: &Vec<char>, lo: usize, hi: usize) -> (r: bool)
    requires
        lo <= hi <= t@.len(),
    ensures
        r == is_mantissa(t@.subrange(lo as int, hi as int)),
{
    let ghost m = t@.subrange(lo as int, hi as int);
    let mut p: usize = lo;
    while p < hi && t[p] != '.'
        invariant
            lo <= p <= hi <= t@.len(),
            m == t@.subrange(lo as int, hi as int),
            crate::text::find_char_from(m, '.', 0) == crate::text::find_char_from(
                m,
                '.',
                p - lo,
            ),
        decreases hi - p,
    {
        assert(m[p - lo] == t@[p as int]);
        p += 1;
    }
    if p == hi {
        assert(crate::text::find_char_from(m, '.', p - lo) is None);
        hi - lo >= 1 && all_digits_exec(t, lo, hi)
    } else {
        assert(m[p - lo] == t@[p as int]);
        assert(m.subrange(0, p - lo) =~= t@.subrange(lo as int, p as int));
        assert(m.subrange(p - lo + 1, m.len() as int) =~= t@.subrange(p + 1, hi as int));
        hi - lo >= 2 && all_digits_exec(t, lo, p) && all_digits_exec(t, p + 1, hi)
    }
}

fn is_exponent_exec(t: &Vec<char>, lo: usize) -> (r: bool)
    requires
        lo <= t@.len(),
    ensures
        r == is_exponent(t@.subrange(lo as int, t@.len() as int)),
{
    let ghost x = t@.subrange(lo as int, t@.len() as int);
    let start = if lo < t.len() && (t[lo] == '+' || t[lo] == '-') {
        lo + 1
    } else {
        lo
    };
    assert(start == lo + 1 ==> x.drop_first() =~= t@.subrange(start as int, t@.len() as int));
    t.len() - start >= 1 && all_digits_exec(t, start, t.len())
}

pub fn is_float_literal_exec(s: &Vec<char>) -> (r: bool)
    ensures
        r == is_float_literal(s@),
{
    let lo: usize = if s.len() > 0 && (s[0] == '+' || s[0] == '-') {
        1
    } else {
        0
    };
    let ghost t = s@.subrange(lo as int, s@.len() as int);
    assert(lo == 1 ==> t =~= s@.drop_first());
    assert(lo == 0 ==> t =~= s@);
    if spells_exec(s, lo, &vec!['i', 'n', 'f']) || spells_exec(
        s,
        lo,
        &vec!['i', 'n', 'f', 'i', 'n', 'i', 't', 'y'],
    ) || spells_exec(s, lo, &vec!['n', 'a', 'n']) {
        return true;
    }
    let mut e: usize = lo;
    while e < s.len() && s[e] != 'e' && s[e] != 'E'
        invariant
            lo <= e <= s@.len(),
            t == s@.subrange(lo as int, s@.len() as int),
            exp_mark(t, 0) == exp_mark(t, e - lo),
        decreases s.len() - e,
    {
        assert(t[e - lo] == s@[e as int]);
        e += 1;
    }
    if e < s.len() {
        assert(t[e - lo] == s@[e as int]);
    }
    assert(exp_mark(t, e - lo) == e - lo);
    assert(t.subrange(0, e - lo) =~= s@.subrange(lo as int, e as int));
    if e < s.len() {
        assert(t.subrange(e - lo + 1, t.len() as int) =~= s@.subrange(e + 1, s@.len() as int));
    }
    is_mantissa_exec(s, lo, e) && (e == s.len() || is_exponent_exec(s, e + 1))
}

} // verus!

//! The scale argument of the collection statistics methods: a decimal number literal
//! whose value is finite.
use vstd::prelude::*;
use crate::json::{json5_normalized, normalize_json5};
use crate::text::string_of;

verus! {

pub open spec fn is_digit(c: char) -> bool {
    '0' <= c && c <= '9'
}

pub open spec fn is_sign(c: char) -> bool {
    c == '+' || c == '-'
}

/// The end of the run of digits that starts at `i`.
pub open spec fn digits_end(s: Seq<char>, i: int) -> int
    decreases s.len() - i,
{
    if 0 <= i < s.len() && is_digit(s[i]) {
        digits_end(s, i + 1)
    } else {
        i
    }
}

/// The end of the run of `0`s that starts at `i`, stopping at `b`.
pub open spec fn zeros_end(s: Seq<char>, i: int, b: int) -> int
    decreases b - i,
{
    if 0 <= i < b && i < s.len() && s[i] == '0' {
        zeros_end(s, i + 1, b)
    } else {
        i
    }
}

/// Where the parts of a literal start and end: after the sign (`a`), after the
/// integer digits (`b`), the fraction digits (`c` to `d`, with `c > b` when there is a
/// point).
pub open spec fn literal_bounds(s: Seq<char>) -> (int, int, int, int) {
    let a: int = if s.len() > 0 && is_sign(s[0]) { 1 } else { 0 };
    let b = digits_end(s, a);
    if b < s.len() && s[b] == '.' {
        (a, b, b + 1, digits_end(s, b + 1))
    } else {
        (a, b, b, b)
    }
}

/// A decimal number literal: an optional sign, digits with an optional point (at
/// least one digit before or after it), and an optional exponent (`e` or `E`, an
/// optional sign, at least one digit). This is the number grammar of `str::parse` for
/// the binary64 type; its other forms (`inf`, `infinity`, `nan`) never give a finite
/// value.
pub open spec fn is_number_literal(s: Seq<char>) -> bool {
    let (a, b, c, d) = literal_bounds(s);
    &&& (b > a || d > c)
    &&& (d == s.len() || ((s[d] == 'e' || s[d] == 'E') && {
        let g: int = if d + 1 < s.len() && is_sign(s[d + 1]) { d + 2 } else { d + 1 };
        let h = digits_end(s, g);
        h > g && h == s.len()
    }))
}

/// The literal written the way JSON5 reads numbers, with the same value: leading
/// zeros of the integer part dropped (one `0` kept when it is all zeros) and `e0`
/// added when there is no exponent, so that JSON5 reads it as a fraction, not as a
/// 64-bit integer.
pub open spec fn json5_form(s: Seq<char>) -> Seq<char> {
    let (a, b, c, d) = literal_bounds(s);
    let z = zeros_end(s, a, b);
    let int_part = if z == b {
        if b > a {
            seq!['0']
        } else {
            Seq::<char>::empty()
        }
    } else {
        s.subrange(z, b)
    };
    s.subrange(0, a) + int_part + s.subrange(b, s.len() as int) + (if d == s.len() {
        seq!['e', '0']
    } else {
        Seq::<char>::empty()
    })
}

/// A decimal number literal whose value is finite. JSON5 reads a literal of its
/// grammar with `str::parse` and refuses a value that is not finite, so this is the
/// test "`str::parse` gives a finite binary64 number".
pub open spec fn is_finite_number_literal(s: Seq<char>) -> bool {
    is_number_literal(s) && json5_normalized(json5_form(s)) is Ok
}

fn digits_end_exec(v: &Vec<char>, i: usize) -> (r: usize)
    requires
        i <= v.len(),
    ensures
        r == digits_end(v@, i as int),
        i <= r <= v.len(),
{
    let mut j = i;
    while j < v.len() && '0' <= v[j] && v[j] <= '9'
        invariant
            i <= j <= v.len(),
            digits_end(v@, i as int) == digits_end(v@, j as int),
        decreases v.len() - j,
    {
        j = j + 1;
    }
    j
}

fn zeros_end_exec(v: &Vec<char>, i: usize, b: usize) -> (r: usize)
    requires
        i <= b <= v.len(),
    ensures
        r == zeros_end(v@, i as int, b as int),
        i <= r <= b,
{
    let mut j = i;
    while j < b && v[j] == '0'
        invariant
            i <= j <= b,
            b <= v.len(),
            zeros_end(v@, i as int, b as int) == zeros_end(v@, j as int, b as int),
        decreases b - j,
    {
        j = j + 1;
    }
    j
}

fn literal_bounds_exec(v: &Vec<char>) -> (r: (usize, usize, usize, usize))
    ensures
        (r.0 as int, r.1 as int, r.2 as int, r.3 as int) == literal_bounds(v@),
        r.0 <= r.1 <= r.2 <= r.3 <= v.len(),
{
    let a: usize = if v.len() > 0 && (v[0] == '+' || v[0] == '-') { 1 } else { 0 };
    let b = digits_end_exec(v, a);
    if b < v.len() && v[b] == '.' {
        let d = digits_end_exec(v, b + 1);
        (a, b, b + 1, d)
    } else {
        (a, b, b, b)
    }
}

fn is_number_literal_exec(v: &Vec<char>) -> (r: bool)
    ensures
        r == is_number_literal(v@),
{
    let (a, b, c, d) = literal_bounds_exec(v);
    if !(b > a || d > c) {
        return false;
    }
    if d == v.len() {
        return true;
    }
    if !(v[d] == 'e' || v[d] == 'E') {
        return false;
    }
    let g: usize = if d + 1 < v.len() && (v[d + 1] == '+' || v[d + 1] == '-') { d + 2 } else { d + 1 };
    let h = digits_end_exec(v, g);
    h > g && h == v.len()
}

fn json5_form_exec(v: &Vec<char>) -> (r: Vec<char>)
    ensures
        r@ == json5_form(v@),
{
    let (a, b, _c, d) = literal_bounds_exec(v);
    let z = zeros_end_exec(v, a, b);
    let mut out: Vec<char> = Vec::new();
    let mut i: usize = 0;
    while i < a
        invariant
            i <= a <= v.len(),
            out@ == v@.subrange(0, i as int),
        decreases a - i,
    {
        out.push(v[i]);
        i = i + 1;
    }
    let ghost head = out@;
    if z == b {
        if b > a {
            out.push('0');
        }
    } else {
        let mut k = z;
        while k < b
            invariant
                z <= k <= b <= v.len(),
                out@ == head + v@.subrange(z as int, k as int),
            decreases b - k,
        {
            out.push(v[k]);
            k = k + 1;
        }
    }
    let ghost middle = out@;
    let mut k = b;
    while k < v.len()
        invariant
            b <= k <= v.len(),
            out@ == middle + v@.subrange(b as int, k as int),
        decreases v.len() - k,
    {
        out.push(v[k]);
        k = k + 1;
    }
    if d == v.len() {
        out.push('e');
        out.push('0');
    }
    assert(out@ =~= json5_form(v@));
    out
}

/// Whether a (trimmed) scale argument is a decimal number literal with a finite value.
pub fn is_finite_number_literal_exec(v: &Vec<char>) -> (r: bool)
    ensures
        r == is_finite_number_literal(v@),
{
    if !is_number_literal_exec(v) {
        return false;
    }
    let form = json5_form_exec(v);
    let text = string_of(form.as_slice());
    normalize_json5(text.as_str()).is_ok()
}

} // verus!

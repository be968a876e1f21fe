//! Scanning MongoDB shell text: matching parentheses and splitting arguments at
//! top-level commas, skipping quoted text.
use vstd::prelude::*;
use crate::text::{chars_of, string_of, trim, trim_bounds, views};

verus! {

pub open spec fn is_quote(c: char) -> bool {
    c == '\'' || c == '"' || c == '`'
}

/// The index of the `)` that closes the parenthesis level entered at or after `i`,
/// scanning with the given nesting depth, open quote and pending escape.
pub open spec fn paren_from(s: Seq<char>, i: int, depth: int, quote: Option<char>, escape: bool) -> Option<int>
    decreases s.len() - i,
{
    if i < 0 || i >= s.len() {
        None
    } else {
        let c = s[i];
        if escape {
            paren_from(s, i + 1, depth, quote, false)
        } else if quote is Some {
            if c == '\\' {
                paren_from(s, i + 1, depth, quote, true)
            } else if quote == Some(c) {
                paren_from(s, i + 1, depth, None, false)
            } else {
                paren_from(s, i + 1, depth, quote, false)
            }
        } else if is_quote(c) {
            paren_from(s, i + 1, depth, Some(c), false)
        } else if c == '(' {
            paren_from(s, i + 1, depth + 1, None, false)
        } else if c == ')' {
            if depth - 1 == 0 {
                Some(i)
            } else {
                paren_from(s, i + 1, depth - 1, None, false)
            }
        } else {
            paren_from(s, i + 1, depth, None, false)
        }
    }
}

/// The index of the parenthesis that closes the one at `open`: quoted text is
/// skipped, with `\` escaping the next character inside quotes.
pub open spec fn spec_matching_paren(s: Seq<char>, open: int) -> Option<int> {
    paren_from(s, open, 0, None, false)
}

proof fn lemma_paren_from_bounds(s: Seq<char>, i: int, depth: int, quote: Option<char>, escape: bool)
    ensures
        paren_from(s, i, depth, quote, escape) matches Some(k) ==> i <= k < s.len() && s[k] == ')',
    decreases s.len() - i,
{
    if 0 <= i < s.len() {
        let c = s[i];
        if escape {
            lemma_paren_from_bounds(s, i + 1, depth, quote, false);
        } else if quote is Some {
            if c == '\\' {
                lemma_paren_from_bounds(s, i + 1, depth, quote, true);
            } else if quote == Some(c) {
                lemma_paren_from_bounds(s, i + 1, depth, None, false);
            } else {
                lemma_paren_from_bounds(s, i + 1, depth, quote, false);
            }
        } else if is_quote(c) {
            lemma_paren_from_bounds(s, i + 1, depth, Some(c), false);
        } else if c == '(' {
            lemma_paren_from_bounds(s, i + 1, depth + 1, None, false);
        } else if c == ')' {
            if depth - 1 != 0 {
                lemma_paren_from_bounds(s, i + 1, depth - 1, None, false);
            }
        } else {
            lemma_paren_from_bounds(s, i + 1, depth, None, false);
        }
    }
}

/// Index of the parenthesis closing the one at `open`, if the text closes it.
pub fn matching_paren(s: &Vec<char>, open: usize) -> (r: Option<usize>)
    ensures
        match r {
            Some(k) => spec_matching_paren(s@, open as int) == Some(k as int) && open <= k < s.len() && s@[k as int]
                == ')',
            None => spec_matching_paren(s@, open as int) is None,
        },
{
    proof {
        lemma_paren_from_bounds(s@, open as int, 0, None, false);
    }
    let mut i = open;
    let mut opens: usize = 0;
    let mut closes: usize = 0;
    let mut quote: Option<char> = None;
    let mut escape = false;
    while i < s.len()
        invariant
            open <= i,
            opens <= i,
            closes <= i,
            spec_matching_paren(s@, open as int) == paren_from(s@, i as int, opens - closes, quote, escape),
        decreases s.len() - i,
    {
        let c = s[i];
        if escape {
            escape = false;
        } else if quote.is_some() {
            if c == '\\' {
                escape = true;
            } else if quote == Some(c) {
                quote = None;
            }
        } else if c == '\'' || c == '"' || c == '`' {
            quote = Some(c);
        } else if c == '(' {
            opens = opens + 1;
        } else if c == ')' {
            if closes + 1 == opens {
                return Some(i);
            }
            closes = closes + 1;
        }
        i = i + 1;
    }
    None
}

/// The pieces of `s` between top-level commas from `i` on, each trimmed, appended to
/// `acc`; brackets of all three kinds nest, and quoted text is skipped.
pub open spec fn split_from(
    s: Seq<char>,
    i: int,
    start: int,
    depth: int,
    quote: Option<char>,
    escape: bool,
    acc: Seq<Seq<char>>,
) -> Seq<Seq<char>>
    decreases s.len() - i,
{
    if i < 0 || i >= s.len() {
        acc.push(trim(s.subrange(start, s.len() as int)))
    } else {
        let c = s[i];
        if escape {
            split_from(s, i + 1, start, depth, quote, false, acc)
        } else if quote is Some {
            if c == '\\' {
                split_from(s, i + 1, start, depth, quote, true, acc)
            } else if quote == Some(c) {
                split_from(s, i + 1, start, depth, None, false, acc)
            } else {
                split_from(s, i + 1, start, depth, quote, false, acc)
            }
        } else if is_quote(c) {
            split_from(s, i + 1, start, depth, Some(c), false, acc)
        } else if c == '(' || c == '[' || c == '{' {
            split_from(s, i + 1, start, depth + 1, None, false, acc)
        } else if c == ')' || c == ']' || c == '}' {
            split_from(s, i + 1, start, depth - 1, None, false, acc)
        } else if c == ',' && depth == 0 {
            split_from(s, i + 1, i + 1, depth, None, false, acc.push(trim(s.subrange(start, i))))
        } else {
            split_from(s, i + 1, start, depth, None, false, acc)
        }
    }
}

/// The arguments of a call: the text between top-level commas, each trimmed; none
/// for blank text.
pub open spec fn spec_split_top_level(s: Seq<char>) -> Seq<Seq<char>> {
    if trim(s).len() == 0 {
        Seq::empty()
    } else {
        split_from(s, 0, 0, 0, None, false, Seq::empty())
    }
}

/// The trimmed text of `s[a..b]`.
pub fn trimmed_slice(s: &Vec<char>, a: usize, b: usize) -> (r: String)
    requires
        a <= b <= s.len(),
    ensures
        r@ == trim(s@.subrange(a as int, b as int)),
{
    let mut piece: Vec<char> = Vec::new();
    let mut k = a;
    while k < b
        invariant
            a <= k <= b <= s.len(),
            piece@ == s@.subrange(a as int, k as int),
        decreases b - k,
    {
        piece.push(s[k]);
        assert(piece@ =~= s@.subrange(a as int, k + 1));
        k = k + 1;
    }
    let (x, y) = trim_bounds(&piece);
    string_of(&piece.as_slice()[x..y])
}

/// Splits call arguments at top-level commas.
pub fn split_top_level(s: &Vec<char>) -> (r: Vec<String>)
    ensures
        views(r@) == spec_split_top_level(s@),
{
    let (x, y) = trim_bounds(s);
    if x == y {
        return Vec::new();
    }
    let mut out: Vec<String> = Vec::new();
    let mut i: usize = 0;
    let mut start: usize = 0;
    let mut opens: usize = 0;
    let mut closes: usize = 0;
    let mut quote: Option<char> = None;
    let mut escape = false;
    assert(views(out@) =~= Seq::<Seq<char>>::empty());
    assert(trim(s@).len() > 0);
    while i < s.len()
        invariant
            start <= i <= s.len(),
            opens <= i,
            closes <= i,
            spec_split_top_level(s@) == split_from(
                s@,
                i as int,
                start as int,
                opens - closes,
                quote,
                escape,
                views(out@),
            ),
        decreases s.len() - i,
    {
        let c = s[i];
        if escape {
            escape = false;
        } else if quote.is_some() {
            if c == '\\' {
                escape = true;
            } else if quote == Some(c) {
                quote = None;
            }
        } else if c == '\'' || c == '"' || c == '`' {
            quote = Some(c);
        } else if c == '(' || c == '[' || c == '{' {
            opens = opens + 1;
        } else if c == ')' || c == ']' || c == '}' {
            closes = closes + 1;
        } else if c == ',' && opens == closes {
            let piece = trimmed_slice(s, start, i);
            let ghost before = out@;
            out.push(piece);
            assert(views(out@) =~= views(before).push(piece@));
            start = i + 1;
        }
        i = i + 1;
    }
    let piece = trimmed_slice(s, start, s.len());
    let ghost before = out@;
    out.push(piece);
    assert(views(out@) =~= views(before).push(piece@));
    out
}

} // verus!

//! Excel workbook details: number formats, cell references, sheet paths, and the rows
//! of a sheet.
use vstd::prelude::*;
use crate::text::{
    chars_of, find_char, find_char_exec, lemma_plain_text_normalized, lower, lower_char, to_lower_char, trim, trim_bounds,
};

verus! {

/// How a number format shows a value in time.
#[derive(Debug, Clone, Copy, PartialEq, Eq, Structural)]
pub enum XlsxTemporalKind {
    Date,
    Time,
    DateTime,
    Duration,
}

/// The temporal kind of Excel's built-in number formats.
pub open spec fn spec_builtin_temporal_kind(id: u16) -> Option<XlsxTemporalKind> {
    if 14 <= id <= 17 {
        Some(XlsxTemporalKind::Date)
    } else if (18 <= id <= 21) || id == 45 || id == 47 {
        Some(XlsxTemporalKind::Time)
    } else if id == 22 {
        Some(XlsxTemporalKind::DateTime)
    } else if id == 46 {
        Some(XlsxTemporalKind::Duration)
    } else {
        None
    }
}

pub fn xlsx_builtin_temporal_kind(num_fmt_id: u16) -> (r: Option<XlsxTemporalKind>)
    ensures
        r == spec_builtin_temporal_kind(num_fmt_id),
{
    if 14 <= num_fmt_id && num_fmt_id <= 17 {
        Some(XlsxTemporalKind::Date)
    } else if (18 <= num_fmt_id && num_fmt_id <= 21) || num_fmt_id == 45 || num_fmt_id == 47 {
        Some(XlsxTemporalKind::Time)
    } else if num_fmt_id == 22 {
        Some(XlsxTemporalKind::DateTime)
    } else if num_fmt_id == 46 {
        Some(XlsxTemporalKind::Duration)
    } else {
        None
    }
}

/// A bracketed token that marks elapsed time: `[h]`, `[mm]`, `[ss]` and the like.
pub open spec fn is_duration_token(t: Seq<char>) -> bool {
    t == seq!['h'] || t == seq!['h', 'h'] || t == seq!['m'] || t == seq!['m', 'm'] || t == seq!['s'] || t == seq![
        's',
        's',
    ]
}

pub open spec fn step_to(i: int, n: int, len: int) -> int {
    if i + n <= len { i + n } else { len }
}

/// The lowercased letters of a format code that are not quoted, escaped, bracketed
/// or past the first section (`;`); `None` when a bracket holds an elapsed-time token.
pub open spec fn format_scan(s: Seq<char>, i: int, acc: Seq<char>) -> Option<Seq<char>>
    decreases s.len() - i,
{
    if i < 0 || i >= s.len() {
        Some(acc)
    } else {
        let c = s[i];
        if c == '"' {
            let j = find_char(s, i + 1, '"');
            if j >= i + 1 { format_scan(s, step_to(j, 1, s.len() as int), acc) } else { Some(acc) }
        } else if c == '\\' || c == '_' || c == '*' {
            format_scan(s, step_to(i, 2, s.len() as int), acc)
        } else if c == ';' {
            Some(acc)
        } else if c == '[' {
            let j = find_char(s, i + 1, ']');
            if j >= i + 1 {
                if is_duration_token(lower(trim(s.subrange(i + 1, j)))) {
                    None
                } else {
                    format_scan(s, step_to(j, 1, s.len() as int), acc)
                }
            } else {
                Some(acc)
            }
        } else {
            format_scan(s, i + 1, acc.push(lower_char(c)))
        }
    }
}

/// The temporal kind a custom number format shows: elapsed time for an elapsed-time
/// bracket; else date and/or time from the letters left (`y`, `d`, or `m` without
/// time parts, for dates; `h`, `s`, `am/pm`, `a/p` for times).
pub open spec fn spec_temporal_kind_from_format_code(code: Seq<char>) -> Option<XlsxTemporalKind> {
    match format_scan(code, 0, Seq::empty()) {
        None => Some(XlsxTemporalKind::Duration),
        Some(n) => {
            let has_time = n.contains('h') || n.contains('s') || crate::text::contains_seq(n, "am/pm"@)
                || crate::text::contains_seq(n, "a/p"@);
            let has_month = n.contains('m');
            let has_date = n.contains('y') || n.contains('d') || (has_month && !has_time);
            if has_date && has_time {
                Some(XlsxTemporalKind::DateTime)
            } else if has_date {
                Some(XlsxTemporalKind::Date)
            } else if has_time {
                Some(XlsxTemporalKind::Time)
            } else {
                None
            }
        },
    }
}

fn is_duration_token_exec(v: &Vec<char>) -> (r: bool)
    ensures
        r == is_duration_token(v@),
{
    if v.len() == 1 {
        let c = v[0];
        assert(v@ =~= seq![c]);
        c == 'h' || c == 'm' || c == 's'
    } else if v.len() == 2 {
        let a = v[0];
        let b = v[1];
        assert(v@ =~= seq![a, b]);
        a == b && (a == 'h' || a == 'm' || a == 's')
    } else {
        false
    }
}

pub fn xlsx_temporal_kind_from_format_code(format_code: &str) -> (r: Option<XlsxTemporalKind>)
    ensures
        r == spec_temporal_kind_from_format_code(format_code@),
{
    let s = chars_of(format_code);
    let mut normalized: Vec<char> = Vec::new();
    let mut i: usize = 0;
    while i < s.len()
        invariant_except_break
            i <= s.len(),
            s@ == format_code@,
            format_scan(s@, 0, Seq::<char>::empty()) == format_scan(s@, i as int, normalized@),
        ensures
            format_scan(s@, 0, Seq::empty()) == Some(normalized@),
        decreases s.len() - i,
    {
        let c = s[i];
        if c == '"' {
            let j = find_char_exec(&s, i + 1, '"');
            i = if j < s.len() { j + 1 } else { s.len() };
        } else if c == '\\' || c == '_' || c == '*' {
            i = if s.len() - i >= 2 { i + 2 } else { s.len() };
        } else if c == ';' {
            break;
        } else if c == '[' {
            let j = find_char_exec(&s, i + 1, ']');
            let mut bracket: Vec<char> = Vec::new();
            for k in i + 1..j
                invariant
                    i + 1 <= j <= s.len(),
                    bracket@ =~= s@.subrange(i + 1, k as int),
            {
                bracket.push(s[k]);
            }
            let (a, b) = trim_bounds(&bracket);
            let mut token: Vec<char> = Vec::new();
            for k in a..b
                invariant
                    a <= b <= bracket.len(),
                    token@ =~= lower(bracket@.subrange(a as int, k as int)),
            {
                token.push(to_lower_char(bracket[k]));
            }
            proof {
                assert(bracket@.subrange(a as int, b as int) =~= trim(s@.subrange(i + 1, j as int)));
                assert(token@ =~= lower(trim(s@.subrange(i + 1, j as int))));
            }
            if is_duration_token_exec(&token) {
                assert(format_scan(s@, i as int, normalized@) == None::<Seq<char>>);
                return Some(XlsxTemporalKind::Duration);
            }
            i = if j < s.len() { j + 1 } else { s.len() };
        } else {
            normalized.push(to_lower_char(c));
            i = i + 1;
        }
    }
    let n = normalized.as_slice();
    let has_time = crate::text::chars_contain(n, 'h') || crate::text::chars_contain(n, 's')
        || crate::text::chars_contain_seq(n, chars_of("am/pm").as_slice()) || crate::text::chars_contain_seq(
        n,
        chars_of("a/p").as_slice(),
    );
    let has_month = crate::text::chars_contain(n, 'm');
    let has_date = crate::text::chars_contain(n, 'y') || crate::text::chars_contain(n, 'd') || (has_month
        && !has_time);
    if has_date && has_time {
        Some(XlsxTemporalKind::DateTime)
    } else if has_date {
        Some(XlsxTemporalKind::Date)
    } else if has_time {
        Some(XlsxTemporalKind::Time)
    } else {
        None
    }
}


/// The number formats that Excel builds in for dates and times (ECMA-376 Part 1,
/// 18.8.30), by id; other built-in formats show plain numbers.
pub open spec fn excel_builtin_date_time_code(id: u16) -> Option<Seq<char>> {
    match id {
        14 => Some(seq!['m', 'm', '-', 'd', 'd', '-', 'y', 'y']),
        15 => Some(seq!['d', '-', 'm', 'm', 'm', '-', 'y', 'y']),
        16 => Some(seq!['d', '-', 'm', 'm', 'm']),
        17 => Some(seq!['m', 'm', 'm', '-', 'y', 'y']),
        18 => Some(seq!['h', ':', 'm', 'm', ' ', 'A', 'M', '/', 'P', 'M']),
        19 => Some(seq!['h', ':', 'm', 'm', ':', 's', 's', ' ', 'A', 'M', '/', 'P', 'M']),
        20 => Some(seq!['h', ':', 'm', 'm']),
        21 => Some(seq!['h', ':', 'm', 'm', ':', 's', 's']),
        22 => Some(seq!['m', '/', 'd', '/', 'y', 'y', ' ', 'h', ':', 'm', 'm']),
        45 => Some(seq!['m', 'm', ':', 's', 's']),
        46 => Some(seq!['[', 'h', ']', ':', 'm', 'm', ':', 's', 's']),
        47 => Some(seq!['m', 'm', 's', 's', '.', '0']),
        _ => None,
    }
}

proof fn lemma_letter_absent(n: Seq<char>, c: char)
    requires
        forall|i: int| 0 <= i < n.len() ==> #[trigger] n[i] != c,
    ensures
        !n.contains(c),
        forall|p: Seq<char>| p.len() > 0 && p[0] == c ==> !crate::text::contains_seq(n, p),
{
    assert forall|p: Seq<char>| p.len() > 0 && p[0] == c implies !crate::text::contains_seq(n, p) by {
        if crate::text::contains_seq(n, p) {
            let i = choose|i: int| 0 <= i && i + p.len() <= n.len() && #[trigger] n.subrange(i, i + p.len()) == p;
            assert(n.subrange(i, i + p.len())[0] == n[i]);
        }
    }
}

proof fn lemma_builtin_code_14()
    ensures
        spec_temporal_kind_from_format_code(seq!['m', 'm', '-', 'd', 'd', '-', 'y', 'y']) == Some(XlsxTemporalKind::Date),
{
    reveal_with_fuel(format_scan, 10);
    reveal_strlit("am/pm");
    reveal_strlit("a/p");
    let code = seq!['m', 'm', '-', 'd', 'd', '-', 'y', 'y'];
    let n = seq!['m', 'm', '-', 'd', 'd', '-', 'y', 'y'];
    assert(format_scan(code, 0, Seq::empty()) == Some(n));
    assert forall|i: int| 0 <= i < n.len() implies #[trigger] n[i] != 'h' by {
        if i == 0 {} else if i == 1 {} else if i == 2 {} else if i == 3 {} else if i == 4 {} else if i == 5 {} else if i == 6 {} else if i == 7 {}
    }
    lemma_letter_absent(n, 'h');
    assert forall|i: int| 0 <= i < n.len() implies #[trigger] n[i] != 's' by {
        if i == 0 {} else if i == 1 {} else if i == 2 {} else if i == 3 {} else if i == 4 {} else if i == 5 {} else if i == 6 {} else if i == 7 {}
    }
    lemma_letter_absent(n, 's');
    assert(n[6] == 'y');
    assert(n[3] == 'd');
    assert(n[0] == 'm');
    assert forall|i: int| 0 <= i < n.len() implies #[trigger] n[i] != 'a' by {
        if i == 0 {} else if i == 1 {} else if i == 2 {} else if i == 3 {} else if i == 4 {} else if i == 5 {} else if i == 6 {} else if i == 7 {}
    }
    lemma_letter_absent(n, 'a');
}

proof fn lemma_builtin_code_15()
    ensures
        spec_temporal_kind_from_format_code(seq!['d', '-', 'm', 'm', 'm', '-', 'y', 'y']) == Some(XlsxTemporalKind::Date),
{
    reveal_with_fuel(format_scan, 10);
    reveal_strlit("am/pm");
    reveal_strlit("a/p");
    let code = seq!['d', '-', 'm', 'm', 'm', '-', 'y', 'y'];
    let n = seq!['d', '-', 'm', 'm', 'm', '-', 'y', 'y'];
    assert(format_scan(code, 0, Seq::empty()) == Some(n));
    assert forall|i: int| 0 <= i < n.len() implies #[trigger] n[i] != 'h' by {
        if i == 0 {} else if i == 1 {} else if i == 2 {} else if i == 3 {} else if i == 4 {} else if i == 5 {} else if i == 6 {} else if i == 7 {}
    }
    lemma_letter_absent(n, 'h');
    assert forall|i: int| 0 <= i < n.len() implies #[trigger] n[i] != 's' by {
        if i == 0 {} else if i == 1 {} else if i == 2 {} else if i == 3 {} else if i == 4 {} else if i == 5 {} else if i == 6 {} else if i == 7 {}
    }
    lemma_letter_absent(n, 's');
    assert(n[6] == 'y');
    assert(n[0] == 'd');
    assert(n[2] == 'm');
    assert forall|i: int| 0 <= i < n.len() implies #[trigger] n[i] != 'a' by {
        if i == 0 {} else if i == 1 {} else if i == 2 {} else if i == 3 {} else if i == 4 {} else if i == 5 {} else if i == 6 {} else if i == 7 {}
    }
    lemma_letter_absent(n, 'a');
}

proof fn lemma_builtin_code_16()
    ensures
        spec_temporal_kind_from_format_code(seq!['d', '-', 'm', 'm', 'm']) == Some(XlsxTemporalKind::Date),
{
    reveal_with_fuel(format_scan, 7);
    reveal_strlit("am/pm");
    reveal_strlit("a/p");
    let code = seq!['d', '-', 'm', 'm', 'm'];
    let n = seq!['d', '-', 'm', 'm', 'm'];
    assert(format_scan(code, 0, Seq::empty()) == Some(n));
    assert forall|i: int| 0 <= i < n.len() implies #[trigger] n[i] != 'h' by {
        if i == 0 {} else if i == 1 {} else if i == 2 {} else if i == 3 {} else if i == 4 {}
    }
    lemma_letter_absent(n, 'h');
    assert forall|i: int| 0 <= i < n.len() implies #[trigger] n[i] != 's' by {
        if i == 0 {} else if i == 1 {} else if i == 2 {} else if i == 3 {} else if i == 4 {}
    }
    lemma_letter_absent(n, 's');
    assert forall|i: int| 0 <= i < n.len() implies #[trigger] n[i] != 'y' by {
        if i == 0 {} else if i == 1 {} else if i == 2 {} else if i == 3 {} else if i == 4 {}
    }
    lemma_letter_absent(n, 'y');
    assert(n[0] == 'd');
    assert(n[2] == 'm');
    assert forall|i: int| 0 <= i < n.len() implies #[trigger] n[i] != 'a' by {
        if i == 0 {} else if i == 1 {} else if i == 2 {} else if i == 3 {} else if i == 4 {}
    }
    lemma_letter_absent(n, 'a');
}

proof fn lemma_builtin_code_17()
    ensures
        spec_temporal_kind_from_format_code(seq!['m', 'm', 'm', '-', 'y', 'y']) == Some(XlsxTemporalKind::Date),
{
    reveal_with_fuel(format_scan, 8);
    reveal_strlit("am/pm");
    reveal_strlit("a/p");
    let code = seq!['m', 'm', 'm', '-', 'y', 'y'];
    let n = seq!['m', 'm', 'm', '-', 'y', 'y'];
    assert(format_scan(code, 0, Seq::empty()) == Some(n));
    assert forall|i: int| 0 <= i < n.len() implies #[trigger] n[i] != 'h' by {
        if i == 0 {} else if i == 1 {} else if i == 2 {} else if i == 3 {} else if i == 4 {} else if i == 5 {}
    }
    lemma_letter_absent(n, 'h');
    assert forall|i: int| 0 <= i < n.len() implies #[trigger] n[i] != 's' by {
        if i == 0 {} else if i == 1 {} else if i == 2 {} else if i == 3 {} else if i == 4 {} else if i == 5 {}
    }
    lemma_letter_absent(n, 's');
    assert(n[4] == 'y');
    assert forall|i: int| 0 <= i < n.len() implies #[trigger] n[i] != 'd' by {
        if i == 0 {} else if i == 1 {} else if i == 2 {} else if i == 3 {} else if i == 4 {} else if i == 5 {}
    }
    lemma_letter_absent(n, 'd');
    assert(n[0] == 'm');
    assert forall|i: int| 0 <= i < n.len() implies #[trigger] n[i] != 'a' by {
        if i == 0 {} else if i == 1 {} else if i == 2 {} else if i == 3 {} else if i == 4 {} else if i == 5 {}
    }
    lemma_letter_absent(n, 'a');
}

proof fn lemma_builtin_code_18()
    ensures
        spec_temporal_kind_from_format_code(seq!['h', ':', 'm', 'm', ' ', 'A', 'M', '/', 'P', 'M']) == Some(XlsxTemporalKind::Time),
{
    reveal_with_fuel(format_scan, 12);
    reveal_strlit("am/pm");
    reveal_strlit("a/p");
    let code = seq!['h', ':', 'm', 'm', ' ', 'A', 'M', '/', 'P', 'M'];
    let n = seq!['h', ':', 'm', 'm', ' ', 'a', 'm', '/', 'p', 'm'];
    assert(format_scan(code, 0, Seq::empty()) == Some(n));
    assert(n[0] == 'h');
    assert forall|i: int| 0 <= i < n.len() implies #[trigger] n[i] != 's' by {
        if i == 0 {} else if i == 1 {} else if i == 2 {} else if i == 3 {} else if i == 4 {} else if i == 5 {} else if i == 6 {} else if i == 7 {} else if i == 8 {} else if i == 9 {}
    }
    lemma_letter_absent(n, 's');
    assert forall|i: int| 0 <= i < n.len() implies #[trigger] n[i] != 'y' by {
        if i == 0 {} else if i == 1 {} else if i == 2 {} else if i == 3 {} else if i == 4 {} else if i == 5 {} else if i == 6 {} else if i == 7 {} else if i == 8 {} else if i == 9 {}
    }
    lemma_letter_absent(n, 'y');
    assert forall|i: int| 0 <= i < n.len() implies #[trigger] n[i] != 'd' by {
        if i == 0 {} else if i == 1 {} else if i == 2 {} else if i == 3 {} else if i == 4 {} else if i == 5 {} else if i == 6 {} else if i == 7 {} else if i == 8 {} else if i == 9 {}
    }
    lemma_letter_absent(n, 'd');
    assert(n[2] == 'm');
    assert(n[5] == 'a');
}

proof fn lemma_builtin_code_19()
    ensures
        spec_temporal_kind_from_format_code(seq!['h', ':', 'm', 'm', ':', 's', 's', ' ', 'A', 'M', '/', 'P', 'M']) == Some(XlsxTemporalKind::Time),
{
    reveal_with_fuel(format_scan, 15);
    reveal_strlit("am/pm");
    reveal_strlit("a/p");
    let code = seq!['h', ':', 'm', 'm', ':', 's', 's', ' ', 'A', 'M', '/', 'P', 'M'];
    let n = seq!['h', ':', 'm', 'm', ':', 's', 's', ' ', 'a', 'm', '/', 'p', 'm'];
    assert(format_scan(code, 0, Seq::empty()) == Some(n));
    assert(n[0] == 'h');
    assert(n[5] == 's');
    assert forall|i: int| 0 <= i < n.len() implies #[trigger] n[i] != 'y' by {
        if i == 0 {} else if i == 1 {} else if i == 2 {} else if i == 3 {} else if i == 4 {} else if i == 5 {} else if i == 6 {} else if i == 7 {} else if i == 8 {} else if i == 9 {} else if i == 10 {} else if i == 11 {} else if i == 12 {}
    }
    lemma_letter_absent(n, 'y');
    assert forall|i: int| 0 <= i < n.len() implies #[trigger] n[i] != 'd' by {
        if i == 0 {} else if i == 1 {} else if i == 2 {} else if i == 3 {} else if i == 4 {} else if i == 5 {} else if i == 6 {} else if i == 7 {} else if i == 8 {} else if i == 9 {} else if i == 10 {} else if i == 11 {} else if i == 12 {}
    }
    lemma_letter_absent(n, 'd');
    assert(n[2] == 'm');
    assert(n[8] == 'a');
}

proof fn lemma_builtin_code_20()
    ensures
        spec_temporal_kind_from_format_code(seq!['h', ':', 'm', 'm']) == Some(XlsxTemporalKind::Time),
{
    reveal_with_fuel(format_scan, 6);
    reveal_strlit("am/pm");
    reveal_strlit("a/p");
    let code = seq!['h', ':', 'm', 'm'];
    let n = seq!['h', ':', 'm', 'm'];
    assert(format_scan(code, 0, Seq::empty()) == Some(n));
    assert(n[0] == 'h');
    assert forall|i: int| 0 <= i < n.len() implies #[trigger] n[i] != 's' by {
        if i == 0 {} else if i == 1 {} else if i == 2 {} else if i == 3 {}
    }
    lemma_letter_absent(n, 's');
    assert forall|i: int| 0 <= i < n.len() implies #[trigger] n[i] != 'y' by {
        if i == 0 {} else if i == 1 {} else if i == 2 {} else if i == 3 {}
    }
    lemma_letter_absent(n, 'y');
    assert forall|i: int| 0 <= i < n.len() implies #[trigger] n[i] != 'd' by {
        if i == 0 {} else if i == 1 {} else if i == 2 {} else if i == 3 {}
    }
    lemma_letter_absent(n, 'd');
    assert(n[2] == 'm');
    assert forall|i: int| 0 <= i < n.len() implies #[trigger] n[i] != 'a' by {
        if i == 0 {} else if i == 1 {} else if i == 2 {} else if i == 3 {}
    }
    lemma_letter_absent(n, 'a');
}

proof fn lemma_builtin_code_21()
    ensures
        spec_temporal_kind_from_format_code(seq!['h', ':', 'm', 'm', ':', 's', 's']) == Some(XlsxTemporalKind::Time),
{
    reveal_with_fuel(format_scan, 9);
    reveal_strlit("am/pm");
    reveal_strlit("a/p");
    let code = seq!['h', ':', 'm', 'm', ':', 's', 's'];
    let n = seq!['h', ':', 'm', 'm', ':', 's', 's'];
    assert(format_scan(code, 0, Seq::empty()) == Some(n));
    assert(n[0] == 'h');
    assert(n[5] == 's');
    assert forall|i: int| 0 <= i < n.len() implies #[trigger] n[i] != 'y' by {
        if i == 0 {} else if i == 1 {} else if i == 2 {} else if i == 3 {} else if i == 4 {} else if i == 5 {} else if i == 6 {}
    }
    lemma_letter_absent(n, 'y');
    assert forall|i: int| 0 <= i < n.len() implies #[trigger] n[i] != 'd' by {
        if i == 0 {} else if i == 1 {} else if i == 2 {} else if i == 3 {} else if i == 4 {} else if i == 5 {} else if i == 6 {}
    }
    lemma_letter_absent(n, 'd');
    assert(n[2] == 'm');
    assert forall|i: int| 0 <= i < n.len() implies #[trigger] n[i] != 'a' by {
        if i == 0 {} else if i == 1 {} else if i == 2 {} else if i == 3 {} else if i == 4 {} else if i == 5 {} else if i == 6 {}
    }
    lemma_letter_absent(n, 'a');
}

proof fn lemma_builtin_code_22()
    ensures
        spec_temporal_kind_from_format_code(seq!['m', '/', 'd', '/', 'y', 'y', ' ', 'h', ':', 'm', 'm']) == Some(XlsxTemporalKind::DateTime),
{
    reveal_with_fuel(format_scan, 13);
    reveal_strlit("am/pm");
    reveal_strlit("a/p");
    let code = seq!['m', '/', 'd', '/', 'y', 'y', ' ', 'h', ':', 'm', 'm'];
    let n = seq!['m', '/', 'd', '/', 'y', 'y', ' ', 'h', ':', 'm', 'm'];
    assert(format_scan(code, 0, Seq::empty()) == Some(n));
    assert(n[7] == 'h');
    assert forall|i: int| 0 <= i < n.len() implies #[trigger] n[i] != 's' by {
        if i == 0 {} else if i == 1 {} else if i == 2 {} else if i == 3 {} else if i == 4 {} else if i == 5 {} else if i == 6 {} else if i == 7 {} else if i == 8 {} else if i == 9 {} else if i == 10 {}
    }
    lemma_letter_absent(n, 's');
    assert(n[4] == 'y');
    assert(n[2] == 'd');
    assert(n[0] == 'm');
    assert forall|i: int| 0 <= i < n.len() implies #[trigger] n[i] != 'a' by {
        if i == 0 {} else if i == 1 {} else if i == 2 {} else if i == 3 {} else if i == 4 {} else if i == 5 {} else if i == 6 {} else if i == 7 {} else if i == 8 {} else if i == 9 {} else if i == 10 {}
    }
    lemma_letter_absent(n, 'a');
}

proof fn lemma_builtin_code_45()
    ensures
        spec_temporal_kind_from_format_code(seq!['m', 'm', ':', 's', 's']) == Some(XlsxTemporalKind::Time),
{
    reveal_with_fuel(format_scan, 7);
    reveal_strlit("am/pm");
    reveal_strlit("a/p");
    let code = seq!['m', 'm', ':', 's', 's'];
    let n = seq!['m', 'm', ':', 's', 's'];
    assert(format_scan(code, 0, Seq::empty()) == Some(n));
    assert forall|i: int| 0 <= i < n.len() implies #[trigger] n[i] != 'h' by {
        if i == 0 {} else if i == 1 {} else if i == 2 {} else if i == 3 {} else if i == 4 {}
    }
    lemma_letter_absent(n, 'h');
    assert(n[3] == 's');
    assert forall|i: int| 0 <= i < n.len() implies #[trigger] n[i] != 'y' by {
        if i == 0 {} else if i == 1 {} else if i == 2 {} else if i == 3 {} else if i == 4 {}
    }
    lemma_letter_absent(n, 'y');
    assert forall|i: int| 0 <= i < n.len() implies #[trigger] n[i] != 'd' by {
        if i == 0 {} else if i == 1 {} else if i == 2 {} else if i == 3 {} else if i == 4 {}
    }
    lemma_letter_absent(n, 'd');
    assert(n[0] == 'm');
    assert forall|i: int| 0 <= i < n.len() implies #[trigger] n[i] != 'a' by {
        if i == 0 {} else if i == 1 {} else if i == 2 {} else if i == 3 {} else if i == 4 {}
    }
    lemma_letter_absent(n, 'a');
}

proof fn lemma_builtin_code_46()
    ensures
        spec_temporal_kind_from_format_code(seq!['[', 'h', ']', ':', 'm', 'm', ':', 's', 's']) == Some(XlsxTemporalKind::Duration),
{
    reveal_with_fuel(format_scan, 2);
    let code = seq!['[', 'h', ']', ':', 'm', 'm', ':', 's', 's'];
    assert(code.subrange(1, 2) =~= seq!['h']);
    assert(find_char(code, 2, ']') == 2);
    assert(find_char(code, 1, ']') == 2);
    lemma_plain_text_normalized(seq!['h']);
    assert(format_scan(code, 0, Seq::empty()) is None);
}

proof fn lemma_builtin_code_47()
    ensures
        spec_temporal_kind_from_format_code(seq!['m', 'm', 's', 's', '.', '0']) == Some(XlsxTemporalKind::Time),
{
    reveal_with_fuel(format_scan, 8);
    reveal_strlit("am/pm");
    reveal_strlit("a/p");
    let code = seq!['m', 'm', 's', 's', '.', '0'];
    let n = seq!['m', 'm', 's', 's', '.', '0'];
    assert(format_scan(code, 0, Seq::empty()) == Some(n));
    assert forall|i: int| 0 <= i < n.len() implies #[trigger] n[i] != 'h' by {
        if i == 0 {} else if i == 1 {} else if i == 2 {} else if i == 3 {} else if i == 4 {} else if i == 5 {}
    }
    lemma_letter_absent(n, 'h');
    assert(n[2] == 's');
    assert forall|i: int| 0 <= i < n.len() implies #[trigger] n[i] != 'y' by {
        if i == 0 {} else if i == 1 {} else if i == 2 {} else if i == 3 {} else if i == 4 {} else if i == 5 {}
    }
    lemma_letter_absent(n, 'y');
    assert forall|i: int| 0 <= i < n.len() implies #[trigger] n[i] != 'd' by {
        if i == 0 {} else if i == 1 {} else if i == 2 {} else if i == 3 {} else if i == 4 {} else if i == 5 {}
    }
    lemma_letter_absent(n, 'd');
    assert(n[0] == 'm');
    assert forall|i: int| 0 <= i < n.len() implies #[trigger] n[i] != 'a' by {
        if i == 0 {} else if i == 1 {} else if i == 2 {} else if i == 3 {} else if i == 4 {} else if i == 5 {}
    }
    lemma_letter_absent(n, 'a');
}

/// The temporal kind given to a built-in number format is the one its format code
/// shows: dates for `mm-dd-yy` and the like, times for `h:mm` and the like, date and
/// time for `m/d/yy h:mm`, elapsed time for `[h]:mm:ss`; built-in formats without a
/// date or time code have none.
pub proof fn lemma_builtin_kind_matches_its_format_code(id: u16)
    ensures
        spec_builtin_temporal_kind(id) == match excel_builtin_date_time_code(id) {
            Some(code) => spec_temporal_kind_from_format_code(code),
            None => None,
        },
{
    lemma_builtin_code_14();
    lemma_builtin_code_15();
    lemma_builtin_code_16();
    lemma_builtin_code_17();
    lemma_builtin_code_18();
    lemma_builtin_code_19();
    lemma_builtin_code_20();
    lemma_builtin_code_21();
    lemma_builtin_code_22();
    lemma_builtin_code_45();
    lemma_builtin_code_46();
    lemma_builtin_code_47();
}

} // verus!

//! The rows of a worksheet: cell values and labels, the sheet to read, and the rows
//! within the selected range.
use vstd::prelude::*;
use crate::json::{JsonModel, JsonNumber, JsonValue};
use crate::table_import::options::{ImportRowRange, TableImportParseOptions};
use crate::table_import::rows::csv_value;
use crate::table_import::xlsx::XlsxTemporalKind;
use crate::table_import::mapping::texts;
use crate::table_import::rows::{column_name, generated_columns, normalize_header, spec_generated_columns, spec_normalize_header, ParsedImportFile};
use crate::table_import::xlsx_xml::{cell_styles_view, style_view, XlsxCellStyle};
use crate::text::{chars_eq_ic, chars_of, dec, eq_ic, i64_to_string, push_char, push_dec, push_str, signed_dec, str_eq, string_of, strip_trailing, trim, trim_bounds};

verus! {

/// What DBX needs of an Excel date-time cell: whether it is a duration, its length in
/// milliseconds when it reads as one, its date and date-time texts when it reads as a
/// date (`%Y-%m-%d` and `%Y-%m-%d %H:%M:%S%.f`), whether its serial number lies in
/// `[0, 1)`, and its own text.
#[derive(Debug)]
pub struct ExcelDateTimeParts {
    pub is_duration: bool,
    pub duration_millis: Option<i64>,
    pub date_and_datetime: Option<(String, String)>,
    pub in_unit_interval: bool,
    pub text: String,
}

/// A worksheet cell. Numbers carry their text, their JSON number (none when not
/// finite) and the text their cell's number format shows (none without a format).
#[derive(Debug)]
pub enum XlsxCell {
    Empty,
    String(String),
    Float { text: String, json: Option<JsonNumber>, finite: bool, display: Option<String> },
    Int { value: i64, float_text: String, display: Option<String> },
    Bool(bool),
    DateTime(ExcelDateTimeParts),
    DateTimeIso(String),
    DurationIso(String),
    Error(String),
}

/// `n` with at least two digits.
pub open spec fn pad2(n: nat) -> Seq<char> {
    if n < 10 {
        seq!['0'] + dec(n)
    } else {
        dec(n)
    }
}

/// `n` (below 1000) with three digits.
pub open spec fn pad3(n: nat) -> Seq<char> {
    if n < 10 {
        seq!['0', '0'] + dec(n)
    } else if n < 100 {
        seq!['0'] + dec(n)
    } else {
        dec(n)
    }
}

/// A length of time as `[-]HH:MM:SS[.fff]` (trailing zeros of the fraction dropped),
/// wrapped to one day when asked.
pub open spec fn spec_duration_hms(millis: int, wrap_to_day: bool) -> Seq<char> {
    let negative = millis < 0;
    let a = if negative {
        -millis
    } else {
        millis
    };
    let m = if wrap_to_day {
        a % 86400000
    } else {
        a
    };
    let base = (if negative {
        seq!['-']
    } else {
        Seq::empty()
    }) + pad2((m / 3600000) as nat) + seq![':'] + pad2(((m / 60000) % 60) as nat) + seq![':'] + pad2(
        ((m / 1000) % 60) as nat,
    );
    if m % 1000 == 0 {
        base
    } else {
        base + seq!['.'] + strip_trailing(pad3((m % 1000) as nat), '0')
    }
}

fn push_pad2(out: &mut String, n: u64)
    ensures
        final(out)@ == old(out)@ + pad2(n as nat),
{
    if n < 10 {
        push_char(out, '0');
    }
    push_dec(out, n);
}

pub open spec fn hms_base(negative: bool, m: int) -> Seq<char> {
    (if negative {
        seq!['-']
    } else {
        Seq::empty()
    }) + pad2((m / 3600000) as nat) + seq![':'] + pad2(((m / 60000) % 60) as nat) + seq![':'] + pad2(
        ((m / 1000) % 60) as nat,
    )
}

fn base_text(negative: bool, m: u64) -> (r: String)
    ensures
        r@ == hms_base(negative, m as int),
{
    let mut out = String::new();
    if negative {
        push_char(&mut out, '-');
    }
    push_pad2(&mut out, m / 3600000);
    push_char(&mut out, ':');
    push_pad2(&mut out, (m / 60000) % 60);
    push_char(&mut out, ':');
    push_pad2(&mut out, (m / 1000) % 60);
    out
}

fn fraction_text(sub: u64) -> (r: String)
    requires
        sub < 1000,
    ensures
        r@ == strip_trailing(pad3(sub as nat), '0'),
{
    let mut digits: Vec<char> = Vec::new();
    if sub < 10 {
        digits.push('0');
        digits.push('0');
    } else if sub < 100 {
        digits.push('0');
    }
    let d = crate::text::u64_to_string(sub);
    let dv = crate::text::chars_of(d.as_str());
    let mut k: usize = 0;
    let ghost start = digits@;
    while k < dv.len()
        invariant
            k <= dv.len(),
            digits@ == start + dv@.subrange(0, k as int),
        decreases dv.len() - k,
    {
        digits.push(dv[k]);
        assert(digits@ =~= start + dv@.subrange(0, k + 1));
        k = k + 1;
    }
    assert(dv@.subrange(0, dv@.len() as int) =~= dv@);
    assert(digits@ =~= pad3(sub as nat));
    let mut n = digits.len();
    assert(digits@.subrange(0, n as int) =~= digits@);
    while n > 0 && digits[n - 1] == '0'
        invariant
            n <= digits.len(),
            strip_trailing(digits@, '0') == strip_trailing(digits@.subrange(0, n as int), '0'),
        decreases n,
    {
        assert(digits@.subrange(0, n as int).drop_last() =~= digits@.subrange(0, n - 1));
        n = n - 1;
    }
    crate::text::string_of(&digits.as_slice()[0..n])
}

/// Formats a length of time given in milliseconds.
pub fn format_chrono_duration_hms(millis: i64, wrap_to_day: bool) -> (r: String)
    ensures
        r@ == spec_duration_hms(millis as int, wrap_to_day),
{
    let negative = millis < 0;
    let a: u64 = if negative {
        if millis == i64::MIN {
            9223372036854775808
        } else {
            (-millis) as u64
        }
    } else {
        millis as u64
    };
    let m: u64 = if wrap_to_day {
        a % 86400000
    } else {
        a
    };
    let mut out = base_text(negative, m);
    let sub = m % 1000;
    if sub != 0 {
        push_char(&mut out, '.');
        let fraction = fraction_text(sub);
        push_str(&mut out, fraction.as_str());
    }
    out
}

/// The label of a date-time cell: a length of time for durations (and, wrapped to a
/// day, for times), the date or date-time text for dates, and the cell's own text
/// where those do not apply.
pub open spec fn spec_datetime_label(p: ExcelDateTimeParts, kind: Option<XlsxTemporalKind>) -> Seq<char> {
    if kind == Some(XlsxTemporalKind::Duration) || p.is_duration {
        match p.duration_millis {
            Some(ms) => spec_duration_hms(ms as int, false),
            None => p.text@,
        }
    } else if kind == Some(XlsxTemporalKind::Time) {
        match p.duration_millis {
            Some(ms) => spec_duration_hms(ms as int, true),
            None => p.text@,
        }
    } else {
        match p.date_and_datetime {
            None => p.text@,
            Some((date, datetime)) => match kind {
                Some(XlsxTemporalKind::Date) => date@,
                None => if p.in_unit_interval {
                    p.text@
                } else {
                    datetime@
                },
                _ => datetime@,
            },
        }
    }
}

pub fn xlsx_datetime_label(value: &ExcelDateTimeParts, temporal_kind: Option<XlsxTemporalKind>) -> (r: String)
    ensures
        r@ == spec_datetime_label(*value, temporal_kind),
{
    if temporal_kind == Some(XlsxTemporalKind::Duration) || value.is_duration {
        return match value.duration_millis {
            Some(ms) => format_chrono_duration_hms(ms, false),
            None => value.text.clone(),
        };
    }
    if temporal_kind == Some(XlsxTemporalKind::Time) {
        return match value.duration_millis {
            Some(ms) => format_chrono_duration_hms(ms, true),
            None => value.text.clone(),
        };
    }
    match &value.date_and_datetime {
        None => value.text.clone(),
        Some((date, datetime)) => match temporal_kind {
            Some(XlsxTemporalKind::Date) => date.clone(),
            None => if value.in_unit_interval {
                value.text.clone()
            } else {
                datetime.clone()
            },
            _ => datetime.clone(),
        },
    }
}

/// The JSON value of a cell read with a temporal kind.
pub open spec fn spec_cell_value(cell: XlsxCell, kind: Option<XlsxTemporalKind>) -> JsonModel {
    match cell {
        XlsxCell::Empty => JsonModel::Null,
        XlsxCell::String(s) => if s@.len() == 0 {
            JsonModel::Null
        } else {
            JsonModel::Str(s@)
        },
        XlsxCell::Float { json, .. } => match json {
            Some(n) => JsonModel::Number(n.text@, n.is_integer),
            None => JsonModel::Null,
        },
        XlsxCell::Int { value, .. } => JsonModel::Number(signed_dec(value as int), true),
        XlsxCell::Bool(b) => JsonModel::Bool(b),
        XlsxCell::DateTime(p) => JsonModel::Str(spec_datetime_label(p, kind)),
        XlsxCell::DateTimeIso(v) => JsonModel::Str(v@),
        XlsxCell::DurationIso(v) => JsonModel::Str(v@),
        XlsxCell::Error(v) => JsonModel::Str(v@),
    }
}

pub fn xlsx_cell_value_with_temporal_kind(cell: &XlsxCell, temporal_kind: Option<XlsxTemporalKind>) -> (r: JsonValue)
    ensures
        r@ == spec_cell_value(*cell, temporal_kind),
{
    match cell {
        XlsxCell::Empty => JsonValue::Null,
        XlsxCell::String(s) => csv_value(s.as_str()),
        XlsxCell::Float { json, .. } => match json {
            Some(n) => JsonValue::Number(JsonNumber { text: n.text.clone(), is_integer: n.is_integer }),
            None => JsonValue::Null,
        },
        XlsxCell::Int { value, .. } => JsonValue::Number(JsonNumber { text: i64_to_string(*value), is_integer: true }),
        XlsxCell::Bool(b) => JsonValue::Bool(*b),
        XlsxCell::DateTime(p) => JsonValue::String(xlsx_datetime_label(p, temporal_kind)),
        XlsxCell::DateTimeIso(v) => JsonValue::String(v.clone()),
        XlsxCell::DurationIso(v) => JsonValue::String(v.clone()),
        XlsxCell::Error(v) => JsonValue::String(v.clone()),
    }
}

/// The JSON value of a cell without a known temporal kind.
pub fn xlsx_cell_value(cell: &XlsxCell) -> (r: JsonValue)
    ensures
        r@ == spec_cell_value(*cell, None),
{
    xlsx_cell_value_with_temporal_kind(cell, None)
}

/// The text of a cell, as a header shows it.
pub open spec fn spec_cell_label(cell: XlsxCell, kind: Option<XlsxTemporalKind>) -> Seq<char> {
    match cell {
        XlsxCell::Empty => Seq::empty(),
        XlsxCell::String(s) => s@,
        XlsxCell::Float { text, .. } => text@,
        XlsxCell::Int { value, .. } => signed_dec(value as int),
        XlsxCell::Bool(b) => if b {
            "true"@
        } else {
            "false"@
        },
        XlsxCell::DateTime(p) => spec_datetime_label(p, kind),
        XlsxCell::DateTimeIso(v) => v@,
        XlsxCell::DurationIso(v) => v@,
        XlsxCell::Error(v) => v@,
    }
}

pub fn xlsx_cell_label_with_temporal_kind(cell: &XlsxCell, temporal_kind: Option<XlsxTemporalKind>) -> (r: String)
    ensures
        r@ == spec_cell_label(*cell, temporal_kind),
{
    match cell {
        XlsxCell::Empty => String::new(),
        XlsxCell::String(s) => s.clone(),
        XlsxCell::Float { text, .. } => text.clone(),
        XlsxCell::Int { value, .. } => i64_to_string(*value),
        XlsxCell::Bool(b) => {
            let mut out = String::new();
            push_str(&mut out, if *b { "true" } else { "false" });
            out
        },
        XlsxCell::DateTime(p) => xlsx_datetime_label(p, temporal_kind),
        XlsxCell::DateTimeIso(v) => v.clone(),
        XlsxCell::DurationIso(v) => v.clone(),
        XlsxCell::Error(v) => v.clone(),
    }
}

/// The text of a cell without a known temporal kind.
pub fn xlsx_cell_label(cell: &XlsxCell) -> (r: String)
    ensures
        r@ == spec_cell_label(*cell, None),
{
    xlsx_cell_label_with_temporal_kind(cell, None)
}

/// The text a number shows for a text target column: the text of its number format,
/// else its own text; none for non-finite numbers, other cells, and temporal styles.
pub open spec fn spec_cell_text_value(cell: XlsxCell, temporal: bool) -> Option<Seq<char>> {
    if temporal {
        None
    } else {
        match cell {
            XlsxCell::Float { text, finite, display, .. } => if finite {
                Some(
                    match display {
                        Some(d) => d@,
                        None => text@,
                    },
                )
            } else {
                None
            },
            XlsxCell::Int { float_text, display, .. } => Some(
                match display {
                    Some(d) => d@,
                    None => float_text@,
                },
            ),
            _ => None,
        }
    }
}

pub fn xlsx_cell_text_value(cell: &XlsxCell, temporal: bool) -> (r: Option<String>)
    ensures
        match r {
            Some(t) => spec_cell_text_value(*cell, temporal) == Some(t@),
            None => spec_cell_text_value(*cell, temporal) is None,
        },
{
    if temporal {
        return None;
    }
    match cell {
        XlsxCell::Float { text, finite, display, .. } => if *finite {
            Some(
                match display {
                    Some(d) => d.clone(),
                    None => text.clone(),
                },
            )
        } else {
            None
        },
        XlsxCell::Int { float_text, display, .. } => Some(
            match display {
                Some(d) => d.clone(),
                None => float_text.clone(),
            },
        ),
        _ => None,
    }
}


/// The sheet an import reads: the named one (when the name is not blank), else the one
/// at the given position, else the first.
pub open spec fn spec_select_sheet(options: TableImportParseOptions, names: Seq<Seq<char>>) -> Result<Seq<char>, Seq<char>> {
    match options.sheet_name {
        Some(n) if trim(n@).len() > 0 => if names.contains(n@) {
            Ok(n@)
        } else {
            Err("Workbook sheet not found: "@ + n@)
        },
        _ => match options.sheet_index {
            Some(i) => if i < names.len() {
                Ok(names[i as int])
            } else {
                Err("Workbook sheet index out of range: "@ + dec(i as nat))
            },
            None => if names.len() > 0 {
                Ok(names[0])
            } else {
                Err("Workbook has no sheets"@)
            },
        },
    }
}

pub fn select_sheet_name(options: &TableImportParseOptions, sheet_names: &Vec<String>) -> (r: Result<String, String>)
    ensures
        match r {
            Ok(n) => spec_select_sheet(*options, texts(sheet_names@)) == Ok::<Seq<char>, Seq<char>>(n@),
            Err(e) => spec_select_sheet(*options, texts(sheet_names@)) == Err::<Seq<char>, Seq<char>>(e@),
        },
{
    if let Some(name) = &options.sheet_name {
        let v = chars_of(name.as_str());
        let (a, b) = trim_bounds(&v);
        if a < b {
            assert(trim(name@).len() > 0);
            let mut i: usize = 0;
            while i < sheet_names.len()
                invariant
                    i <= sheet_names.len(),
                    options.sheet_name == Some(*name),
                    trim(name@).len() > 0,
                    forall|j: int| 0 <= j < i ==> texts(sheet_names@)[j] != name@,
                decreases sheet_names.len() - i,
            {
                if sheet_names[i] == *name {
                    assert(texts(sheet_names@)[i as int] == name@);
                    assert(texts(sheet_names@).contains(name@));
                    return Ok(name.clone());
                }
                i = i + 1;
            }
            let mut e = String::new();
            push_str(&mut e, "Workbook sheet not found: ");
            push_str(&mut e, name.as_str());
            return Err(e);
        }
    }
    match options.sheet_index {
        Some(i) => {
            if i < sheet_names.len() {
                assert(texts(sheet_names@)[i as int] == sheet_names@[i as int]@);
                Ok(sheet_names[i].clone())
            } else {
                let mut e = String::new();
                push_str(&mut e, "Workbook sheet index out of range: ");
                push_dec(&mut e, i as u64);
                Err(e)
            }
        },
        None => {
            if sheet_names.len() > 0 {
                assert(texts(sheet_names@)[0] == sheet_names@[0]@);
                Ok(sheet_names[0].clone())
            } else {
                let mut e = String::new();
                push_str(&mut e, "Workbook has no sheets");
                Err(e)
            }
        },
    }
}

/// Index of the last `c` in `s`, or -1.
pub open spec fn last_index_of(s: Seq<char>, c: char) -> int
    decreases s.len(),
{
    if s.len() == 0 {
        -1
    } else if s.last() == c {
        s.len() - 1
    } else {
        last_index_of(s.drop_last(), c)
    }
}

/// The extension of a path's file name: the text after its last `.`, unless that dot
/// begins the name.
pub open spec fn path_extension(path: Seq<char>) -> Option<Seq<char>> {
    let p = strip_trailing(path, '/');
    let name = p.subrange(last_index_of(p, '/') + 1, p.len() as int);
    let k = last_index_of(name, '.');
    if k > 0 {
        Some(name.subrange(k + 1, name.len() as int))
    } else {
        None
    }
}

proof fn lemma_last_index_bounds(s: Seq<char>, c: char)
    ensures
        -1 <= last_index_of(s, c) < s.len(),
        last_index_of(s, c) >= 0 ==> s[last_index_of(s, c)] == c,
    decreases s.len(),
{
    if s.len() > 0 && s.last() != c {
        lemma_last_index_bounds(s.drop_last(), c);
    }
}

/// Where the last `c` of `v[..end]` is, if anywhere.
fn last_index_exec(v: &Vec<char>, end: usize, c: char) -> (r: Option<usize>)
    requires
        end <= v.len(),
    ensures
        match r {
            Some(k) => last_index_of(v@.subrange(0, end as int), c) == k as int && k < end,
            None => last_index_of(v@.subrange(0, end as int), c) == -1,
        },
{
    let mut n = end;
    while n > 0 && v[n - 1] != c
        invariant
            n <= end,
            end <= v.len(),
            last_index_of(v@.subrange(0, end as int), c) == last_index_of(v@.subrange(0, n as int), c),
        decreases n,
    {
        assert(v@.subrange(0, n as int).drop_last() =~= v@.subrange(0, n - 1));
        n = n - 1;
    }
    if n == 0 {
        None
    } else {
        assert(v@.subrange(0, n as int).last() == c);
        Some(n - 1)
    }
}

/// Whether a path names a legacy `.xls` workbook (extension `xls` in any ASCII case).
pub fn is_legacy_xls_path(path: &str) -> (r: bool)
    ensures
        r == (path_extension(path@) matches Some(e) && eq_ic(e, "xls"@)),
{
    let v = chars_of(path);
    let mut end = v.len();
    assert(v@.subrange(0, end as int) =~= v@);
    while end > 0 && v[end - 1] == '/'
        invariant
            end <= v.len(),
            strip_trailing(v@, '/') == strip_trailing(v@.subrange(0, end as int), '/'),
        decreases end,
    {
        assert(v@.subrange(0, end as int).drop_last() =~= v@.subrange(0, end - 1));
        end = end - 1;
    }
    let ghost p = v@.subrange(0, end as int);
    assert(strip_trailing(p, '/') == p) by {
        if p.len() > 0 {
            assert(p.last() == v@[end - 1]);
        }
    }
    let start = match last_index_exec(&v, end, '/') {
        Some(k) => k + 1,
        None => 0,
    };
    let mut name: Vec<char> = Vec::new();
    let mut k = start;
    while k < end
        invariant
            start <= k <= end <= v.len(),
            name@ == v@.subrange(start as int, k as int),
        decreases end - k,
    {
        name.push(v[k]);
        assert(name@ =~= v@.subrange(start as int, k + 1));
        k = k + 1;
    }
    assert(name@ =~= p.subrange(start as int, p.len() as int));
    assert(name@.subrange(0, name@.len() as int) =~= name@);
    match last_index_exec(&name, name.len(), '.') {
        Some(dot) => {
            if dot > 0 {
                let ext: &[char] = &name.as_slice()[dot + 1..name.len()];
                let xls = chars_of("xls");
                chars_eq_ic(ext, xls.as_slice())
            } else {
                false
            }
        },
        None => false,
    }
}

/// The style recorded for a cell position (the last entry for it).
pub open spec fn style_at(
    styles: Seq<((usize, usize), (Option<XlsxTemporalKind>, Option<Seq<char>>))>,
    pos: (usize, usize),
) -> Option<(Option<XlsxTemporalKind>, Option<Seq<char>>)>
    decreases styles.len(),
{
    if styles.len() == 0 {
        None
    } else if styles.last().0 == pos {
        Some(styles.last().1)
    } else {
        style_at(styles.drop_last(), pos)
    }
}

/// The style recorded for a cell position, if any.
pub fn cell_style_at(styles: &Vec<((usize, usize), XlsxCellStyle)>, pos: (usize, usize)) -> (r: Option<&XlsxCellStyle>)
    ensures
        match r {
            Some(s) => style_at(cell_styles_view(styles@), pos) == Some(style_view(*s)),
            None => style_at(cell_styles_view(styles@), pos) is None,
        },
{
    let ghost sv = cell_styles_view(styles@);
    let mut n = styles.len();
    assert(sv.subrange(0, n as int) =~= sv);
    while n > 0
        invariant
            n <= styles.len(),
            sv == cell_styles_view(styles@),
            sv.len() == styles@.len(),
            style_at(sv, pos) == style_at(sv.subrange(0, n as int), pos),
        decreases n,
    {
        let ghost t = sv.subrange(0, n as int);
        assert(t.last() == sv[n - 1]);
        assert(t.drop_last() =~= sv.subrange(0, n - 1));
        if styles[n - 1].0.0 == pos.0 && styles[n - 1].0.1 == pos.1 {
            return Some(&styles[n - 1].1);
        }
        n = n - 1;
    }
    None
}

pub open spec fn kind_of(style: Option<(Option<XlsxTemporalKind>, Option<Seq<char>>)>) -> Option<XlsxTemporalKind> {
    match style {
        Some(s) => s.0,
        None => None,
    }
}

/// Which row first fixes the columns used to choose styles: the title row (its
/// labels) or the first data row (generated names); none when no row does.
pub open spec fn selection_index(rows: Seq<Vec<XlsxCell>>, range: ImportRowRange, i: int) -> int
    decreases rows.len() - i,
{
    if i < 0 || i >= rows.len() {
        rows.len() as int
    } else if range.title_row == Some((i + 1) as usize) || ((i + 1) >= range.data_start_row as int && match range.last_data_row {
        Some(last) => i + 1 <= last as int,
        None => true,
    }) {
        i
    } else {
        selection_index(rows, range, i + 1)
    }
}

pub open spec fn title_labels(row: Seq<XlsxCell>) -> Seq<Seq<char>> {
    Seq::new(row.len(), |i: int| spec_normalize_header(spec_cell_label(row[i], None), i))
}

/// The columns that decide which worksheet columns are read as text: the title row's
/// headers, or generated names for the first data row.
pub open spec fn spec_style_selection_columns(rows: Seq<Vec<XlsxCell>>, range: ImportRowRange) -> Seq<Seq<char>> {
    let i = selection_index(rows, range, 0);
    if i >= rows.len() {
        Seq::empty()
    } else if range.title_row == Some((i + 1) as usize) {
        title_labels(rows[i]@)
    } else {
        spec_generated_columns(rows[i]@.len())
    }
}

fn title_headers(row: &Vec<XlsxCell>) -> (r: Vec<String>)
    ensures
        texts(r@) == title_labels(row@),
{
    let mut out: Vec<String> = Vec::new();
    let mut i: usize = 0;
    while i < row.len()
        invariant
            i <= row.len(),
            texts(out@) == Seq::new(i as nat, |k: int| spec_normalize_header(spec_cell_label(row@[k], None), k)),
        decreases row.len() - i,
    {
        let label = xlsx_cell_label(&row[i]);
        let ghost before = out@;
        let h = normalize_header(label.as_str(), i);
        out.push(h);
        assert(texts(out@) =~= texts(before).push(h@));
        assert(texts(out@) =~= Seq::new((i + 1) as nat, |k: int| spec_normalize_header(spec_cell_label(row@[k], None), k)));
        i = i + 1;
    }
    out
}

pub fn style_selection_columns(rows: &Vec<Vec<XlsxCell>>, range: &ImportRowRange) -> (r: Vec<String>)
    requires
        rows.len() < usize::MAX,
    ensures
        texts(r@) == spec_style_selection_columns(rows@, *range),
{
    let mut i: usize = 0;
    while i < rows.len()
        invariant
            i <= rows.len(),
            rows.len() < usize::MAX,
            selection_index(rows@, *range, 0) == selection_index(rows@, *range, i as int),
        decreases rows.len() - i,
    {
        let row_number = i + 1;
        if range.title_row == Some(row_number) {
            return title_headers(&rows[i]);
        }
        let within = match range.last_data_row {
            Some(last) => row_number <= last,
            None => true,
        };
        if row_number >= range.data_start_row && within {
            return generated_columns(rows[i].len());
        }
        i = i + 1;
    }
    Vec::new()
}

/// The worksheet columns (1-based, offset by the range's first column) whose selection
/// column is a text source column.
pub open spec fn spec_text_worksheet_columns(selection: Seq<Seq<char>>, text_source_columns: Seq<Seq<char>>, start_column: usize) -> Seq<usize> {
    Seq::new(selection.len(), |i: int| i).filter(|i: int| text_source_columns.contains(selection[i])).map_values(
        |i: int| (start_column + i + 1) as usize,
    )
}

fn contains_text(v: &Vec<String>, x: &String) -> (r: bool)
    ensures
        r == texts(v@).contains(x@),
{
    let mut i: usize = 0;
    while i < v.len()
        invariant
            i <= v.len(),
            forall|j: int| 0 <= j < i ==> texts(v@)[j] != x@,
        decreases v.len() - i,
    {
        if v[i] == *x {
            assert(texts(v@)[i as int] == x@);
            return true;
        }
        i = i + 1;
    }
    false
}

pub fn text_worksheet_columns(selection: &Vec<String>, text_source_columns: &Vec<String>, start_column: usize) -> (r:
    Vec<usize>)
    requires
        start_column + selection.len() + 1 <= usize::MAX,
    ensures
        r@ == spec_text_worksheet_columns(texts(selection@), texts(text_source_columns@), start_column),
{
    let mut out: Vec<usize> = Vec::new();
    let mut i: usize = 0;
    while i < selection.len()
        invariant
            i <= selection.len(),
            start_column + selection.len() + 1 <= usize::MAX,
            out@ == Seq::new(i as nat, |k: int| k).filter(
                |k: int| texts(text_source_columns@).contains(texts(selection@)[k]),
            ).map_values(|k: int| (start_column + k + 1) as usize),
        decreases selection.len() - i,
    {
        proof {
            let a = Seq::new((i + 1) as nat, |k: int| k);
            assert(a.drop_last() =~= Seq::new(i as nat, |k: int| k));
            assert(a.last() == i);
            reveal(Seq::filter);
            assert(texts(selection@)[i as int] == selection@[i as int]@);
        }
        if contains_text(text_source_columns, &selection[i]) {
            let ghost before = out@;
            out.push(start_column + i + 1);
            proof {
                let f = Seq::new(i as nat, |k: int| k).filter(
                    |k: int| texts(text_source_columns@).contains(texts(selection@)[k]),
                );
                assert(f.push(i as int).map_values(|k: int| (start_column + k + 1) as usize) =~= f.map_values(
                    |k: int| (start_column + k + 1) as usize,
                ).push((start_column + i + 1) as usize));
            }
        }
        i = i + 1;
    }
    out
}


/// What reading the rows of a sheet needs besides the rows: the row range, how many
/// rows to keep, the source columns read as text, the styled cells, whether the file
/// is a legacy `.xls` workbook, and the worksheet position of the range's first cell.
pub ghost struct XlsxRowsContext {
    pub range: ImportRowRange,
    pub limit: nat,
    pub text_columns: Seq<Seq<char>>,
    pub styles: Seq<((usize, usize), (Option<XlsxTemporalKind>, Option<Seq<char>>))>,
    pub legacy: bool,
    pub start_row: int,
    pub start_col: int,
}

/// The worksheet position (row, column; from 1) of the cell at `index` of the range's
/// row `row_number` (from 1).
pub open spec fn cell_position(ctx: XlsxRowsContext, row_number: int, index: int) -> (usize, usize) {
    ((ctx.start_row + row_number) as usize, (ctx.start_col + index + 1) as usize)
}

pub open spec fn legacy_message(column: Seq<char>) -> Seq<char> {
    "Legacy .xls files cannot preserve numeric display formatting for text target column '"@ + column
        + "'. Save the workbook as .xlsx or map this source column to a numeric target."@
}

/// The value a data cell imports as: for a text source column, a number's display text
/// (which a legacy workbook cannot give); otherwise its value with its style's
/// temporal kind.
pub open spec fn spec_xlsx_cell(
    cell: XlsxCell,
    column: Seq<char>,
    style: Option<(Option<XlsxTemporalKind>, Option<Seq<char>>)>,
    ctx: XlsxRowsContext,
) -> Result<JsonModel, Seq<char>> {
    if ctx.text_columns.contains(column) {
        if ctx.legacy && (cell is Float || cell is Int) {
            Err(legacy_message(column))
        } else {
            match spec_cell_text_value(cell, kind_of(style) is Some) {
                Some(t) => Ok(JsonModel::Str(t)),
                None => Ok(spec_cell_value(cell, kind_of(style))),
            }
        }
    } else {
        Ok(spec_cell_value(cell, kind_of(style)))
    }
}

/// The first `k` values of a data row under the columns (null where the row is short).
pub open spec fn spec_row_values(
    src: Seq<XlsxCell>,
    columns: Seq<Seq<char>>,
    row_number: int,
    ctx: XlsxRowsContext,
    k: int,
) -> Result<Seq<JsonModel>, Seq<char>>
    decreases k,
{
    if k <= 0 {
        Ok(Seq::empty())
    } else {
        match spec_row_values(src, columns, row_number, ctx, k - 1) {
            Err(e) => Err(e),
            Ok(vals) => {
                let idx = k - 1;
                if idx < src.len() {
                    match spec_xlsx_cell(src[idx], columns[idx], style_at(ctx.styles, cell_position(ctx, row_number, idx)), ctx) {
                        Err(e) => Err(e),
                        Ok(v) => Ok(vals.push(v)),
                    }
                } else {
                    Ok(vals.push(JsonModel::Null))
                }
            },
        }
    }
}

/// How far reading a sheet's rows has got.
pub ghost struct XlsxScan {
    pub columns: Seq<Seq<char>>,
    pub rows: Seq<Seq<JsonModel>>,
    pub total: nat,
    pub stopped: bool,
}

/// Reading row `row_number`: the title row names the columns (its labels read with
/// their cells' temporal kinds); rows before the data are skipped; a row past the last
/// data row ends the reading; a data row is counted and, while fewer than the limit
/// are kept, its values are kept.
pub open spec fn spec_xlsx_step(st: XlsxScan, row_number: int, src: Seq<XlsxCell>, ctx: XlsxRowsContext) -> Result<
    XlsxScan,
    Seq<char>,
> {
    if st.stopped {
        Ok(st)
    } else if ctx.range.title_row == Some(row_number as usize) {
        Ok(
            XlsxScan {
                columns: Seq::new(
                    src.len(),
                    |i: int|
                        spec_normalize_header(
                            spec_cell_label(src[i], kind_of(style_at(ctx.styles, cell_position(ctx, row_number, i)))),
                            i,
                        ),
                ),
                ..st
            },
        )
    } else if row_number < ctx.range.data_start_row as int {
        Ok(st)
    } else if ctx.range.last_data_row matches Some(last) && row_number > last as int {
        Ok(XlsxScan { stopped: true, ..st })
    } else {
        let cols = if st.columns.len() == 0 {
            spec_generated_columns(src.len())
        } else {
            st.columns
        };
        if st.rows.len() >= ctx.limit {
            Ok(XlsxScan { columns: cols, total: st.total + 1, ..st })
        } else {
            match spec_row_values(src, cols, row_number, ctx, cols.len() as int) {
                Err(e) => Err(e),
                Ok(vals) => Ok(XlsxScan { columns: cols, rows: st.rows.push(vals), total: st.total + 1, stopped: false }),
            }
        }
    }
}

pub open spec fn spec_xlsx_scan(rows: Seq<Vec<XlsxCell>>, n: int, ctx: XlsxRowsContext) -> Result<XlsxScan, Seq<char>>
    decreases n,
{
    if n <= 0 || n > rows.len() {
        Ok(XlsxScan { columns: Seq::empty(), rows: Seq::empty(), total: 0, stopped: false })
    } else {
        match spec_xlsx_scan(rows, n - 1, ctx) {
            Err(e) => Err(e),
            Ok(st) => spec_xlsx_step(st, n, rows[n - 1]@, ctx),
        }
    }
}

/// A sheet preview keeps the first rows and counts them all: after any number of rows
/// it holds as many rows as were counted, but never more than the limit.
pub proof fn lemma_xlsx_scan_keeps_first_rows(rows: Seq<Vec<XlsxCell>>, n: int, ctx: XlsxRowsContext)
    requires
        spec_xlsx_scan(rows, n, ctx) is Ok,
    ensures
        spec_xlsx_scan(rows, n, ctx)->Ok_0.rows.len() == (if spec_xlsx_scan(rows, n, ctx)->Ok_0.total < ctx.limit {
            spec_xlsx_scan(rows, n, ctx)->Ok_0.total
        } else {
            ctx.limit
        }),
    decreases n,
{
    if 0 < n <= rows.len() {
        lemma_xlsx_scan_keeps_first_rows(rows, n - 1, ctx);
    }
}

/// The columns, kept rows and row count of a sheet, or why it cannot be imported.
pub open spec fn spec_xlsx_rows(rows: Seq<Vec<XlsxCell>>, ctx: XlsxRowsContext) -> Result<
    (Seq<Seq<char>>, Seq<Seq<JsonModel>>, nat),
    Seq<char>,
> {
    match spec_xlsx_scan(rows, rows.len() as int, ctx) {
        Err(e) => Err(e),
        Ok(st) => if st.columns.len() == 0 {
            Err("Import file has no columns in the selected row range"@)
        } else if st.total == 0 {
            Err("Import file has no data rows in the selected row range"@)
        } else {
            Ok((st.columns, st.rows, st.total))
        },
    }
}

fn xlsx_cell_import_value(
    cell: &XlsxCell,
    column: &String,
    style: Option<&XlsxCellStyle>,
    text_source_columns: &Vec<String>,
    legacy: bool,
) -> (r: Result<JsonValue, String>)
    ensures
        ({
            let sv = match style {
                Some(s) => Some(style_view(*s)),
                None => None,
            };
            let ctx_text = texts(text_source_columns@);
            match r {
                Ok(v) => spec_xlsx_cell(*cell, column@, sv, XlsxRowsContext { text_columns: ctx_text, legacy, ..arbitrary() }) == Ok::<JsonModel, Seq<char>>(v@),
                Err(e) => spec_xlsx_cell(*cell, column@, sv, XlsxRowsContext { text_columns: ctx_text, legacy, ..arbitrary() }) == Err::<JsonModel, Seq<char>>(e@),
            }
        }),
{
    let kind = match style {
        Some(s) => s.temporal_kind,
        None => None,
    };
    if contains_text(text_source_columns, column) {
        let numeric = match cell {
            XlsxCell::Float { .. } | XlsxCell::Int { .. } => true,
            _ => false,
        };
        if legacy && numeric {
            let mut m = String::new();
            push_str(&mut m, "Legacy .xls files cannot preserve numeric display formatting for text target column '");
            push_str(&mut m, column.as_str());
            push_str(&mut m, "'. Save the workbook as .xlsx or map this source column to a numeric target.");
            return Err(m);
        }
        if let Some(text) = xlsx_cell_text_value(cell, kind.is_some()) {
            return Ok(JsonValue::String(text));
        }
    }
    Ok(xlsx_cell_value_with_temporal_kind(cell, kind))
}

pub open spec fn json_row(v: Seq<JsonValue>) -> Seq<JsonModel> {
    v.map_values(|x: JsonValue| x@)
}

pub open spec fn json_rows(v: Seq<Vec<JsonValue>>) -> Seq<Seq<JsonModel>> {
    v.map_values(|r: Vec<JsonValue>| json_row(r@))
}


proof fn lemma_row_values_err(src: Seq<XlsxCell>, columns: Seq<Seq<char>>, row_number: int, ctx: XlsxRowsContext, k: int, n: int)
    requires
        0 <= k <= n,
        spec_row_values(src, columns, row_number, ctx, k) is Err,
    ensures
        spec_row_values(src, columns, row_number, ctx, n) == spec_row_values(src, columns, row_number, ctx, k),
    decreases n - k,
{
    if k < n {
        lemma_row_values_err(src, columns, row_number, ctx, k, n - 1);
    }
}

proof fn lemma_scan_err(rows: Seq<Vec<XlsxCell>>, ctx: XlsxRowsContext, k: int, n: int)
    requires
        0 <= k <= n <= rows.len(),
        spec_xlsx_scan(rows, k, ctx) is Err,
    ensures
        spec_xlsx_scan(rows, n, ctx) == spec_xlsx_scan(rows, k, ctx),
    decreases n - k,
{
    if k < n {
        lemma_scan_err(rows, ctx, k, n - 1);
    }
}

pub open spec fn rows_context(
    row_range: ImportRowRange,
    preview_limit: usize,
    text_source_columns: Seq<String>,
    cell_styles: Seq<((usize, usize), XlsxCellStyle)>,
    legacy: bool,
    range_start: (usize, usize),
) -> XlsxRowsContext {
    XlsxRowsContext {
        range: row_range,
        limit: preview_limit as nat,
        text_columns: texts(text_source_columns),
        styles: cell_styles_view(cell_styles),
        legacy,
        start_row: range_start.0 as int,
        start_col: range_start.1 as int,
    }
}

/// The rows of a worksheet range for import (see [`spec_xlsx_rows`]): `cells` are the
/// range's rows, `range_start` the worksheet row and column (from 0) of its first cell.
pub fn xlsx_rows(
    cells: &Vec<Vec<XlsxCell>>,
    range_start: (usize, usize),
    row_range: &ImportRowRange,
    preview_limit: usize,
    text_source_columns: &Vec<String>,
    cell_styles: &Vec<((usize, usize), XlsxCellStyle)>,
    legacy: bool,
) -> (r: Result<ParsedImportFile, String>)
    requires
        range_start.0 + cells.len() + 1 <= usize::MAX,
        forall|i: int| 0 <= i < cells.len() ==> range_start.1 + (#[trigger] cells@[i])@.len() + 1 <= usize::MAX,
    ensures
        ({
            let ctx = rows_context(*row_range, preview_limit, text_source_columns@, cell_styles@, legacy, range_start);
            match r {
                Ok(p) => spec_xlsx_rows(cells@, ctx) == Ok::<(Seq<Seq<char>>, Seq<Seq<JsonModel>>, nat), Seq<char>>(
                    (texts(p.columns@), json_rows(p.rows@), p.total_rows as nat),
                ) && p.effective_encoding is None,
                Err(e) => spec_xlsx_rows(cells@, ctx) == Err::<(Seq<Seq<char>>, Seq<Seq<JsonModel>>, nat), Seq<char>>(
                    e@,
                ),
            }
        }),
{
    let ghost ctx = rows_context(*row_range, preview_limit, text_source_columns@, cell_styles@, legacy, range_start);
    let (start_row, start_col) = range_start;
    let mut columns: Vec<String> = Vec::new();
    let mut rows: Vec<Vec<JsonValue>> = Vec::new();
    let mut total: usize = 0;
    let mut stopped = false;
    let mut i: usize = 0;
    assert(texts(columns@) =~= Seq::<Seq<char>>::empty());
    assert(json_rows(rows@) =~= Seq::<Seq<JsonModel>>::empty());
    while i < cells.len()
        invariant
            i <= cells.len(),
            total <= i,
            start_row + cells.len() + 1 <= usize::MAX,
            forall|j: int| 0 <= j < cells.len() ==> start_col + (#[trigger] cells@[j])@.len() + 1 <= usize::MAX,
            columns@.len() == 0 || start_col + columns@.len() + 1 <= usize::MAX,
            ctx == rows_context(*row_range, preview_limit, text_source_columns@, cell_styles@, legacy, range_start),
                range_start == (start_row, start_col),
            spec_xlsx_scan(cells@, i as int, ctx) == Ok::<XlsxScan, Seq<char>>(
                XlsxScan { columns: texts(columns@), rows: json_rows(rows@), total: total as nat, stopped },
            ),
        decreases cells.len() - i,
    {
        let row_number = i + 1;
        let src = &cells[i];
        if stopped {
            i = i + 1;
            continue;
        }
        if row_range.title_row == Some(row_number) {
            let mut names: Vec<String> = Vec::new();
            let mut k: usize = 0;
            while k < src.len()
                invariant
                    k <= src.len(),
                    src == &cells[i as int],
                    start_row + cells.len() + 1 <= usize::MAX,
                    start_col + src@.len() + 1 <= usize::MAX,
                    i < cells.len(),
                    row_number == i + 1,
                    ctx == rows_context(*row_range, preview_limit, text_source_columns@, cell_styles@, legacy, range_start),
                range_start == (start_row, start_col),
                    texts(names@) == Seq::new(
                        k as nat,
                        |x: int|
                            spec_normalize_header(
                                spec_cell_label(src@[x], kind_of(style_at(ctx.styles, cell_position(ctx, row_number as int, x)))),
                                x,
                            ),
                    ),
                decreases src.len() - k,
            {
                let pos = (start_row + row_number, start_col + k + 1);
                let style = cell_style_at(cell_styles, pos);
                let kind = match style {
                    Some(st) => st.temporal_kind,
                    None => None,
                };
                let label = xlsx_cell_label_with_temporal_kind(&src[k], kind);
                let h = normalize_header(label.as_str(), k);
                let ghost before = names@;
                names.push(h);
                assert(texts(names@) =~= texts(before).push(h@));
                assert(texts(names@) =~= Seq::new(
                    (k + 1) as nat,
                    |x: int|
                        spec_normalize_header(
                            spec_cell_label(src@[x], kind_of(style_at(ctx.styles, cell_position(ctx, row_number as int, x)))),
                            x,
                        ),
                ));
                k = k + 1;
            }
            columns = names;
            i = i + 1;
            continue;
        }
        if row_number < row_range.data_start_row {
            i = i + 1;
            continue;
        }
        if let Some(last) = row_range.last_data_row {
            if row_number > last {
                stopped = true;
                i = i + 1;
                continue;
            }
        }
        let ghost old_cols = texts(columns@);
        let ghost old_rows = json_rows(rows@);
        let ghost old_total = total;
        if columns.len() == 0 {
            columns = generated_columns(src.len());
        }
        total = total + 1;
        if rows.len() >= preview_limit {
            i = i + 1;
            continue;
        }
        let mut values: Vec<JsonValue> = Vec::new();
        let mut k: usize = 0;
        assert(json_row(values@) =~= Seq::<JsonModel>::empty());
        while k < columns.len()
            invariant
                k <= columns.len(),
                rows@.len() < preview_limit,
                json_rows(rows@) == old_rows,
                old_rows.len() == rows@.len(),
                total == old_total + 1,
                !stopped,
                row_range.title_row != Some(row_number),
                row_number >= row_range.data_start_row,
                !(row_range.last_data_row matches Some(last) && row_number > last),
                old_cols.len() == 0 ==> texts(columns@) == spec_generated_columns(src@.len()),
                old_cols.len() != 0 ==> texts(columns@) == old_cols,
                spec_xlsx_scan(cells@, i as int, ctx) == Ok::<XlsxScan, Seq<char>>(
                    XlsxScan { columns: old_cols, rows: old_rows, total: old_total as nat, stopped: false },
                ),
                i + 1 <= cells.len(),
                src == &cells[i as int],
                i < cells.len(),
                row_number == i + 1,
                start_row + cells.len() + 1 <= usize::MAX,
                start_col + columns@.len() + 1 <= usize::MAX,
                ctx == rows_context(*row_range, preview_limit, text_source_columns@, cell_styles@, legacy, range_start),
                range_start == (start_row, start_col),
                spec_row_values(src@, texts(columns@), row_number as int, ctx, k as int) == Ok::<Seq<JsonModel>, Seq<char>>(
                    json_row(values@),
                ),
            decreases columns.len() - k,
        {
            let pos = (start_row + row_number, start_col + k + 1);
            let style = cell_style_at(cell_styles, pos);
            let ghost before = values@;
            if k < src.len() {
                assert(texts(columns@)[k as int] == columns@[k as int]@);
                match xlsx_cell_import_value(&src[k], &columns[k], style, text_source_columns, legacy) {
                    Ok(v) => {
                        values.push(v);
                        assert(json_row(values@) =~= json_row(before).push(v@));
                    },
                    Err(e) => {
                        proof {
                            let st = XlsxScan { columns: old_cols, rows: old_rows, total: old_total as nat, stopped: false };
                            assert(spec_xlsx_scan(cells@, i as int, ctx) == Ok::<XlsxScan, Seq<char>>(st));
                            assert(texts(columns@) == (if old_cols.len() == 0 {
                                spec_generated_columns(src@.len())
                            } else {
                                old_cols
                            }));
                            assert(spec_row_values(src@, texts(columns@), row_number as int, ctx, k + 1) == Err::<
                                Seq<JsonModel>,
                                Seq<char>,
                            >(e@));
                            lemma_row_values_err(src@, texts(columns@), row_number as int, ctx, k + 1, columns@.len() as int);
                            assert(cells@[i as int]@ == src@);
                            assert(ctx.range.title_row != Some((i + 1) as usize));
                            assert(!(st.rows.len() >= ctx.limit));
                            assert(spec_xlsx_step(st, i + 1, cells@[i as int]@, ctx) == Err::<XlsxScan, Seq<char>>(e@));
                            assert(spec_xlsx_scan(cells@, i + 1, ctx) == spec_xlsx_step(st, i + 1, cells@[i as int]@, ctx));
                            lemma_scan_err(cells@, ctx, i + 1, cells@.len() as int);
                            assert(spec_xlsx_scan(cells@, cells@.len() as int, ctx) == Err::<XlsxScan, Seq<char>>(e@));
                            assert(spec_xlsx_rows(cells@, ctx) == Err::<(Seq<Seq<char>>, Seq<Seq<JsonModel>>, nat), Seq<char>>(e@));
                        }
                        return Err(e);
                    },
                }
            } else {
                values.push(JsonValue::Null);
                assert(json_row(values@) =~= json_row(before).push(JsonModel::Null));
            }
            k = k + 1;
        }
        let ghost before_rows = rows@;
        let ghost vv = json_row(values@);
        rows.push(values);
        assert(json_rows(rows@) =~= json_rows(before_rows).push(vv));
        i = i + 1;
    }
    if columns.len() == 0 {
        let mut e = String::new();
        push_str(&mut e, "Import file has no columns in the selected row range");
        return Err(e);
    }
    if total == 0 {
        let mut e = String::new();
        push_str(&mut e, "Import file has no data rows in the selected row range");
        return Err(e);
    }
    Ok(ParsedImportFile { columns, rows, total_rows: total, effective_encoding: None })
}

} // verus!

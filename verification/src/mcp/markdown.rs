//! Markdown tables for tool answers.
use vstd::prelude::*;
use crate::text::{chars_of, join, join_strings, push_char, push_str, views};

verus! {

/// How one character shows inside a table cell: `|` escaped, line breaks (and, when
/// `cr` is set, carriage returns) as spaces.
pub open spec fn cell_char(c: char, cr: bool) -> Seq<char> {
    if c == '|' {
        seq!['\\', '|']
    } else if c == '\n' || (cr && c == '\r') {
        seq![' ']
    } else {
        seq![c]
    }
}

/// A text made safe for a table cell.
pub open spec fn cell_text(s: Seq<char>, cr: bool) -> Seq<char>
    decreases s.len(),
{
    if s.len() == 0 {
        Seq::empty()
    } else {
        cell_text(s.drop_last(), cr) + cell_char(s.last(), cr)
    }
}

/// A cell never breaks its table row: it holds no line break, and every `|` in it is
/// escaped by a backslash.
pub proof fn lemma_cell_text_keeps_row(s: Seq<char>, cr: bool)
    ensures
        !cell_text(s, cr).contains('\n'),
        forall|i: int|
            0 <= i < cell_text(s, cr).len() && #[trigger] cell_text(s, cr)[i] == '|' ==> i > 0 && cell_text(s, cr)[i - 1] == '\\',
    decreases s.len(),
{
    if s.len() > 0 {
        lemma_cell_text_keeps_row(s.drop_last(), cr);
        let a = cell_text(s.drop_last(), cr);
        let b = cell_char(s.last(), cr);
        let t = a + b;
        assert(cell_text(s, cr) == t);
        assert forall|i: int| 0 <= i < t.len() implies t[i] != '\n' by {
            if i < a.len() {
                assert(t[i] == a[i]);
            } else {
                assert(t[i] == b[i - a.len()]);
            }
        }
        assert forall|i: int| 0 <= i < t.len() && #[trigger] t[i] == '|' implies i > 0 && t[i - 1] == '\\' by {
            if i < a.len() {
                assert(t[i] == a[i]);
                assert(t[i - 1] == a[i - 1]);
            } else {
                assert(t[i] == b[i - a.len()]);
                assert(i - a.len() == 1);
                assert(t[i - 1] == b[0]);
            }
        }
    }
}

fn escape_with(value: &str, cr: bool) -> (r: String)
    ensures
        r@ == cell_text(value@, cr),
{
    let v = chars_of(value);
    let mut out = String::new();
    let mut i: usize = 0;
    while i < v.len()
        invariant
            i <= v.len(),
            out@ == cell_text(v@.subrange(0, i as int), cr),
        decreases v.len() - i,
    {
        let c = v[i];
        proof {
            let t = v@.subrange(0, i + 1);
            assert(t.drop_last() =~= v@.subrange(0, i as int));
            assert(t.last() == c);
        }
        if c == '|' {
            push_char(&mut out, '\\');
            push_char(&mut out, '|');
            assert(seq!['\\', '|'] =~= seq!['\\'].push('|'));
        } else if c == '\n' || (cr && c == '\r') {
            push_char(&mut out, ' ');
        } else {
            push_char(&mut out, c);
        }
        proof {
            let before = cell_text(v@.subrange(0, i as int), cr);
            if c == '|' {
                assert(out@ =~= before + seq!['\\', '|']);
            } else if c == '\n' || (cr && c == '\r') {
                assert(out@ =~= before + seq![' ']);
            } else {
                assert(out@ =~= before + seq![c]);
            }
        }
        i = i + 1;
    }
    assert(v@.subrange(0, v@.len() as int) =~= v@);
    out
}

/// Cell text for the server's tables: `|` becomes `\|`, a line feed a space.
pub fn escape_cell(value: &str) -> (r: String)
    ensures
        r@ == cell_text(value@, false),
{
    escape_with(value, false)
}

/// Cell text for query results: `|` becomes `\|`, a carriage return or line feed a
/// space.
pub fn escape_markdown_cell(value: &str) -> (r: String)
    ensures
        r@ == cell_text(value@, true),
{
    escape_with(value, true)
}

/// The cells, each escaped.
pub open spec fn cells(row: Seq<Seq<char>>, cr: bool) -> Seq<Seq<char>> {
    row.map_values(|c: Seq<char>| cell_text(c, cr))
}

/// `n` separators `---`.
pub open spec fn rule_cells(n: nat) -> Seq<Seq<char>> {
    Seq::new(n, |i: int| "---"@)
}

/// A table's head: the header line and the rule line under it.
pub open spec fn table_head(headers: Seq<Seq<char>>, n: nat) -> Seq<char> {
    "| "@ + join(headers, " | "@) + " |\n| "@ + join(rule_cells(n), " | "@) + " |"@
}

/// The body lines of a table, each on a line of its own after the previous text.
pub open spec fn table_rows(rows: Seq<Seq<Seq<char>>>, cr: bool) -> Seq<char>
    decreases rows.len(),
{
    if rows.len() == 0 {
        Seq::empty()
    } else {
        table_rows(rows.drop_last(), cr) + "\n| "@ + join(cells(rows.last(), cr), " | "@) + " |"@
    }
}

/// The views of a list of rows.
pub open spec fn row_views(rows: Seq<Vec<String>>) -> Seq<Seq<Seq<char>>> {
    rows.map_values(|r: Vec<String>| views(r@))
}

/// Escapes each value of a row.
fn escaped_row(row: &Vec<String>, cr: bool) -> (r: Vec<String>)
    ensures
        views(r@) == cells(views(row@), cr),
{
    let mut out: Vec<String> = Vec::new();
    let mut i: usize = 0;
    while i < row.len()
        invariant
            i <= row.len(),
            views(out@) == cells(views(row@.subrange(0, i as int)), cr),
        decreases row.len() - i,
    {
        let ghost before = out@;
        let e = escape_with(row[i].as_str(), cr);
        out.push(e);
        proof {
            assert(views(out@) =~= views(before).push(e@));
            assert(views(row@.subrange(0, i + 1)) =~= views(row@.subrange(0, i as int)).push(row@[i as int]@));
            assert(cells(views(row@.subrange(0, i + 1)), cr) =~= cells(views(row@.subrange(0, i as int)), cr).push(
                cell_text(row@[i as int]@, cr),
            ));
        }
        i = i + 1;
    }
    assert(row@.subrange(0, row@.len() as int) =~= row@);
    out
}

fn rule_line(n: usize) -> (r: Vec<String>)
    ensures
        views(r@) == rule_cells(n as nat),
{
    let mut out: Vec<String> = Vec::new();
    let mut i: usize = 0;
    while i < n
        invariant
            i <= n,
            views(out@) == rule_cells(i as nat),
        decreases n - i,
    {
        let ghost before = out@;
        let mut s = String::new();
        push_str(&mut s, "---");
        out.push(s);
        proof {
            assert(views(out@) =~= views(before).push("---"@));
            assert(rule_cells((i + 1) as nat) =~= rule_cells(i as nat).push("---"@));
        }
        i = i + 1;
    }
    out
}

/// Appends the body lines of a table.
fn push_rows(out: &mut String, rows: &Vec<Vec<String>>, cr: bool)
    ensures
        final(out)@ == old(out)@ + table_rows(row_views(rows@), cr),
{
    let ghost start = out@;
    let mut i: usize = 0;
    while i < rows.len()
        invariant
            i <= rows.len(),
            out@ == start + table_rows(row_views(rows@.subrange(0, i as int)), cr),
        decreases rows.len() - i,
    {
        let e = escaped_row(&rows[i], cr);
        let line = join_strings(&e, " | ");
        push_str(out, "\n| ");
        push_str(out, line.as_str());
        push_str(out, " |");
        proof {
            let a = row_views(rows@.subrange(0, i + 1));
            assert(a.drop_last() =~= row_views(rows@.subrange(0, i as int)));
            assert(a.last() == views(rows@[i as int]@));
        }
        i = i + 1;
    }
    assert(rows@.subrange(0, rows@.len() as int) =~= rows@);
}

/// A Markdown table whose headers are shown as given and whose cells are escaped with
/// `escape_cell`.
pub fn markdown_table(headers: &Vec<String>, rows: &Vec<Vec<String>>) -> (r: String)
    ensures
        r@ == table_head(views(headers@), headers@.len()) + table_rows(row_views(rows@), false),
{
    let mut out = String::new();
    let head = join_strings(headers, " | ");
    let rule = rule_line(headers.len());
    let rule_text = join_strings(&rule, " | ");
    push_str(&mut out, "| ");
    push_str(&mut out, head.as_str());
    push_str(&mut out, " |\n| ");
    push_str(&mut out, rule_text.as_str());
    push_str(&mut out, " |");
    push_rows(&mut out, rows, false);
    out
}

/// A Markdown table whose headers and cells are all escaped with
/// `escape_markdown_cell`.
pub fn escaped_markdown_table(headers: &Vec<String>, rows: &Vec<Vec<String>>) -> (r: String)
    ensures
        r@ == table_head(cells(views(headers@), true), headers@.len()) + table_rows(row_views(rows@), true),
{
    let mut out = String::new();
    let e = escaped_row(headers, true);
    let head = join_strings(&e, " | ");
    let rule = rule_line(headers.len());
    let rule_text = join_strings(&rule, " | ");
    push_str(&mut out, "| ");
    push_str(&mut out, head.as_str());
    push_str(&mut out, " |\n| ");
    push_str(&mut out, rule_text.as_str());
    push_str(&mut out, " |");
    push_rows(&mut out, rows, true);
    out
}

} // verus!

//! The text the MCP tools answer with: connection lists, table lists, column
//! tables and schema context.
use vstd::prelude::*;
use crate::mcp::connections::{or_empty, ConnectionSummary};
use crate::mcp::markdown::{cell_text, escape_cell, markdown_table, row_views, table_head, table_rows};
use crate::text::{dec, eq_ic, lower, push_dec, push_str, str_eq_ic, views};

verus! {

/// A table or view of a database.
#[derive(Debug)]
pub struct TableInfo {
    pub name: String,
    pub table_type: String,
    pub comment: Option<String>,
}

/// A column of a table.
#[derive(Debug)]
pub struct ColumnInfo {
    pub name: String,
    pub data_type: String,
    pub is_nullable: bool,
    pub column_default: Option<String>,
    pub is_primary_key: bool,
    pub comment: Option<String>,
}

pub open spec fn connections_header() -> Seq<char> {
    "| ID | Name | Type | Host | Port | Database |\n| --- | --- | --- | --- | --- | --- |"@
}

pub open spec fn spec_connection_row(c: ConnectionSummary) -> Seq<char> {
    "\n| "@ + cell_text(c.id@, false) + " | "@ + cell_text(c.name@, false) + " | "@ + cell_text(c.db_type@, false)
        + " | "@ + cell_text(c.host@, false) + " | "@ + dec(c.port as nat) + " | "@ + cell_text(c.database@, false)
        + " |"@
}

pub open spec fn spec_connection_rows(s: Seq<ConnectionSummary>) -> Seq<char>
    decreases s.len(),
{
    if s.len() == 0 {
        Seq::empty()
    } else {
        spec_connection_rows(s.drop_last()) + spec_connection_row(s.last())
    }
}

fn connection_row(c: &ConnectionSummary) -> (r: String)
    ensures
        r@ == spec_connection_row(*c),
{
    let mut out = String::new();
    push_str(&mut out, "\n| ");
    push_str(&mut out, escape_cell(c.id.as_str()).as_str());
    push_str(&mut out, " | ");
    push_str(&mut out, escape_cell(c.name.as_str()).as_str());
    push_str(&mut out, " | ");
    push_str(&mut out, escape_cell(c.db_type.as_str()).as_str());
    push_str(&mut out, " | ");
    push_str(&mut out, escape_cell(c.host.as_str()).as_str());
    push_str(&mut out, " | ");
    push_dec(&mut out, c.port as u64);
    push_str(&mut out, " | ");
    push_str(&mut out, escape_cell(c.database.as_str()).as_str());
    push_str(&mut out, " |");
    out
}

/// The connection list as a Markdown table, one line per connection, with the text
/// cells escaped.
pub fn format_connections(connections: &Vec<ConnectionSummary>) -> (r: String)
    ensures
        r@ == connections_header() + spec_connection_rows(connections@),
{
    let mut out = String::new();
    push_str(&mut out, "| ID | Name | Type | Host | Port | Database |\n| --- | --- | --- | --- | --- | --- |");
    let mut i: usize = 0;
    while i < connections.len()
        invariant
            i <= connections.len(),
            out@ == connections_header() + spec_connection_rows(connections@.subrange(0, i as int)),
        decreases connections.len() - i,
    {
        let line = connection_row(&connections[i]);
        push_str(&mut out, line.as_str());
        proof {
            let t = connections@.subrange(0, i + 1);
            assert(t.drop_last() =~= connections@.subrange(0, i as int));
            assert(t.last() == connections@[i as int]);
        }
        i = i + 1;
    }
    assert(connections@.subrange(0, connections@.len() as int) =~= connections@);
    out
}

pub open spec fn spec_column_cells(c: ColumnInfo) -> Seq<Seq<char>> {
    seq![
        if c.is_primary_key { c.name@ + " (PK)"@ } else { c.name@ },
        c.data_type@,
        if c.is_nullable { "YES"@ } else { "NO"@ },
        or_empty(c.column_default),
        or_empty(c.comment),
    ]
}

pub open spec fn column_headers() -> Seq<Seq<char>> {
    seq!["Column"@, "Type"@, "Nullable"@, "Default"@, "Comment"@]
}

/// The answer of the connection list tool: a notice when there is no connection,
/// else the connection table.
pub fn list_connections_answer(connections: &Vec<ConnectionSummary>) -> (r: String)
    ensures
        connections@.len() == 0 ==> r@ == "No connections configured in DBX."@,
        connections@.len() > 0 ==> r@ == connections_header() + spec_connection_rows(connections@),
{
    if connections.len() == 0 {
        owned("No connections configured in DBX.")
    } else {
        format_connections(connections)
    }
}

/// The answer of the open-table tool once the desktop app has opened the table.
pub fn open_table_answer(table: &str) -> (r: String)
    ensures
        r@ == "Opened "@ + table@ + " in DBX"@,
{
    let mut out = owned("Opened ");
    push_str(&mut out, table);
    push_str(&mut out, " in DBX");
    out
}

fn owned(s: &str) -> (r: String)
    ensures
        r@ == s@,
{
    let mut out = String::new();
    push_str(&mut out, s);
    out
}

fn owned_or_empty(o: &Option<String>) -> (r: String)
    ensures
        r@ == or_empty(*o),
{
    match o {
        Some(s) => s.clone(),
        None => String::new(),
    }
}

/// The columns as a Markdown table: name (marked `(PK)` for a key column), type,
/// `YES`/`NO` for nullability, default and comment.
pub fn format_columns(columns: &Vec<ColumnInfo>) -> (r: String)
    ensures
        r@ == table_head(column_headers(), 5) + table_rows(
            columns@.map_values(|c: ColumnInfo| spec_column_cells(c)),
            false,
        ),
{
    let mut headers: Vec<String> = Vec::new();
    headers.push(owned("Column"));
    headers.push(owned("Type"));
    headers.push(owned("Nullable"));
    headers.push(owned("Default"));
    headers.push(owned("Comment"));
    assert(views(headers@) =~= column_headers());
    let mut rows: Vec<Vec<String>> = Vec::new();
    let mut i: usize = 0;
    while i < columns.len()
        invariant
            i <= columns.len(),
            row_views(rows@) == columns@.subrange(0, i as int).map_values(|c: ColumnInfo| spec_column_cells(c)),
        decreases columns.len() - i,
    {
        let c = &columns[i];
        let mut row: Vec<String> = Vec::new();
        if c.is_primary_key {
            let mut n = c.name.clone();
            push_str(&mut n, " (PK)");
            row.push(n);
        } else {
            row.push(c.name.clone());
        }
        row.push(c.data_type.clone());
        row.push(owned(if c.is_nullable { "YES" } else { "NO" }));
        row.push(owned_or_empty(&c.column_default));
        row.push(owned_or_empty(&c.comment));
        assert(views(row@) =~= spec_column_cells(columns@[i as int]));
        let ghost before = rows@;
        rows.push(row);
        proof {
            assert(row_views(rows@) =~= row_views(before).push(views(row@)));
            assert(columns@.subrange(0, i + 1).map_values(|c: ColumnInfo| spec_column_cells(c)) =~= columns@.subrange(
                0,
                i as int,
            ).map_values(|c: ColumnInfo| spec_column_cells(c)).push(spec_column_cells(columns@[i as int])));
        }
        i = i + 1;
    }
    assert(columns@.subrange(0, columns@.len() as int) =~= columns@);
    markdown_table(&headers, &rows)
}

/// The comment part of a table's line: ` -- comment` for a non-empty comment.
pub open spec fn comment_suffix(comment: Option<String>) -> Seq<char> {
    match comment {
        Some(c) => if c@.len() > 0 {
            " -- "@ + c@
        } else {
            Seq::empty()
        },
        None => Seq::empty(),
    }
}

pub open spec fn spec_table_line(t: TableInfo) -> Seq<char> {
    "- "@ + t.name@ + " ("@ + t.table_type@ + ")"@ + comment_suffix(t.comment)
}

pub open spec fn spec_table_lines(s: Seq<TableInfo>) -> Seq<char>
    decreases s.len(),
{
    if s.len() == 0 {
        Seq::empty()
    } else if s.len() == 1 {
        spec_table_line(s[0])
    } else {
        spec_table_lines(s.drop_last()) + "\n"@ + spec_table_line(s.last())
    }
}

/// The answer to a table listing: one line per table, `- name (type)` with the
/// comment after ` -- ` when there is one; `No tables found.` for none.
pub fn format_table_list(tables: &Vec<TableInfo>) -> (r: String)
    ensures
        tables@.len() == 0 ==> r@ == "No tables found."@,
        tables@.len() > 0 ==> r@ == spec_table_lines(tables@),
{
    if tables.len() == 0 {
        return owned("No tables found.");
    }
    let mut out = String::new();
    let mut i: usize = 0;
    while i < tables.len()
        invariant
            i <= tables.len(),
            out@ == spec_table_lines(tables@.subrange(0, i as int)),
        decreases tables.len() - i,
    {
        let ghost before = out@;
        let t = &tables[i];
        if i > 0 {
            push_str(&mut out, "\n");
        }
        push_str(&mut out, "- ");
        push_str(&mut out, t.name.as_str());
        push_str(&mut out, " (");
        push_str(&mut out, t.table_type.as_str());
        push_str(&mut out, ")");
        match &t.comment {
            Some(c) => {
                if c.as_str().unicode_len() > 0 {
                    push_str(&mut out, " -- ");
                    push_str(&mut out, c.as_str());
                }
            },
            None => {},
        }
        proof {
            let a = tables@.subrange(0, i + 1);
            assert(a.drop_last() =~= tables@.subrange(0, i as int));
            assert(a.last() == tables@[i as int]);
            if i == 0 {
                assert(out@ =~= spec_table_line(tables@[0]));
            } else {
                assert(out@ =~= before + "\n"@ + spec_table_line(tables@[i as int]));
            }
        }
        i = i + 1;
    }
    assert(tables@.subrange(0, tables@.len() as int) =~= tables@);
    out
}

/// How many tables schema context covers: the number asked for (8 when none),
/// kept between 1 and 20.
pub open spec fn spec_schema_table_limit(max_tables: Option<usize>) -> int {
    let m = match max_tables {
        Some(m) => m as int,
        None => 8,
    };
    if m < 1 {
        1
    } else if m > 20 {
        20
    } else {
        m
    }
}

/// Whether a table is among the requested names, ignoring ASCII case.
pub open spec fn is_requested(requested: Seq<Seq<char>>, name: Seq<char>) -> bool {
    exists|i: int| 0 <= i < requested.len() && eq_ic(#[trigger] requested[i], name)
}

/// The tables schema context looks at, in order, before the limit.
pub open spec fn schema_candidates(available: Seq<TableInfo>, requested: Seq<Seq<char>>) -> Seq<TableInfo> {
    if requested.len() == 0 {
        available
    } else {
        available.filter(|t: TableInfo| is_requested(requested, t.name@))
    }
}

fn requested_contains(requested: &Vec<String>, name: &str) -> (r: bool)
    ensures
        r == is_requested(views(requested@), name@),
{
    let mut i: usize = 0;
    while i < requested.len()
        invariant
            i <= requested.len(),
            forall|j: int| 0 <= j < i ==> !eq_ic(#[trigger] views(requested@)[j], name@),
        decreases requested.len() - i,
    {
        if str_eq_ic(requested[i].as_str(), name) {
            assert(eq_ic(views(requested@)[i as int], name@));
            return true;
        }
        i = i + 1;
    }
    false
}

/// Chooses the tables for schema context: the requested ones (by name, ignoring
/// ASCII case) or else all, at most the limit of them; the flag says whether tables
/// were left out.
pub fn select_schema_tables(available: Vec<TableInfo>, requested: Vec<String>, max_tables: Option<usize>) -> (r: (
    Vec<TableInfo>,
    bool,
))
    ensures
        ({
            let c = schema_candidates(available@, views(requested@));
            let limit = spec_schema_table_limit(max_tables);
            &&& r.0@ == (if c.len() > limit {
                c.subrange(0, limit)
            } else {
                c
            })
            &&& r.1 == (c.len() > limit || (requested@.len() == 0 && available@.len() > limit))
        }),
{
    let limit: usize = match max_tables {
        Some(m) => if m < 1 {
            1
        } else if m > 20 {
            20
        } else {
            m
        },
        None => 8,
    };
    let ghost c = schema_candidates(available@, views(requested@));
    let total = available.len();
    let mut selected: Vec<TableInfo> = Vec::new();
    if requested.len() == 0 {
        selected = available;
    } else {
        let mut i: usize = 0;
        let mut rest = available;
        let ghost all = rest@;
        let mut kept: Vec<TableInfo> = Vec::new();
        while rest.len() > 0
            invariant
                all == available@,
                all.len() == total,
                i + rest@.len() == all.len(),
                rest@ == all.subrange(i as int, all.len() as int),
                kept@ == all.subrange(0, i as int).filter(
                    |t: TableInfo| is_requested(views(requested@), t.name@),
                ),
            decreases rest@.len(),
        {
            let t = rest.remove(0);
            proof {
                let a = all.subrange(0, i + 1);
                assert(a.drop_last() =~= all.subrange(0, i as int));
                assert(a.last() == t);
                reveal(Seq::filter);
                assert(rest@ =~= all.subrange(i + 1, all.len() as int));
            }
            if requested_contains(&requested, t.name.as_str()) {
                kept.push(t);
            }
            i = i + 1;
        }
        assert(all.subrange(0, all.len() as int) =~= all);
        selected = kept;
    }
    assert(selected@ == c);
    let n = selected.len();
    let truncated = n > limit || (requested.len() == 0 && total > limit);
    if n > limit {
        selected.truncate(limit);
    }
    (selected, truncated)
}

pub open spec fn spec_column_line(c: ColumnInfo) -> Seq<char> {
    "\n- "@ + c.name@ + " "@ + c.data_type@ + " "@ + (if c.is_nullable {
        "NULL"@
    } else {
        "NOT NULL"@
    }) + (if c.is_primary_key {
        " PK"@
    } else {
        Seq::empty()
    }) + match c.comment {
        Some(m) => " -- "@ + m@,
        None => Seq::empty(),
    }
}

pub open spec fn spec_column_lines(s: Seq<ColumnInfo>) -> Seq<char>
    decreases s.len(),
{
    if s.len() == 0 {
        Seq::empty()
    } else {
        spec_column_lines(s.drop_last()) + spec_column_line(s.last())
    }
}

pub open spec fn spec_context_table(t: TableInfo, columns: Seq<ColumnInfo>) -> Seq<char> {
    "\n\n## "@ + t.name@ + "\nType: "@ + t.table_type@ + spec_column_lines(columns)
}

pub open spec fn spec_context_tables(s: Seq<(TableInfo, Vec<ColumnInfo>)>) -> Seq<char>
    decreases s.len(),
{
    if s.len() == 0 {
        Seq::empty()
    } else {
        spec_context_tables(s.drop_last()) + spec_context_table(s.last().0, s.last().1@)
    }
}

pub open spec fn spec_schema_context(
    connection: Seq<char>,
    database: Seq<char>,
    schema: Seq<char>,
    tables: Seq<(TableInfo, Vec<ColumnInfo>)>,
    truncated: bool,
) -> Seq<char> {
    "Connection: "@ + connection + (if database.len() > 0 {
        "\nDatabase: "@ + database
    } else {
        Seq::empty()
    }) + (if schema.len() > 0 {
        "\nSchema: "@ + schema
    } else {
        Seq::empty()
    }) + spec_context_tables(tables) + (if truncated {
        "\n\nNote: table list was truncated; request specific table names for more context."@
    } else {
        Seq::empty()
    })
}

fn column_line(c: &ColumnInfo) -> (r: String)
    ensures
        r@ == spec_column_line(*c),
{
    let mut out = String::new();
    push_str(&mut out, "\n- ");
    push_str(&mut out, c.name.as_str());
    push_str(&mut out, " ");
    push_str(&mut out, c.data_type.as_str());
    push_str(&mut out, " ");
    push_str(&mut out, if c.is_nullable { "NULL" } else { "NOT NULL" });
    if c.is_primary_key {
        push_str(&mut out, " PK");
    }
    match &c.comment {
        Some(m) => {
            push_str(&mut out, " -- ");
            push_str(&mut out, m.as_str());
        },
        None => {},
    }
    out
}

fn push_column_lines(out: &mut String, columns: &Vec<ColumnInfo>)
    ensures
        final(out)@ == old(out)@ + spec_column_lines(columns@),
{
    let ghost start = out@;
    let mut i: usize = 0;
    while i < columns.len()
        invariant
            i <= columns.len(),
            out@ == start + spec_column_lines(columns@.subrange(0, i as int)),
        decreases columns.len() - i,
    {
        let line = column_line(&columns[i]);
        push_str(out, line.as_str());
        proof {
            let a = columns@.subrange(0, i + 1);
            assert(a.drop_last() =~= columns@.subrange(0, i as int));
            assert(a.last() == columns@[i as int]);
        }
        i = i + 1;
    }
    assert(columns@.subrange(0, columns@.len() as int) =~= columns@);
}

/// The schema context answer: the connection, database and schema (when given), each
/// table with its type and one line per column, and a note when tables were left out.
pub fn format_schema_context(
    connection: &str,
    database: &str,
    schema: &str,
    tables: &Vec<(TableInfo, Vec<ColumnInfo>)>,
    truncated: bool,
) -> (r: String)
    ensures
        r@ == spec_schema_context(connection@, database@, schema@, tables@, truncated),
{
    let mut out = String::new();
    push_str(&mut out, "Connection: ");
    push_str(&mut out, connection);
    if database.unicode_len() > 0 {
        push_str(&mut out, "\nDatabase: ");
        push_str(&mut out, database);
    }
    if schema.unicode_len() > 0 {
        push_str(&mut out, "\nSchema: ");
        push_str(&mut out, schema);
    }
    let ghost head = out@;
    let mut i: usize = 0;
    while i < tables.len()
        invariant
            i <= tables.len(),
            out@ == head + spec_context_tables(tables@.subrange(0, i as int)),
        decreases tables.len() - i,
    {
        let (t, columns) = &tables[i];
        push_str(&mut out, "\n\n## ");
        push_str(&mut out, t.name.as_str());
        push_str(&mut out, "\nType: ");
        push_str(&mut out, t.table_type.as_str());
        push_column_lines(&mut out, columns);
        proof {
            let a = tables@.subrange(0, i + 1);
            assert(a.drop_last() =~= tables@.subrange(0, i as int));
            assert(a.last() == tables@[i as int]);
        }
        i = i + 1;
    }
    assert(tables@.subrange(0, tables@.len() as int) =~= tables@);
    if truncated {
        push_str(&mut out, "\n\nNote: table list was truncated; request specific table names for more context.");
    }
    out
}

} // verus!

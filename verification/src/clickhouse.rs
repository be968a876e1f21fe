//! ClickHouse over HTTP: query URLs, credentials, catalogue rows and result limits.
use vstd::prelude::*;
use crate::json::{JsonModel, JsonValue};
use crate::mcp::answers::{ColumnInfo, TableInfo};
use crate::mcp::results::member_of;
use crate::text::{contains_seq, chars_contain_seq, chars_of, dec, push_dec, push_str, starts_with, chars_starts_with};

verus! {

/// The number of rows a result keeps when the caller names no limit.
pub const MAX_ROWS: usize = 10000;

/// Whether a query asks ClickHouse to stop after some number of rows.
#[derive(Debug)]
pub enum QueryResultLimit {
    Unlimited,
    Limited(usize),
}

pub open spec fn spec_query_url(base_url: Seq<char>, database: Option<Seq<char>>, limit: QueryResultLimit) -> Seq<char> {
    base_url + "/?default_format=JSONCompact"@ + match database {
        Some(db) => "&database="@ + db,
        None => Seq::empty(),
    } + match limit {
        QueryResultLimit::Limited(n) => "&max_result_rows="@ + dec(n as nat) + "&result_overflow_mode=break"@,
        QueryResultLimit::Unlimited => Seq::empty(),
    }
}

/// The URL a query is posted to: compact JSON output, the database when one is given,
/// and for a limited query a row limit at which ClickHouse stops and returns what it has.
pub fn build_query_url(base_url: &str, database: Option<&str>, limit: QueryResultLimit) -> (r: String)
    ensures
        r@ == spec_query_url(
            base_url@,
            match database {
                Some(d) => Some(d@),
                None => None,
            },
            limit,
        ),
{
    let mut url = String::new();
    push_str(&mut url, base_url);
    push_str(&mut url, "/?default_format=JSONCompact");
    if let Some(db) = database {
        push_str(&mut url, "&database=");
        push_str(&mut url, db);
    }
    if let QueryResultLimit::Limited(max_rows) = limit {
        push_str(&mut url, "&max_result_rows=");
        push_dec(&mut url, max_rows as u64);
        push_str(&mut url, "&result_overflow_mode=break");
    }
    url
}

/// The number of rows a result may keep: the one asked for, or `MAX_ROWS`, and at
/// least one.
pub open spec fn spec_row_limit(max_rows: Option<usize>) -> int {
    let m = match max_rows {
        Some(m) => m as int,
        None => MAX_ROWS as int,
    };
    if m < 1 {
        1
    } else {
        m
    }
}

pub fn query_result_row_limit(max_rows: Option<usize>) -> (r: usize)
    ensures
        r == spec_row_limit(max_rows),
{
    let m = match max_rows {
        Some(m) => m,
        None => MAX_ROWS,
    };
    if m < 1 {
        1
    } else {
        m
    }
}

/// A column of a ClickHouse JSON answer.
#[derive(Debug)]
pub struct ChColumn {
    pub name: String,
    pub column_type: String,
}

/// ClickHouse's JSON answer to a query.
#[derive(Debug)]
pub struct ChJsonResult {
    pub meta: Vec<ChColumn>,
    pub data: Vec<Vec<JsonValue>>,
    pub rows: usize,
}

/// The result of a query as DBX shows it.
#[derive(Debug)]
pub struct QueryResult {
    pub columns: Vec<String>,
    pub rows: Vec<Vec<JsonValue>>,
    pub affected_rows: u64,
    pub execution_time_ms: u128,
    pub truncated: bool,
    pub session_id: Option<String>,
    pub has_more: bool,
}

/// The names of the columns of a ClickHouse answer.
pub open spec fn column_names(meta: Seq<ChColumn>) -> Seq<Seq<char>> {
    meta.map_values(|c: ChColumn| c.name@)
}

/// The result of a row-returning query: its columns, and its rows cut to the row
/// limit, flagged as truncated when rows were cut.
pub fn limited_query_result(result: ChJsonResult, execution_time_ms: u128, max_rows: Option<usize>) -> (r:
    QueryResult)
    ensures
        r.columns@.map_values(|c: String| c@) == column_names(result.meta@),
        r.truncated == (result.data@.len() > spec_row_limit(max_rows)),
        r.rows@ == (if result.data@.len() > spec_row_limit(max_rows) {
            result.data@.subrange(0, spec_row_limit(max_rows))
        } else {
            result.data@
        }),
        r.affected_rows == 0,
        r.execution_time_ms == execution_time_ms,
        r.session_id is None,
        !r.has_more,
{
    let mut columns: Vec<String> = Vec::new();
    let mut i: usize = 0;
    while i < result.meta.len()
        invariant
            i <= result.meta.len(),
            columns@.map_values(|c: String| c@) == column_names(result.meta@.subrange(0, i as int)),
        decreases result.meta.len() - i,
    {
        let ghost before = columns@;
        columns.push(result.meta[i].name.clone());
        proof {
            assert(columns@.map_values(|c: String| c@) =~= before.map_values(|c: String| c@).push(
                result.meta@[i as int].name@,
            ));
            assert(column_names(result.meta@.subrange(0, i + 1)) =~= column_names(
                result.meta@.subrange(0, i as int),
            ).push(result.meta@[i as int].name@));
        }
        i = i + 1;
    }
    assert(result.meta@.subrange(0, result.meta@.len() as int) =~= result.meta@);
    let mut rows = result.data;
    let row_limit = query_result_row_limit(max_rows);
    let truncated = rows.len() > row_limit;
    if truncated {
        rows.truncate(row_limit);
    }
    QueryResult {
        columns,
        rows,
        affected_rows: 0,
        execution_time_ms,
        truncated,
        session_id: None,
        has_more: false,
    }
}

/// Which basic credentials a request carries: a non-empty user name, with its
/// password when there is one; none otherwise.
pub open spec fn spec_basic_auth(username: Option<String>, password: Option<String>) -> Option<(Seq<char>, Option<Seq<char>>)> {
    match username {
        Some(u) => if u@.len() > 0 {
            Some(
                (
                    u@,
                    match password {
                        Some(p) => Some(p@),
                        None => None,
                    },
                ),
            )
        } else {
            None
        },
        None => None,
    }
}

pub fn basic_auth_credentials(username: &Option<String>, password: &Option<String>) -> (r: Option<(String, Option<String>)>)
    ensures
        match r {
            Some((u, p)) => spec_basic_auth(*username, *password) == Some(
                (
                    u@,
                    match p {
                        Some(p) => Some(p@),
                        None => None,
                    },
                ),
            ),
            None => spec_basic_auth(*username, *password) is None,
        },
{
    match username {
        Some(u) => {
            if u.as_str().unicode_len() > 0 {
                let p = match password {
                    Some(p) => Some(p.clone()),
                    None => None,
                };
                Some((u.clone(), p))
            } else {
                None
            }
        },
        None => None,
    }
}

/// A text inside single quotes of a ClickHouse query, with `'` escaped as `\'`.
pub open spec fn escape_quote(s: Seq<char>) -> Seq<char>
    decreases s.len(),
{
    if s.len() == 0 {
        Seq::empty()
    } else {
        escape_quote(s.drop_last()) + if s.last() == '\'' {
            seq!['\\', '\'']
        } else {
            seq![s.last()]
        }
    }
}

pub fn escape_single_quotes(value: &str) -> (r: String)
    ensures
        r@ == escape_quote(value@),
{
    let v = chars_of(value);
    let mut out = String::new();
    let mut i: usize = 0;
    while i < v.len()
        invariant
            i <= v.len(),
            out@ == escape_quote(v@.subrange(0, i as int)),
        decreases v.len() - i,
    {
        let ghost before = out@;
        proof {
            let t = v@.subrange(0, i + 1);
            assert(t.drop_last() =~= v@.subrange(0, i as int));
            assert(t.last() == v@[i as int]);
        }
        if v[i] == '\'' {
            push_str(&mut out, "\\'");
            assert(out@ =~= before + seq!['\\', '\'']) by {
                reveal_strlit("\\'");
            }
        } else {
            crate::text::push_char(&mut out, v[i]);
            assert(out@ =~= before + seq![v@[i as int]]);
        }
        i = i + 1;
    }
    assert(v@.subrange(0, v@.len() as int) =~= v@);
    out
}

/// The query listing the tables of a database.
pub fn list_tables_sql(database: &str) -> (r: String)
    ensures
        r@ == "SELECT name, engine FROM system.tables WHERE database = '"@ + escape_quote(database@)
            + "' ORDER BY name"@,
{
    let mut sql = String::new();
    push_str(&mut sql, "SELECT name, engine FROM system.tables WHERE database = '");
    push_str(&mut sql, escape_single_quotes(database).as_str());
    push_str(&mut sql, "' ORDER BY name");
    sql
}

/// The query listing the columns of a table, in table order.
pub fn columns_sql(database: &str, table: &str) -> (r: String)
    ensures
        r@ == "SELECT name, type, default_kind, default_expression, is_in_primary_key, comment FROM system.columns WHERE database = '"@
            + escape_quote(database@) + "' AND table = '"@ + escape_quote(table@) + "' ORDER BY position"@,
{
    let mut sql = String::new();
    push_str(
        &mut sql,
        "SELECT name, type, default_kind, default_expression, is_in_primary_key, comment FROM system.columns WHERE database = '",
    );
    push_str(&mut sql, escape_single_quotes(database).as_str());
    push_str(&mut sql, "' AND table = '");
    push_str(&mut sql, escape_single_quotes(table).as_str());
    push_str(&mut sql, "' ORDER BY position");
    sql
}

/// The table type shown for a ClickHouse engine: views for an engine whose name
/// contains `View`, base tables otherwise.
pub fn table_type_for_engine(engine: &str) -> (r: &'static str)
    ensures
        r@ == (if contains_seq(engine@, "View"@) {
            "VIEW"@
        } else {
            "BASE TABLE"@
        }),
{
    let e = chars_of(engine);
    let view = chars_of("View");
    if chars_contain_seq(e.as_slice(), view.as_slice()) {
        "VIEW"
    } else {
        "BASE TABLE"
    }
}

/// Whether a ClickHouse column type admits nulls (`Nullable(...)`).
pub fn is_nullable_type(data_type: &str) -> (r: bool)
    ensures
        r == starts_with(data_type@, "Nullable"@),
{
    let t = chars_of(data_type);
    let p = chars_of("Nullable");
    chars_starts_with(t.as_slice(), p.as_slice())
}


/// A cell's text, or the empty text when it is not a string.
pub open spec fn str_cell(v: Option<JsonModel>) -> Seq<char> {
    match v {
        Some(JsonModel::Str(s)) => s,
        _ => Seq::empty(),
    }
}

/// The cell at `i` of a row, if the row has one.
pub open spec fn row_cell(row: Seq<JsonValue>, i: int) -> Option<JsonModel> {
    if 0 <= i < row.len() {
        Some(row[i]@)
    } else {
        None
    }
}

fn str_cell_exec(row: &Vec<JsonValue>, i: usize) -> (r: String)
    ensures
        r@ == str_cell(row_cell(row@, i as int)),
{
    if i < row.len() {
        if let JsonValue::String(s) = &row[i] {
            let mut out = String::new();
            push_str(&mut out, s.as_str());
            return out;
        }
    }
    String::new()
}

/// A table from a row of `name, engine` (see [`list_tables_sql`]).
pub fn table_from_row(row: &Vec<JsonValue>) -> (r: TableInfo)
    requires
        row@.len() > 0,
    ensures
        r.name@ == str_cell(row_cell(row@, 0)),
        r.table_type@ == (if contains_seq(str_cell(row_cell(row@, 1)), "View"@) {
            "VIEW"@
        } else {
            "BASE TABLE"@
        }),
        r.comment is None,
{
    let engine = str_cell_exec(row, 1);
    let kind = table_type_for_engine(engine.as_str());
    let mut table_type = String::new();
    push_str(&mut table_type, kind);
    TableInfo { name: str_cell_exec(row, 0), table_type, comment: None }
}

/// Whether a cell is the unsigned integer 1.
pub open spec fn is_one(v: Option<JsonModel>) -> bool {
    match v {
        Some(JsonModel::Number(t, true)) => crate::text::parse_unsigned(t, 18446744073709551615) == Some(1int) && !(t.len()
            > 0 && t[0] == '+'),
        _ => false,
    }
}

fn is_one_exec(row: &Vec<JsonValue>, i: usize) -> (r: bool)
    ensures
        r == is_one(row_cell(row@, i as int)),
{
    if i < row.len() {
        if let JsonValue::Number(n) = &row[i] {
            if n.is_integer {
                let t = chars_of(n.text.as_str());
                if t.len() > 0 && t[0] == '+' {
                    return false;
                }
                return match crate::text::parse_unsigned_chars(t.as_slice(), 18446744073709551615) {
                    Some(v) => v == 1,
                    None => false,
                };
            }
        }
    }
    false
}

/// A column from a row of `name, type, default_kind, default_expression,
/// is_in_primary_key, comment` (see [`columns_sql`]): nullable when its type is
/// `Nullable(..)`, with a default when it has a default kind, a key when the flag is 1,
/// and a comment when it is not empty.
pub fn column_from_row(row: &Vec<JsonValue>) -> (r: ColumnInfo)
    requires
        row@.len() > 0,
    ensures
        r.name@ == str_cell(row_cell(row@, 0)),
        r.data_type@ == str_cell(row_cell(row@, 1)),
        r.is_nullable == starts_with(str_cell(row_cell(row@, 1)), "Nullable"@),
        str_cell(row_cell(row@, 2)).len() == 0 ==> r.column_default is None,
        str_cell(row_cell(row@, 2)).len() > 0 ==> (r.column_default matches Some(d) && d@ == str_cell(
            row_cell(row@, 3),
        )),
        r.is_primary_key == is_one(row_cell(row@, 4)),
        match row_cell(row@, 5) {
            Some(JsonModel::Str(c)) if c.len() > 0 => r.comment matches Some(t) && t@ == c,
            _ => r.comment is None,
        },
{
    let data_type = str_cell_exec(row, 1);
    let is_nullable = is_nullable_type(data_type.as_str());
    let default_kind = str_cell_exec(row, 2);
    let column_default = if default_kind.as_str().unicode_len() == 0 {
        None
    } else {
        Some(str_cell_exec(row, 3))
    };
    let comment = if 5 < row.len() {
        match &row[5] {
            JsonValue::String(c) => if c.as_str().unicode_len() == 0 {
                None
            } else {
                let mut out = String::new();
                push_str(&mut out, c.as_str());
                Some(out)
            },
            _ => None,
        }
    } else {
        None
    };
    ColumnInfo {
        name: str_cell_exec(row, 0),
        data_type,
        is_nullable,
        column_default,
        is_primary_key: is_one_exec(row, 4),
        comment,
    }
}

/// A path with a leading home reference expanded: `~` (alone or before `/` or `\`),
/// `$HOME` or `${HOME}` by `home`, `%USERPROFILE%` by `user_profile`; unchanged when
/// the needed value is missing or nothing matches.
pub open spec fn spec_expand_cert_path(path: Seq<char>, home: Option<Seq<char>>, user_profile: Option<Seq<char>>) -> Seq<
    char,
> {
    if (path == "~"@ || starts_with(path, "~/"@) || starts_with(path, "~\\"@)) && home is Some {
        home->0 + path.subrange(1, path.len() as int)
    } else if starts_with(path, "$HOME"@) && home is Some {
        home->0 + path.subrange(5, path.len() as int)
    } else if starts_with(path, "${HOME}"@) && home is Some {
        home->0 + path.subrange(7, path.len() as int)
    } else if starts_with(path, "%USERPROFILE%"@) && user_profile is Some {
        user_profile->0 + path.subrange(13, path.len() as int)
    } else {
        path
    }
}

fn rest_after(v: &Vec<char>, n: usize) -> (r: String)
    requires
        n <= v.len(),
    ensures
        r@ == v@.subrange(n as int, v@.len() as int),
{
    crate::text::string_of(&v.as_slice()[n..v.len()])
}

fn join_home(home: &String, v: &Vec<char>, n: usize) -> (r: String)
    requires
        n <= v.len(),
    ensures
        r@ == home@ + v@.subrange(n as int, v@.len() as int),
{
    let mut out = String::new();
    push_str(&mut out, home.as_str());
    push_str(&mut out, rest_after(v, n).as_str());
    out
}

/// Expands a home reference at the start of a CA certificate path; `home` is the
/// home directory variable of the platform, `user_profile` is `USERPROFILE`.
pub fn expand_cert_path(path: &str, home: &Option<String>, user_profile: &Option<String>) -> (r: String)
    ensures
        r@ == spec_expand_cert_path(
            path@,
            match home {
                Some(h) => Some(h@),
                None => None,
            },
            match user_profile {
                Some(u) => Some(u@),
                None => None,
            },
        ),
{
    let v = chars_of(path);
    let tilde_slash = chars_of("~/");
    let tilde_back = chars_of("~\\");
    let dollar = chars_of("$HOME");
    let braced = chars_of("${HOME}");
    let profile = chars_of("%USERPROFILE%");
    proof {
        reveal_strlit("~");
        reveal_strlit("~/");
        reveal_strlit("~\\");
        reveal_strlit("$HOME");
        reveal_strlit("${HOME}");
        reveal_strlit("%USERPROFILE%");
    }
    let is_tilde = crate::text::str_eq(path, "~") || chars_starts_with(v.as_slice(), tilde_slash.as_slice())
        || chars_starts_with(v.as_slice(), tilde_back.as_slice());
    if is_tilde {
        if let Some(h) = home {
            assert(v@.len() >= 1);
            return join_home(h, &v, 1);
        }
    }
    if chars_starts_with(v.as_slice(), dollar.as_slice()) {
        if let Some(h) = home {
            return join_home(h, &v, 5);
        }
    }
    if chars_starts_with(v.as_slice(), braced.as_slice()) {
        if let Some(h) = home {
            return join_home(h, &v, 7);
        }
    }
    if chars_starts_with(v.as_slice(), profile.as_slice()) {
        if let Some(u) = user_profile {
            return join_home(u, &v, 13);
        }
    }
    let mut out = String::new();
    push_str(&mut out, path);
    out
}

} // verus!

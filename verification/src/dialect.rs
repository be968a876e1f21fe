//! Database kinds and how their SQL quotes names.
use vstd::prelude::*;
use crate::text::{chars_of, push_char, push_str, trim, trim_string};

verus! {

/// The database products that connections can target.
#[derive(Debug, Clone, Copy, PartialEq, Eq, Structural)]
pub enum DatabaseType {
    Mysql,
    Postgres,
    Sqlite,
    SqlServer,
    Oracle,
    OceanbaseOracle,
    Iris,
    Dameng,
    ClickHouse,
    Hive,
    Trino,
    PrestoSql,
    Databricks,
    Rqlite,
    Turso,
    CloudflareD1,
    Gaussdb,
    OpenGauss,
    Redshift,
    Kingbase,
    Highgo,
    Kwdb,
    Vastbase,
    Doris,
    StarRocks,
    Goldendb,
    Sundb,
    Databend,
    ManticoreSearch,
    Redis,
    MongoDb,
    TDengine,
    IoTDB,
    Xugu,
    DuckDb,
    Access,
}

/// The character pair a dialect wraps identifiers in.
#[derive(Debug, Clone, Copy, PartialEq, Eq, Structural)]
pub enum QuoteStyle {
    /// `"name"`, with `"` doubled inside.
    Double,
    /// `` `name` ``, with `` ` `` doubled inside.
    Backtick,
    /// `[name]`, with `]` doubled inside.
    Bracket,
}

pub open spec fn spec_quote_style(db: DatabaseType) -> QuoteStyle {
    match db {
        DatabaseType::Mysql | DatabaseType::Doris | DatabaseType::StarRocks | DatabaseType::Goldendb
        | DatabaseType::Sundb | DatabaseType::Databend | DatabaseType::ClickHouse | DatabaseType::Hive
        | DatabaseType::Databricks | DatabaseType::ManticoreSearch => QuoteStyle::Backtick,
        DatabaseType::SqlServer | DatabaseType::Access => QuoteStyle::Bracket,
        _ => QuoteStyle::Double,
    }
}

pub fn quote_style(db: &DatabaseType) -> (r: QuoteStyle)
    ensures
        r == spec_quote_style(*db),
{
    match db {
        DatabaseType::Mysql | DatabaseType::Doris | DatabaseType::StarRocks | DatabaseType::Goldendb
        | DatabaseType::Sundb | DatabaseType::Databend | DatabaseType::ClickHouse | DatabaseType::Hive
        | DatabaseType::Databricks | DatabaseType::ManticoreSearch => QuoteStyle::Backtick,
        DatabaseType::SqlServer | DatabaseType::Access => QuoteStyle::Bracket,
        _ => QuoteStyle::Double,
    }
}

pub open spec fn open_char(style: QuoteStyle) -> char {
    match style {
        QuoteStyle::Double => '"',
        QuoteStyle::Backtick => '`',
        QuoteStyle::Bracket => '[',
    }
}

pub open spec fn close_char(style: QuoteStyle) -> char {
    match style {
        QuoteStyle::Double => '"',
        QuoteStyle::Backtick => '`',
        QuoteStyle::Bracket => ']',
    }
}

/// `name` with every closing quote character doubled.
pub open spec fn escape_ident(name: Seq<char>, close: char) -> Seq<char>
    decreases name.len(),
{
    if name.len() == 0 {
        Seq::empty()
    } else {
        let rest = escape_ident(name.drop_last(), close);
        if name.last() == close {
            rest + seq![close, close]
        } else {
            rest.push(name.last())
        }
    }
}

/// A quoted identifier in the dialect of `db`.
pub open spec fn spec_quote_identifier(name: Seq<char>, db: DatabaseType) -> Seq<char> {
    let style = spec_quote_style(db);
    seq![open_char(style)] + escape_ident(name, close_char(style)) + seq![close_char(style)]
}

/// Dialects that address a table without a schema part (the connection's database
/// is the namespace).
pub open spec fn ignores_schema(db: DatabaseType) -> bool {
    spec_quote_style(db) is Backtick
}

/// The table's name as SQL refers to it: `schema.table` when a schema is given and the
/// dialect has schemas, else the table alone.
pub open spec fn spec_qualified_table(table: Seq<char>, schema: Seq<char>, db: DatabaseType) -> Seq<char> {
    if trim(schema).len() == 0 || ignores_schema(db) {
        spec_quote_identifier(table, db)
    } else {
        spec_quote_identifier(trim(schema), db) + seq!['.'] + spec_quote_identifier(table, db)
    }
}

pub fn quote_identifier(name: &str, db: &DatabaseType) -> (r: String)
    ensures
        r@ == spec_quote_identifier(name@, *db),
{
    let style = quote_style(db);
    let (open, close) = match style {
        QuoteStyle::Double => ('"', '"'),
        QuoteStyle::Backtick => ('`', '`'),
        QuoteStyle::Bracket => ('[', ']'),
    };
    let v = chars_of(name);
    let mut out = String::new();
    push_char(&mut out, open);
    let ghost start = out@;
    for i in 0..v.len()
        invariant
            start == seq![open],
            close == close_char(style),
            out@ == start + escape_ident(v@.subrange(0, i as int), close),
    {
        assert(v@.subrange(0, i + 1).drop_last() =~= v@.subrange(0, i as int));
        if v[i] == close {
            push_char(&mut out, close);
            push_char(&mut out, close);
            assert(out@ =~= start + escape_ident(v@.subrange(0, i + 1), close));
        } else {
            push_char(&mut out, v[i]);
            assert(out@ =~= start + escape_ident(v@.subrange(0, i + 1), close));
        }
    }
    push_char(&mut out, close);
    assert(v@.subrange(0, v@.len() as int) =~= v@);
    assert(out@ =~= spec_quote_identifier(name@, *db));
    out
}

pub fn qualified_table(table: &str, schema: &str, db: &DatabaseType) -> (r: String)
    ensures
        r@ == spec_qualified_table(table@, schema@, *db),
{
    let schema = trim_string(schema);
    let schema_chars = chars_of(schema.as_str());
    let style = quote_style(db);
    if schema_chars.len() == 0 || matches!(style, QuoteStyle::Backtick) {
        quote_identifier(table, db)
    } else {
        let mut out = quote_identifier(schema.as_str(), db);
        push_char(&mut out, '.');
        let t = quote_identifier(table, db);
        push_str(&mut out, t.as_str());
        out
    }
}

} // verus!

//! The arguments of the MCP tools and of the update routes.
use vstd::prelude::*;
use crate::mcp::connections::ConnectionSelector;
use crate::text::push_str;

verus! {

/// Listing connections takes no argument.
#[derive(Debug)]
pub struct ListConnectionsRequest {}

/// Listing the tables of a connection.
#[derive(Debug)]
pub struct ListTablesRequest {
    pub selector: ConnectionSelector,
    pub database: Option<String>,
    pub schema: Option<String>,
}

/// Describing the columns of a table.
#[derive(Debug)]
pub struct DescribeTableRequest {
    pub selector: ConnectionSelector,
    pub table: String,
    pub database: Option<String>,
    pub schema: Option<String>,
}

/// Running a SQL query (or a MongoDB shell command on a MongoDB connection).
#[derive(Debug)]
pub struct ExecuteQueryRequest {
    pub selector: ConnectionSelector,
    pub database: Option<String>,
    pub sql: String,
}

/// Running a Redis command.
#[derive(Debug)]
pub struct ExecuteRedisCommandRequest {
    pub selector: ConnectionSelector,
    pub db: Option<u32>,
    pub command: String,
}

/// Asking for compact schema context.
#[derive(Debug)]
pub struct SchemaContextRequest {
    pub selector: ConnectionSelector,
    pub database: Option<String>,
    pub schema: Option<String>,
    pub tables: Option<Vec<String>>,
    pub max_tables: Option<usize>,
}

/// Opening a table in the desktop app.
#[derive(Debug)]
pub struct OpenTableRequest {
    pub selector: ConnectionSelector,
    pub table: String,
    pub database: Option<String>,
    pub schema: Option<String>,
}

/// Running a query in the desktop app's window.
#[derive(Debug)]
pub struct ExecuteAndShowRequest {
    pub selector: ConnectionSelector,
    pub sql: String,
    pub database: Option<String>,
}

/// The query of an update check: the locale of the notes and the download source.
#[derive(Debug)]
pub struct UpdateCheckParams {
    pub locale: Option<String>,
    pub source: Option<String>,
}

/// The query of a changelog request: its language.
#[derive(Debug)]
pub struct ChangelogParams {
    pub lang: Option<String>,
}

fn or_default(value: &Option<String>, default: &str) -> (r: String)
    ensures
        r@ == match value {
            Some(v) => v@,
            None => default@,
        },
{
    match value {
        Some(v) => v.clone(),
        None => {
            let mut out = String::new();
            push_str(&mut out, default);
            out
        },
    }
}

impl UpdateCheckParams {
    /// The locale of the release notes: the one asked for, or `zh-CN`.
    pub fn effective_locale(&self) -> (r: String)
        ensures
            r@ == match self.locale {
                Some(v) => v@,
                None => "zh-CN"@,
            },
    {
        or_default(&self.locale, "zh-CN")
    }
}

impl ChangelogParams {
    /// The language of the changelog: the one asked for, or `en`.
    pub fn effective_lang(&self) -> (r: String)
        ensures
            r@ == match self.lang {
                Some(v) => v@,
                None => "en"@,
            },
    {
        or_default(&self.lang, "en")
    }
}

impl SchemaContextRequest {
    /// The requested table names, none when the list is absent.
    pub fn requested_tables(&self) -> (r: Vec<String>)
        ensures
            r@ == match self.tables {
                Some(t) => t@,
                None => Seq::empty(),
            },
    {
        match &self.tables {
            Some(t) => {
                let mut out: Vec<String> = Vec::new();
                let mut i: usize = 0;
                while i < t.len()
                    invariant
                        i <= t.len(),
                        out@ == t@.subrange(0, i as int),
                    decreases t.len() - i,
                {
                    out.push(t[i].clone());
                    assert(out@ =~= t@.subrange(0, i + 1));
                    i = i + 1;
                }
                assert(t@.subrange(0, t@.len() as int) =~= t@);
                out
            },
            None => Vec::new(),
        }
    }
}

} // verus!

//! What MCP sends to DBX Web and to the desktop app, and how it reads the answers.
use vstd::prelude::*;
use crate::json::{
    int_model, json_int, json_object, json_opt_str, json_str, json_uint, members_view, opt_str_model, push_member,
    JsonModel, JsonNumber, JsonValue,
};
use crate::json::{json_pretty_text, json_to_pretty_string};
use crate::mcp::markdown::cell_text;
use crate::mcp::results::{
    doc_views, documents_text, format_affected_rows, format_index_name_table, format_metric_table, format_mongo_documents,
    format_version_table, header_set, member_lookup, member_of, single_value, single_value_table, spec_affected_rows,
    spec_query_cell, u64_text, u64_text_exec,
};
use crate::mongo::command::{MongoCommand, MongoCommandModel};
use crate::dialect::DatabaseType;
use crate::mcp::answers::TableInfo;
use crate::mcp::connections::{ConnectionConfig, ToolError};
use crate::mcp::gates::{
    sql_connection_gate, spec_mongo_gate, validate_mongo_command, AgentSqlPermissions, RedisCommandSafety,
};
use crate::mcp::connections::{resolve_database, spec_resolve_database, McpScope};
use crate::mongo::parser::spec_parse;
use crate::mcp::manage::ToolReply;
use crate::text::{chars_of, push_str, starts_with, string_of, trim, trim_string};
use crate::ordered::sorted_distinct;

verus! {

/// An HTTP call to DBX Web: a `POST` to `path` with a JSON body.
#[derive(Debug)]
pub struct WebCall {
    pub path: String,
    pub body: JsonValue,
}

/// The aggregation pipeline that lists index statistics.
pub open spec fn index_stats_pipeline() -> Seq<char> {
    "[{\"$indexStats\":{}}]"@
}

/// The DBX Web endpoint that runs a MongoDB command.
pub open spec fn spec_mongo_path(c: MongoCommandModel) -> Seq<char> {
    match c {
        MongoCommandModel::Version => "/api/mongo/server-version"@,
        MongoCommandModel::Find { .. } => "/api/mongo/find-documents"@,
        MongoCommandModel::Count { .. } => "/api/mongo/count-documents"@,
        MongoCommandModel::Aggregate { .. } => "/api/mongo/aggregate-documents"@,
        MongoCommandModel::Distinct { .. } => "/api/mongo/distinct"@,
        MongoCommandModel::GetIndexes { .. } => "/api/mongo/aggregate-documents"@,
        MongoCommandModel::CollectionStats { .. } => "/api/mongo/collection-stats"@,
        MongoCommandModel::Insert { .. } => "/api/mongo/insert-documents"@,
        MongoCommandModel::Update { .. } => "/api/mongo/update-documents"@,
        MongoCommandModel::Delete { .. } => "/api/mongo/delete-documents"@,
        MongoCommandModel::CreateIndex { .. } => "/api/mongo/create-index"@,
        MongoCommandModel::DropIndexes { .. } => "/api/mongo/drop-indexes"@,
        MongoCommandModel::DropCollection { .. } => "/api/mongo/drop-collection"@,
    }
}

/// The members every MongoDB call starts with.
pub open spec fn mongo_base(connection_id: Seq<char>, database: Seq<char>) -> Seq<(Seq<char>, JsonModel)> {
    seq![("connectionId"@, JsonModel::Str(connection_id)), ("database"@, JsonModel::Str(database))]
}

/// The members of the body that runs a MongoDB command; `scale` is the statistics
/// scale as JSON (null when none was given).
pub open spec fn spec_mongo_members(
    connection_id: Seq<char>,
    database: Seq<char>,
    c: MongoCommandModel,
    scale: JsonModel,
) -> Seq<(Seq<char>, JsonModel)> {
    let base = mongo_base(connection_id, database);
    match c {
        MongoCommandModel::Version => base,
        MongoCommandModel::Find { collection, filter, projection, sort, skip, limit } => base.push(
            ("collection"@, JsonModel::Str(collection)),
        ).push(("skip"@, int_model(skip))).push(("limit"@, int_model(limit))).push(
            ("filter"@, JsonModel::Str(filter)),
        ).push(("projection"@, opt_str_model(projection))).push(("sort"@, opt_str_model(sort))),
        MongoCommandModel::Count { collection, filter, accurate } => base.push(
            ("collection"@, JsonModel::Str(collection)),
        ).push(("filter"@, JsonModel::Str(filter))).push(
            (
                "mode"@,
                JsonModel::Str(
                    if accurate {
                        "accurate"@
                    } else {
                        "legacy"@
                    },
                ),
            ),
        ),
        MongoCommandModel::Aggregate { collection, pipeline, options } => base.push(
            ("collection"@, JsonModel::Str(collection)),
        ).push(("pipelineJson"@, JsonModel::Str(pipeline))).push(("maxRows"@, int_model(100))).push(
            ("optionsJson"@, opt_str_model(options)),
        ),
        MongoCommandModel::Distinct { collection, field, filter } => base.push(
            ("collection"@, JsonModel::Str(collection)),
        ).push(("field"@, JsonModel::Str(field))).push(("filter"@, opt_str_model(filter))),
        MongoCommandModel::GetIndexes { collection } => base.push(("collection"@, JsonModel::Str(collection))).push(
            ("pipelineJson"@, JsonModel::Str(index_stats_pipeline())),
        ).push(("maxRows"@, int_model(100))),
        MongoCommandModel::CollectionStats { collection, .. } => base.push(
            ("collection"@, JsonModel::Str(collection)),
        ).push(("scale"@, scale)),
        MongoCommandModel::Insert { collection, documents } => base.push(
            ("collection"@, JsonModel::Str(collection)),
        ).push(("docsJson"@, JsonModel::Str(documents))),
        MongoCommandModel::Update { collection, filter, update, options, many } => base.push(
            ("collection"@, JsonModel::Str(collection)),
        ).push(("filterJson"@, JsonModel::Str(filter))).push(("updateJson"@, JsonModel::Str(update))).push(
            ("many"@, JsonModel::Bool(many)),
        ).push(("optionsJson"@, opt_str_model(options))),
        MongoCommandModel::Delete { collection, filter, many } => base.push(
            ("collection"@, JsonModel::Str(collection)),
        ).push(("filterJson"@, JsonModel::Str(filter))).push(("many"@, JsonModel::Bool(many))),
        MongoCommandModel::CreateIndex { collection, keys, options } => base.push(
            ("collection"@, JsonModel::Str(collection)),
        ).push(("keysJson"@, JsonModel::Str(keys))).push(("optionsJson"@, opt_str_model(options))),
        MongoCommandModel::DropIndexes { collection, indexes, single } => base.push(
            ("collection"@, JsonModel::Str(collection)),
        ).push(("indexesJson"@, opt_str_model(indexes))).push(("single"@, JsonModel::Bool(single))),
        MongoCommandModel::DropCollection { collection } => base.push(("collection"@, JsonModel::Str(collection))),
    }
}

/// A statistics scale as JSON: the number, or null.
pub open spec fn scale_model(scale: Option<JsonNumber>) -> JsonModel {
    match scale {
        Some(n) => JsonModel::Number(n.text@, n.is_integer),
        None => JsonModel::Null,
    }
}

fn owned(s: &str) -> (r: String)
    ensures
        r@ == s@,
{
    let mut out = String::new();
    crate::text::push_str(&mut out, s);
    out
}

/// The DBX Web call that runs a MongoDB command on a connection's database; `scale`
/// is the number the statistics scale argument reads as.
pub fn web_mongo_call(connection_id: &str, database: &str, command: &MongoCommand, scale: &Option<JsonNumber>) -> (r:
    WebCall)
    ensures
        r.path@ == spec_mongo_path(command@),
        r.body@ == JsonModel::Object(
            spec_mongo_members(connection_id@, database@, command@, scale_model(*scale)),
        ),
{
    let mut ms: Vec<(String, JsonValue)> = Vec::new();
    assert(members_view(ms@) =~= Seq::<(Seq<char>, JsonModel)>::empty());
    push_member(&mut ms, "connectionId", json_str(connection_id));
    push_member(&mut ms, "database", json_str(database));
    assert(members_view(ms@) =~= mongo_base(connection_id@, database@));
    let path = match command {
        MongoCommand::Version => owned("/api/mongo/server-version"),
        MongoCommand::Find { collection, filter, projection, sort, skip, limit } => {
            push_member(&mut ms, "collection", json_str(collection.as_str()));
            push_member(&mut ms, "skip", json_uint(*skip));
            push_member(&mut ms, "limit", json_int(*limit));
            push_member(&mut ms, "filter", json_str(filter.as_str()));
            push_member(&mut ms, "projection", json_opt_str(projection));
            push_member(&mut ms, "sort", json_opt_str(sort));
            owned("/api/mongo/find-documents")
        },
        MongoCommand::Count { collection, filter, accurate } => {
            push_member(&mut ms, "collection", json_str(collection.as_str()));
            push_member(&mut ms, "filter", json_str(filter.as_str()));
            push_member(
                &mut ms,
                "mode",
                json_str(
                    if *accurate {
                        "accurate"
                    } else {
                        "legacy"
                    },
                ),
            );
            owned("/api/mongo/count-documents")
        },
        MongoCommand::Aggregate { collection, pipeline, options } => {
            push_member(&mut ms, "collection", json_str(collection.as_str()));
            push_member(&mut ms, "pipelineJson", json_str(pipeline.as_str()));
            push_member(&mut ms, "maxRows", json_int(100));
            push_member(&mut ms, "optionsJson", json_opt_str(options));
            owned("/api/mongo/aggregate-documents")
        },
        MongoCommand::Distinct { collection, field, filter } => {
            push_member(&mut ms, "collection", json_str(collection.as_str()));
            push_member(&mut ms, "field", json_str(field.as_str()));
            push_member(&mut ms, "filter", json_opt_str(filter));
            owned("/api/mongo/distinct")
        },
        MongoCommand::GetIndexes { collection } => {
            push_member(&mut ms, "collection", json_str(collection.as_str()));
            push_member(&mut ms, "pipelineJson", json_str("[{\"$indexStats\":{}}]"));
            push_member(&mut ms, "maxRows", json_int(100));
            owned("/api/mongo/aggregate-documents")
        },
        MongoCommand::CollectionStats { collection, .. } => {
            push_member(&mut ms, "collection", json_str(collection.as_str()));
            let s = match scale {
                Some(n) => JsonValue::Number(JsonNumber { text: n.text.clone(), is_integer: n.is_integer }),
                None => JsonValue::Null,
            };
            push_member(&mut ms, "scale", s);
            owned("/api/mongo/collection-stats")
        },
        MongoCommand::Insert { collection, documents } => {
            push_member(&mut ms, "collection", json_str(collection.as_str()));
            push_member(&mut ms, "docsJson", json_str(documents.as_str()));
            owned("/api/mongo/insert-documents")
        },
        MongoCommand::Update { collection, filter, update, options, many } => {
            push_member(&mut ms, "collection", json_str(collection.as_str()));
            push_member(&mut ms, "filterJson", json_str(filter.as_str()));
            push_member(&mut ms, "updateJson", json_str(update.as_str()));
            push_member(&mut ms, "many", JsonValue::Bool(*many));
            push_member(&mut ms, "optionsJson", json_opt_str(options));
            owned("/api/mongo/update-documents")
        },
        MongoCommand::Delete { collection, filter, many } => {
            push_member(&mut ms, "collection", json_str(collection.as_str()));
            push_member(&mut ms, "filterJson", json_str(filter.as_str()));
            push_member(&mut ms, "many", JsonValue::Bool(*many));
            owned("/api/mongo/delete-documents")
        },
        MongoCommand::CreateIndex { collection, keys, options } => {
            push_member(&mut ms, "collection", json_str(collection.as_str()));
            push_member(&mut ms, "keysJson", json_str(keys.as_str()));
            push_member(&mut ms, "optionsJson", json_opt_str(options));
            owned("/api/mongo/create-index")
        },
        MongoCommand::DropIndexes { collection, indexes, single } => {
            push_member(&mut ms, "collection", json_str(collection.as_str()));
            push_member(&mut ms, "indexesJson", json_opt_str(indexes));
            push_member(&mut ms, "single", JsonValue::Bool(*single));
            owned("/api/mongo/drop-indexes")
        },
        MongoCommand::DropCollection { collection } => {
            push_member(&mut ms, "collection", json_str(collection.as_str()));
            owned("/api/mongo/drop-collection")
        },
    };
    WebCall { path, body: json_object(ms) }
}


/// The documents of a DBX Web document answer: the `documents` array of an object,
/// or the array that is the only element of an array.
pub open spec fn reply_documents(r: JsonModel) -> Option<Seq<JsonModel>> {
    match r {
        JsonModel::Object(ms) => match member_of(ms, "documents"@) {
            Some(JsonModel::Array(d)) => Some(d),
            _ => None,
        },
        JsonModel::Array(items) => if items.len() == 1 {
            match items[0] {
                JsonModel::Array(d) => Some(d),
                _ => None,
            }
        } else {
            None
        },
        _ => None,
    }
}

/// Whether `text` is the Markdown table of the documents (see `format_mongo_documents`).
pub open spec fn documents_answer(docs: Seq<JsonModel>, text: Seq<char>) -> bool {
    &&& docs.len() == 0 ==> text == "Query returned 0 rows."@
    &&& docs.len() > 0 ==> exists|headers: Seq<Seq<char>>|
        sorted_distinct(headers) && headers.to_set() == header_set(docs) && text == documents_text(docs, headers)
}

/// The name DBX Web's answer to a command goes by in error messages.
pub open spec fn reply_kind(c: MongoCommandModel) -> Seq<char> {
    match c {
        MongoCommandModel::Version => "version"@,
        MongoCommandModel::Find { .. } => "find"@,
        MongoCommandModel::Count { .. } => "count"@,
        MongoCommandModel::Aggregate { .. } => "aggregate"@,
        MongoCommandModel::Distinct { .. } => "distinct"@,
        MongoCommandModel::GetIndexes { .. } => "indexes"@,
        MongoCommandModel::CollectionStats { .. } => "stats"@,
        MongoCommandModel::Insert { .. } => "insert"@,
        MongoCommandModel::Update { .. } => "update"@,
        MongoCommandModel::Delete { .. } => "delete"@,
        MongoCommandModel::CreateIndex { .. } => "create index"@,
        MongoCommandModel::DropIndexes { .. } => "drop indexes"@,
        MongoCommandModel::DropCollection { .. } => "drop collection"@,
    }
}

/// The size metric of collection statistics as a one-cell table.
pub open spec fn metric_answer(metric: Seq<char>, stats: JsonModel) -> Seq<char> {
    single_value_table(
        metric,
        match (match stats {
            JsonModel::Object(ms) => member_of(
                ms,
                if metric == "dataSize"@ {
                    "size"@
                } else {
                    metric
                },
            ),
            _ => None,
        }) {
            Some(v) => spec_query_cell(v),
            None => "NULL"@,
        },
    )
}

/// The `name` string of an answer, or the empty text.
pub open spec fn name_member(r: JsonModel) -> Seq<char> {
    match r {
        JsonModel::Object(ms) => match member_of(ms, "name"@) {
            Some(JsonModel::Str(s)) => s,
            _ => Seq::empty(),
        },
        _ => Seq::empty(),
    }
}

fn documents_of(response: &JsonValue) -> (r: Option<&Vec<JsonValue>>)
    ensures
        match r {
            Some(d) => reply_documents(response@) == Some(doc_views(d@)),
            None => reply_documents(response@) is None,
        },
{
    match response {
        JsonValue::Object(members) => {
            let key = owned("documents");
            match member_lookup(members, &key) {
                Some(JsonValue::Array(items)) => {
                    assert(JsonValue::Array(*items)@->Array_0 =~= doc_views(items@));
                    Some(items)
                },
                _ => None,
            }
        },
        JsonValue::Array(items) => {
            if items.len() == 1 {
                match &items[0] {
                    JsonValue::Array(d) => {
                        assert(response@->Array_0[0] == items@[0]@);
                        assert(JsonValue::Array(*d)@->Array_0 =~= doc_views(d@));
                        Some(d)
                    },
                    _ => {
                        assert(response@->Array_0[0] == items@[0]@);
                        None
                    },
                }
            } else {
                None
            }
        },
        _ => None,
    }
}

/// The error for an answer of the wrong shape.
pub open spec fn invalid_reply_text(kind: Seq<char>, expected: Seq<char>) -> Seq<char> {
    "Invalid MongoDB "@ + kind + " response: expected "@ + expected
}

fn invalid_reply(kind: &str, expected: &str) -> (r: String)
    ensures
        r@ == invalid_reply_text(kind@, expected@),
{
    let mut m = owned("Invalid MongoDB ");
    crate::text::push_str(&mut m, kind);
    crate::text::push_str(&mut m, " response: expected ");
    crate::text::push_str(&mut m, expected);
    m
}

fn document_answer(kind: &str, response: &JsonValue) -> (r: Result<String, String>)
    ensures
        match reply_documents(response@) {
            Some(d) => r matches Ok(t) && documents_answer(d, t@),
            None => r matches Err(e) && e@ == invalid_reply_text(kind@, "an object with a documents array"@),
        },
{
    match documents_of(response) {
        Some(d) => Ok(format_mongo_documents(d)),
        None => Err(invalid_reply(kind, "an object with a documents array")),
    }
}

/// The answer to a MongoDB command from what DBX Web sent back: a version string, a
/// list of documents, a count, statistics, an affected-row count or an index name,
/// each shown as the desktop path shows it; an error when the answer is not of the
/// expected shape.
pub fn web_mongo_reply(command: &MongoCommand, response: &JsonValue) -> (r: Result<String, String>)
    ensures
        match command@ {
            MongoCommandModel::Version => match response@ {
                JsonModel::Str(v) => r matches Ok(t) && t@ == single_value_table("version"@, cell_text(v, true)),
                _ => r matches Err(e) && e@ == invalid_reply_text("version"@, "a string"@),
            },
            MongoCommandModel::Find { .. }
            | MongoCommandModel::Aggregate { .. }
            | MongoCommandModel::Distinct { .. }
            | MongoCommandModel::GetIndexes { .. } => match reply_documents(response@) {
                Some(d) => r matches Ok(t) && documents_answer(d, t@),
                None => r matches Err(e) && e@ == invalid_reply_text(
                    reply_kind(command@),
                    "an object with a documents array"@,
                ),
            },
            MongoCommandModel::Count { .. } => match u64_text(Some(response@)) {
                Some(n) => r matches Ok(t) && t@ == single_value_table("count"@, n),
                None => r matches Err(e) && e@ == invalid_reply_text("count"@, "an unsigned integer"@),
            },
            MongoCommandModel::CollectionStats { metric, .. } => r matches Ok(t) && t@ == (if metric == "stats"@ {
                json_pretty_text(response@)
            } else {
                metric_answer(metric, response@)
            }),
            MongoCommandModel::Insert { .. }
            | MongoCommandModel::Update { .. }
            | MongoCommandModel::Delete { .. }
            | MongoCommandModel::DropIndexes { .. } => r matches Ok(t) && t@ == "Query executed. "@ + spec_affected_rows(
                response@,
            ) + " row(s) affected."@,
            MongoCommandModel::CreateIndex { .. } => r matches Ok(t) && t@ == single_value_table(
                "name"@,
                cell_text(name_member(response@), true),
            ),
            MongoCommandModel::DropCollection { .. } => r matches Ok(t) && t@ == "Query executed. 1 row(s) affected."@,
        },
{
    match command {
        MongoCommand::Version => match response {
            JsonValue::String(v) => Ok(format_version_table(v.as_str())),
            _ => Err(invalid_reply("version", "a string")),
        },
        MongoCommand::Find { .. } => document_answer("find", response),
        MongoCommand::Aggregate { .. } => document_answer("aggregate", response),
        MongoCommand::Distinct { .. } => document_answer("distinct", response),
        MongoCommand::GetIndexes { .. } => document_answer("indexes", response),
        MongoCommand::Count { .. } => match u64_text_exec(Some(response)) {
            Some(n) => Ok(single_value("count", n.as_str())),
            None => Err(invalid_reply("count", "an unsigned integer")),
        },
        MongoCommand::CollectionStats { metric, .. } => {
            if crate::text::str_eq(metric.as_str(), "stats") {
                Ok(json_to_pretty_string(response))
            } else {
                Ok(format_metric_table(metric.as_str(), response))
            }
        },
        MongoCommand::Insert { .. } | MongoCommand::Update { .. } | MongoCommand::Delete { .. }
        | MongoCommand::DropIndexes { .. } => Ok(format_affected_rows(response)),
        MongoCommand::CreateIndex { .. } => {
            let name = match response {
                JsonValue::Object(members) => {
                    let key = owned("name");
                    match member_lookup(members, &key) {
                        Some(JsonValue::String(s)) => owned(s.as_str()),
                        _ => String::new(),
                    }
                },
                _ => String::new(),
            };
            Ok(format_index_name_table(name.as_str()))
        },
        MongoCommand::DropCollection { .. } => Ok(owned("Query executed. 1 row(s) affected.")),
    }
}


/// The UTF-8 encoding of a character.
pub open spec fn utf8_of(c: char) -> Seq<u8> {
    let n = c as u32;
    if n < 0x80 {
        seq![n as u8]
    } else if n < 0x800 {
        seq![(0xC0 | (n >> 6)) as u8, (0x80 | (n & 0x3F)) as u8]
    } else if n < 0x10000 {
        seq![(0xE0 | (n >> 12)) as u8, (0x80 | ((n >> 6) & 0x3F)) as u8, (0x80 | (n & 0x3F)) as u8]
    } else {
        seq![
            (0xF0 | (n >> 18)) as u8,
            (0x80 | ((n >> 12) & 0x3F)) as u8,
            (0x80 | ((n >> 6) & 0x3F)) as u8,
            (0x80 | (n & 0x3F)) as u8,
        ]
    }
}

/// The UTF-8 encoding of a text.
pub open spec fn utf8_text(s: Seq<char>) -> Seq<u8>
    decreases s.len(),
{
    if s.len() == 0 {
        Seq::empty()
    } else {
        utf8_text(s.drop_last()) + utf8_of(s.last())
    }
}

/// An uppercase hexadecimal digit.
pub open spec fn hex_digit(d: int) -> char {
    if d < 10 {
        (48 + d) as char
    } else {
        (55 + d) as char
    }
}

/// How `application/x-www-form-urlencoded` writes a byte: `*`, `-`, `.`, `_`, ASCII
/// letters and digits as they are, a space as `+`, anything else as `%XX`.
pub open spec fn form_byte(b: u8) -> Seq<char> {
    if b == 0x2A || b == 0x2D || b == 0x2E || b == 0x5F || (0x30 <= b <= 0x39) || (0x41 <= b <= 0x5A) || (0x61 <= b
        <= 0x7A) {
        seq![b as char]
    } else if b == 0x20 {
        seq!['+']
    } else {
        seq!['%', hex_digit(b as int / 16), hex_digit(b as int % 16)]
    }
}

pub open spec fn form_bytes(bs: Seq<u8>) -> Seq<char>
    decreases bs.len(),
{
    if bs.len() == 0 {
        Seq::empty()
    } else {
        form_bytes(bs.drop_last()) + form_byte(bs.last())
    }
}

/// A text as a form-urlencoded query value.
pub open spec fn form_urlencoded(s: Seq<char>) -> Seq<char> {
    form_bytes(utf8_text(s))
}

/// Calls `url::form_urlencoded::byte_serialize` on the text's UTF-8 bytes and joins
/// the pieces it yields. The contract states the encoding its documentation names
/// (the WHATWG urlencoded byte serializer) over the UTF-8 bytes of the text.
#[verifier::external_body]
fn url_encode(value: &str) -> (r: String)
    ensures
        r@ == form_urlencoded(value@),
{
    url::form_urlencoded::byte_serialize(value.as_bytes()).collect()
}

/// The DBX Web path that lists the tables of a schema.
pub fn schema_tables_path(connection_id: &str, database: &str, schema: &str) -> (r: String)
    ensures
        r@ == "/api/schema/tables?connection_id="@ + form_urlencoded(connection_id@) + "&database="@
            + form_urlencoded(database@) + "&schema="@ + form_urlencoded(schema@),
{
    let mut p = owned("/api/schema/tables?connection_id=");
    push_str(&mut p, url_encode(connection_id).as_str());
    push_str(&mut p, "&database=");
    push_str(&mut p, url_encode(database).as_str());
    push_str(&mut p, "&schema=");
    push_str(&mut p, url_encode(schema).as_str());
    p
}

/// The DBX Web path that lists the columns of a table.
pub fn schema_columns_path(connection_id: &str, database: &str, schema: &str, table: &str) -> (r: String)
    ensures
        r@ == "/api/schema/columns?connection_id="@ + form_urlencoded(connection_id@) + "&database="@
            + form_urlencoded(database@) + "&schema="@ + form_urlencoded(schema@) + "&table="@ + form_urlencoded(
            table@,
        ),
{
    let mut p = owned("/api/schema/columns?connection_id=");
    push_str(&mut p, url_encode(connection_id).as_str());
    push_str(&mut p, "&database=");
    push_str(&mut p, url_encode(database).as_str());
    push_str(&mut p, "&schema=");
    push_str(&mut p, url_encode(schema).as_str());
    push_str(&mut p, "&table=");
    push_str(&mut p, url_encode(table).as_str());
    p
}

/// The call that lists the collections of a MongoDB database.
pub fn mongo_list_collections_call(connection_id: &str, database: &str) -> (r: WebCall)
    ensures
        r.path@ == "/api/mongo/list-collections"@,
        r.body@ == JsonModel::Object(mongo_base(connection_id@, database@)),
{
    let mut ms: Vec<(String, JsonValue)> = Vec::new();
    assert(members_view(ms@) =~= Seq::<(Seq<char>, JsonModel)>::empty());
    push_member(&mut ms, "connectionId", json_str(connection_id));
    push_member(&mut ms, "database", json_str(database));
    assert(members_view(ms@) =~= mongo_base(connection_id@, database@));
    WebCall { path: owned("/api/mongo/list-collections"), body: json_object(ms) }
}

/// The call that reads sample documents of a collection (the first 20 of all) to
/// infer its columns.
pub fn mongo_sample_documents_call(connection_id: &str, database: &str, collection: &str) -> (r: WebCall)
    ensures
        r.path@ == "/api/mongo/find-documents"@,
        r.body@ == JsonModel::Object(
            mongo_base(connection_id@, database@).push(("collection"@, JsonModel::Str(collection@))).push(
                ("skip"@, int_model(0)),
            ).push(("limit"@, int_model(20))).push(("filter"@, JsonModel::Str("{}"@))),
        ),
{
    let mut ms: Vec<(String, JsonValue)> = Vec::new();
    assert(members_view(ms@) =~= Seq::<(Seq<char>, JsonModel)>::empty());
    push_member(&mut ms, "connectionId", json_str(connection_id));
    push_member(&mut ms, "database", json_str(database));
    assert(members_view(ms@) =~= mongo_base(connection_id@, database@));
    push_member(&mut ms, "collection", json_str(collection));
    push_member(&mut ms, "skip", json_int(0));
    push_member(&mut ms, "limit", json_int(20));
    push_member(&mut ms, "filter", json_str("{}"));
    WebCall { path: owned("/api/mongo/find-documents"), body: json_object(ms) }
}

/// The call that runs a SQL statement.
pub fn query_execute_call(connection_id: &str, database: &str, sql: &str) -> (r: WebCall)
    ensures
        r.path@ == "/api/query/execute"@,
        r.body@ == JsonModel::Object(
            Seq::empty()
                .push(("connectionId"@, JsonModel::Str(connection_id@)))
                .push(("database"@, JsonModel::Str(database@)))
                .push(("sql"@, JsonModel::Str(sql@))),
        ),
{
    let mut ms: Vec<(String, JsonValue)> = Vec::new();
    assert(members_view(ms@) =~= Seq::<(Seq<char>, JsonModel)>::empty());
    push_member(&mut ms, "connectionId", json_str(connection_id));
    push_member(&mut ms, "database", json_str(database));
    push_member(&mut ms, "sql", json_str(sql));
    WebCall { path: owned("/api/query/execute"), body: json_object(ms) }
}

/// The call that runs a Redis command in a database.
pub fn redis_execute_call(connection_id: &str, database: u32, command: &str, skip_safety_check: bool) -> (r: WebCall)
    ensures
        r.path@ == "/api/redis/execute-command"@,
        r.body@ == JsonModel::Object(
            Seq::empty()
                .push(("connectionId"@, JsonModel::Str(connection_id@)))
                .push(("db"@, int_model(database as int)))
                .push(("command"@, JsonModel::Str(command@)))
                .push(("skipSafetyCheck"@, JsonModel::Bool(skip_safety_check))),
        ),
{
    let mut ms: Vec<(String, JsonValue)> = Vec::new();
    assert(members_view(ms@) =~= Seq::<(Seq<char>, JsonModel)>::empty());
    push_member(&mut ms, "connectionId", json_str(connection_id));
    push_member(&mut ms, "db", json_uint(database as u64));
    push_member(&mut ms, "command", json_str(command));
    push_member(&mut ms, "skipSafetyCheck", JsonValue::Bool(skip_safety_check));
    WebCall { path: owned("/api/redis/execute-command"), body: json_object(ms) }
}

/// The name a collection list entry gives: the entry itself when it is a string, its
/// `name` string otherwise.
pub open spec fn collection_name(v: JsonModel) -> Option<Seq<char>> {
    match v {
        JsonModel::Str(s) => Some(s),
        JsonModel::Object(ms) => match member_of(ms, "name"@) {
            Some(JsonModel::Str(s)) => Some(s),
            _ => None,
        },
        _ => None,
    }
}

/// The names of the entries that give one, in order.
pub open spec fn collection_names(vs: Seq<JsonModel>) -> Seq<Seq<char>>
    decreases vs.len(),
{
    if vs.len() == 0 {
        Seq::empty()
    } else {
        match collection_name(vs.last()) {
            Some(n) => collection_names(vs.drop_last()).push(n),
            None => collection_names(vs.drop_last()),
        }
    }
}

/// The collections DBX Web listed, as tables of type `COLLECTION`.
pub fn mongo_collection_tables(values: &Vec<JsonValue>) -> (r: Vec<TableInfo>)
    ensures
        r@.map_values(|t: TableInfo| t.name@) == collection_names(doc_views(values@)),
        forall|i: int|
            0 <= i < r@.len() ==> (#[trigger] r@[i]).table_type@ == "COLLECTION"@ && r@[i].comment is None,
{
    let ghost dv = doc_views(values@);
    let mut out: Vec<TableInfo> = Vec::new();
    let mut i: usize = 0;
    assert(dv.subrange(0, 0) =~= Seq::<JsonModel>::empty());
    assert(out@.map_values(|t: TableInfo| t.name@) =~= Seq::<Seq<char>>::empty());
    while i < values.len()
        invariant
            i <= values.len(),
            dv == doc_views(values@),
            out@.map_values(|t: TableInfo| t.name@) == collection_names(dv.subrange(0, i as int)),
            forall|t: int| 0 <= t < out@.len() ==> (#[trigger] out@[t]).table_type@ == "COLLECTION"@ && out@[t].comment is None,
        decreases values.len() - i,
    {
        let ghost before = out@;
        assert(dv.subrange(0, i + 1).drop_last() =~= dv.subrange(0, i as int));
        assert(dv.subrange(0, i + 1).last() == values@[i as int]@);
        let name: Option<String> = match &values[i] {
            JsonValue::String(s) => Some(owned(s.as_str())),
            JsonValue::Object(members) => {
                let key = owned("name");
                match member_lookup(members, &key) {
                    Some(JsonValue::String(s)) => Some(owned(s.as_str())),
                    _ => None,
                }
            },
            _ => None,
        };
        if let Some(n) = name {
            let ghost nv = n@;
            out.push(TableInfo { name: n, table_type: owned("COLLECTION"), comment: None });
            assert(out@.map_values(|t: TableInfo| t.name@) =~= before.map_values(|t: TableInfo| t.name@).push(nv));
        }
        i = i + 1;
    }
    assert(dv.subrange(0, dv.len() as int) =~= dv);
    out
}

/// Whether DBX Web can run an agent tool on a connection: only `execute_query`, and
/// not for MongoDB.
pub fn web_agent_check(tool_name: &str, db_type: DatabaseType) -> (r: Result<(), String>)
    ensures
        tool_name@ != "execute_query"@ ==> (r matches Err(e) && e@ == "Unsupported DBX Web agent tool: "@ + tool_name@),
        tool_name@ == "execute_query"@ && db_type == DatabaseType::MongoDb ==> (r matches Err(e) && e@
            == "MongoDB shell commands in DBX Web mode are not implemented by the Rust MCP yet."@),
        tool_name@ == "execute_query"@ && db_type != DatabaseType::MongoDb ==> r is Ok,
{
    if !crate::text::str_eq(tool_name, "execute_query") {
        let mut m = owned("Unsupported DBX Web agent tool: ");
        push_str(&mut m, tool_name);
        return Err(m);
    }
    if db_type == DatabaseType::MongoDb {
        return Err(owned("MongoDB shell commands in DBX Web mode are not implemented by the Rust MCP yet."));
    }
    Ok(())
}

/// The SQL text and row limit of `execute_query` arguments: `sql` must be a string;
/// `limit` is read as an unsigned integer, 100 when it is not one.
pub fn agent_query_arguments(arguments: &JsonValue) -> (r: Result<(String, u64), String>)
    ensures
        match arguments@ {
            JsonModel::Object(ms) => match member_of(ms, "sql"@) {
                Some(JsonModel::Str(sql)) => r matches Ok((s, n)) && s@ == sql && n == match crate::elasticsearch::spec_as_u64(
                    member_of(ms, "limit"@),
                ) {
                    Some(v) => v,
                    None => 100,
                },
                _ => r matches Err(e) && e@ == "Missing SQL query"@,
            },
            _ => r matches Err(e) && e@ == "Missing SQL query"@,
        },
{
    match arguments {
        JsonValue::Object(members) => {
            let sql_key = owned("sql");
            let sql = match member_lookup(members, &sql_key) {
                Some(JsonValue::String(s)) => owned(s.as_str()),
                _ => return Err(owned("Missing SQL query")),
            };
            let limit_key = owned("limit");
            let limit = match crate::elasticsearch::as_u64_exec(member_lookup(members, &limit_key)) {
                Some(n) => n,
                None => 100,
            };
            Ok((sql, limit))
        },
        _ => Err(owned("Missing SQL query")),
    }
}

/// The arguments the `dbx_execute_query` tool hands to `execute_query`.
pub fn execute_query_arguments(sql: &str) -> (r: JsonValue)
    ensures
        r@ == JsonModel::Object(
            Seq::empty()
                .push(("sql"@, JsonModel::Str(sql@)))
                .push(("limit"@, int_model(100))),
        ),
{
    let mut ms: Vec<(String, JsonValue)> = Vec::new();
    assert(members_view(ms@) =~= Seq::<(Seq<char>, JsonModel)>::empty());
    push_member(&mut ms, "sql", json_str(sql));
    push_member(&mut ms, "limit", json_int(100));
    json_object(ms)
}

/// The result of an agent tool call.
#[derive(Debug)]
pub struct AgentToolResult {
    pub tool_call_id: String,
    pub tool_name: String,
    pub content: String,
    pub is_error: bool,
}

/// The tool result DBX Web mode reports: its ID is `mcp-` and the tool's name; an
/// error's content is `Error: ` and the error.
pub fn web_tool_result(tool_name: &str, result: Result<String, String>) -> (r: AgentToolResult)
    ensures
        r.tool_call_id@ == "mcp-"@ + tool_name@,
        r.tool_name@ == tool_name@,
        r.is_error == result is Err,
        match result {
            Ok(c) => r.content@ == c@,
            Err(e) => r.content@ == "Error: "@ + e@,
        },
{
    let mut id = owned("mcp-");
    push_str(&mut id, tool_name);
    match result {
        Ok(c) => AgentToolResult { tool_call_id: id, tool_name: owned(tool_name), content: c, is_error: false },
        Err(e) => {
            let mut c = owned("Error: ");
            push_str(&mut c, e.as_str());
            AgentToolResult { tool_call_id: id, tool_name: owned(tool_name), content: c, is_error: true }
        },
    }
}

/// `s` without every leading repetition of `p`.
pub open spec fn strip_prefixes(s: Seq<char>, p: Seq<char>) -> Seq<char>
    decreases s.len(),
{
    if p.len() > 0 && starts_with(s, p) {
        strip_prefixes(s.subrange(p.len() as int, s.len() as int), p)
    } else {
        s
    }
}

/// What a tool answers with an agent tool's result: its content, or for an error a
/// `DBX_TOOL_ERROR` with the content stripped of its leading `Error: ` prefixes.
pub fn agent_result(content: &str, is_error: bool) -> (r: ToolReply)
    ensures
        !is_error ==> (r matches ToolReply::Text(t) && t@ == content@),
        is_error ==> (r matches ToolReply::Error(e) && e.code@ == "DBX_TOOL_ERROR"@ && e.message@ == strip_prefixes(
            content@,
            "Error: "@,
        )),
{
    if !is_error {
        return ToolReply::Text(owned(content));
    }
    let v = chars_of(content);
    let p = chars_of("Error: ");
    let mut a: usize = 0;
    assert(v@.subrange(0, v@.len() as int) =~= v@);
    while p.len() <= v.len() - a && p.len() > 0 && prefix_at(&v, &p, a)
        invariant
            a <= v.len(),
            p@ == "Error: "@,
            strip_prefixes(v@, p@) == strip_prefixes(v@.subrange(a as int, v@.len() as int), p@),
        decreases v.len() - a,
    {
        let ghost rest = v@.subrange(a as int, v@.len() as int);
        assert(rest.subrange(0, p@.len() as int) =~= v@.subrange(a as int, a + p@.len()));
        assert(rest.subrange(p@.len() as int, rest.len() as int) =~= v@.subrange(a + p@.len(), v@.len() as int));
        a = a + p.len();
    }
    proof {
        let rest = v@.subrange(a as int, v@.len() as int);
        if p@.len() > 0 && starts_with(rest, p@) {
            assert(rest.subrange(0, p@.len() as int) =~= v@.subrange(a as int, a + p@.len()));
        }
    }
    let message = string_of(&v.as_slice()[a..v.len()]);
    ToolReply::Error(ToolError::new("DBX_TOOL_ERROR", message))
}

fn prefix_at(v: &Vec<char>, p: &Vec<char>, a: usize) -> (r: bool)
    requires
        a + p.len() <= v.len(),
    ensures
        r == (v@.subrange(a as int, a + p@.len()) == p@),
{
    let mut k: usize = 0;
    while k < p.len()
        invariant
            k <= p.len(),
            a + p.len() <= v.len(),
            forall|t: int| 0 <= t < k ==> v@[a + t] == p@[t],
        decreases p.len() - k,
    {
        if v[a + k] != p[k] {
            assert(v@.subrange(a as int, a + p@.len())[k as int] != p@[k as int]);
            return false;
        }
        k = k + 1;
    }
    assert(v@.subrange(a as int, a + p@.len()) =~= p@);
    true
}

/// How a Redis command's safety is named.
pub open spec fn safety_label(s: RedisCommandSafety) -> Seq<char> {
    match s {
        RedisCommandSafety::Allowed => "allowed"@,
        RedisCommandSafety::Write => "write"@,
        RedisCommandSafety::Blocked => "blocked"@,
    }
}

/// The answer to a Redis command: the command, its safety, then its value (a string
/// as it is, anything else as pretty-printed JSON).
pub fn format_redis_result(command: &str, safety: RedisCommandSafety, value: &JsonValue) -> (r: String)
    ensures
        r@ == "Command: "@ + command@ + "\nSafety: "@ + safety_label(safety) + "\n\n"@ + match value@ {
            JsonModel::Str(s) => s,
            v => json_pretty_text(v),
        },
{
    let mut out = owned("Command: ");
    push_str(&mut out, command);
    push_str(&mut out, "\nSafety: ");
    push_str(
        &mut out,
        match safety {
            RedisCommandSafety::Allowed => "allowed",
            RedisCommandSafety::Write => "write",
            RedisCommandSafety::Blocked => "blocked",
        },
    );
    push_str(&mut out, "\n\n");
    match value {
        JsonValue::String(s) => push_str(&mut out, s.as_str()),
        _ => push_str(&mut out, json_to_pretty_string(value).as_str()),
    }
    out
}

/// The body that asks the desktop app to open a table.
pub fn open_table_body(connection: &ConnectionConfig, table: &str, database: &str, schema: &Option<String>) -> (r:
    JsonValue)
    ensures
        r@ == JsonModel::Object(
            Seq::empty()
                .push(("connection_id"@, JsonModel::Str(connection.id@)))
                .push(("connection_name"@, JsonModel::Str(connection.name@)))
                .push(("table"@, JsonModel::Str(table@)))
                .push(("database"@, JsonModel::Str(database@)))
                .push(("schema"@, opt_str_model(crate::mcp::connections::opt_view(*schema)))),
        ),
{
    let mut ms: Vec<(String, JsonValue)> = Vec::new();
    assert(members_view(ms@) =~= Seq::<(Seq<char>, JsonModel)>::empty());
    push_member(&mut ms, "connection_id", json_str(connection.id.as_str()));
    push_member(&mut ms, "connection_name", json_str(connection.name.as_str()));
    push_member(&mut ms, "table", json_str(table));
    push_member(&mut ms, "database", json_str(database));
    push_member(&mut ms, "schema", json_opt_str(schema));
    json_object(ms)
}

/// The body that asks the desktop app to run a statement and show its result, with
/// the session's permissions.
pub fn execute_and_show_body(
    connection: &ConnectionConfig,
    sql: &str,
    database: &str,
    permissions: AgentSqlPermissions,
) -> (r: JsonValue)
    ensures
        r@ == JsonModel::Object(
            Seq::empty()
                .push(("connection_id"@, JsonModel::Str(connection.id@)))
                .push(("connection_name"@, JsonModel::Str(connection.name@)))
                .push(("sql"@, JsonModel::Str(sql@)))
                .push(("database"@, JsonModel::Str(database@)))
                .push(("allow_writes"@, JsonModel::Bool(permissions.allow_writes)))
                .push(("allow_dangerous"@, JsonModel::Bool(permissions.allow_dangerous))),
        ),
{
    let mut ms: Vec<(String, JsonValue)> = Vec::new();
    assert(members_view(ms@) =~= Seq::<(Seq<char>, JsonModel)>::empty());
    push_member(&mut ms, "connection_id", json_str(connection.id.as_str()));
    push_member(&mut ms, "connection_name", json_str(connection.name.as_str()));
    push_member(&mut ms, "sql", json_str(sql));
    push_member(&mut ms, "database", json_str(database));
    push_member(&mut ms, "allow_writes", JsonValue::Bool(permissions.allow_writes));
    push_member(&mut ms, "allow_dangerous", JsonValue::Bool(permissions.allow_dangerous));
    json_object(ms)
}

/// The desktop app's bridge address: the local port it wrote down (trimmed) and the
/// path.
pub fn bridge_url(port_file_text: &str, path: &str) -> (r: String)
    ensures
        r@ == "http://127.0.0.1:"@ + trim(port_file_text@) + path@,
{
    let mut u = owned("http://127.0.0.1:");
    push_str(&mut u, trim_string(port_file_text).as_str());
    push_str(&mut u, path);
    u
}


/// What the query tool runs once its checks pass, in the database it picked.
pub enum QueryPlan {
    /// A MongoDB command, read and checked.
    Mongo { database: String, command: MongoCommand },
    /// The agent's query tool with these arguments.
    Agent { database: String, arguments: JsonValue },
}

/// The checks of the query tool, in order: a Redis connection is refused; the
/// database is the one requested, else the scope's, else the connection's; on a
/// MongoDB connection the text is read as a shell command and checked against the
/// permissions (`is_production` tells whether that database is a production one);
/// anything else goes to the agent's query tool with a limit of 100 rows.
pub fn query_tool_plan(
    connection: &ConnectionConfig,
    requested_database: Option<String>,
    scope: &McpScope,
    sql: &str,
    permissions: AgentSqlPermissions,
    is_production: bool,
) -> (r: Result<QueryPlan, ToolError>)
    ensures
        ({
            let database = spec_resolve_database(
                crate::mcp::connections::opt_view(requested_database),
                *scope,
                *connection,
            );
            if connection.db_type == DatabaseType::Redis {
                r matches Err(t) && t.code@ == "REDIS_COMMAND_REQUIRED"@ && t.message@
                    == "Redis connections do not accept SQL through dbx_execute_query. Use dbx_execute_redis_command."@
            } else if connection.db_type == DatabaseType::MongoDb {
                match spec_parse(sql@) {
                    Err(e) => r matches Err(t) && t.code@ == "QUERY_ERROR"@ && t.message@ == e
                        + crate::mcp::gates::mongo_usage_hint(),
                    Ok(c) => match spec_mongo_gate(c, permissions, is_production) {
                        Some((code, msg)) => r matches Err(t) && t.code@ == code && t.message@ == msg,
                        None => r matches Ok(QueryPlan::Mongo { database: d, command }) && d@ == database
                            && command@ == c,
                    },
                }
            } else {
                r matches Ok(QueryPlan::Agent { database: d, arguments }) && d@ == database && arguments@
                    == JsonModel::Object(
                    Seq::empty().push(("sql"@, JsonModel::Str(sql@))).push(("limit"@, int_model(100))),
                )
            }
        }),
{
    if let Err(t) = sql_connection_gate(connection) {
        return Err(t);
    }
    let database = resolve_database(requested_database, scope, connection);
    if connection.db_type == DatabaseType::MongoDb {
        return match validate_mongo_command(sql, permissions, is_production) {
            Ok(command) => Ok(QueryPlan::Mongo { database, command }),
            Err(t) => Err(t),
        };
    }
    Ok(QueryPlan::Agent { database, arguments: execute_query_arguments(sql) })
}

} // verus!

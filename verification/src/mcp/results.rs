//! Query results and MongoDB documents as Markdown tables.
use vstd::prelude::*;
use crate::clickhouse::QueryResult;
use crate::mcp::answers::ColumnInfo;
use crate::json::{json_compact_text, json_to_compact_string, JsonModel, JsonValue};
use crate::mcp::markdown::{cells, escaped_markdown_table, row_views, table_head, table_rows};
use crate::ordered::{insert_sorted, sorted_distinct};
use crate::text::{chars_of, dec, push_dec, push_str, split_chars, split_on, starts_with, str_eq, string_of, trim, trim_bounds, views};
use crate::mcp::markdown::{cell_text, escape_markdown_cell};

verus! {

/// How a JSON value shows in a result cell: `NULL`, a string's text, compact JSON for
/// arrays and objects, and the printed value otherwise.
pub open spec fn spec_query_cell(v: JsonModel) -> Seq<char> {
    match v {
        JsonModel::Null => "NULL"@,
        JsonModel::Str(s) => s,
        JsonModel::Array(_) => json_compact_text(v),
        JsonModel::Object(_) => json_compact_text(v),
        JsonModel::Bool(b) => if b {
            "true"@
        } else {
            "false"@
        },
        JsonModel::Number(t, _) => t,
    }
}

fn owned(s: &str) -> (r: String)
    ensures
        r@ == s@,
{
    let mut out = String::new();
    push_str(&mut out, s);
    out
}

pub fn format_query_cell(value: &JsonValue) -> (r: String)
    ensures
        r@ == spec_query_cell(value@),
{
    match value {
        JsonValue::Null => owned("NULL"),
        JsonValue::String(s) => s.clone(),
        JsonValue::Array(_) | JsonValue::Object(_) => json_to_compact_string(value),
        JsonValue::Bool(b) => owned(if *b { "true" } else { "false" }),
        JsonValue::Number(n) => n.text.clone(),
    }
}

pub open spec fn json_views(row: Seq<JsonValue>) -> Seq<JsonModel> {
    row.map_values(|v: JsonValue| v@)
}

pub open spec fn cell_row(row: Seq<JsonModel>) -> Seq<Seq<char>> {
    row.map_values(|v: JsonModel| spec_query_cell(v))
}

fn cell_row_exec(row: &Vec<JsonValue>) -> (r: Vec<String>)
    ensures
        views(r@) == cell_row(json_views(row@)),
{
    let mut out: Vec<String> = Vec::new();
    let mut i: usize = 0;
    while i < row.len()
        invariant
            i <= row.len(),
            views(out@) == cell_row(json_views(row@.subrange(0, i as int))),
        decreases row.len() - i,
    {
        let ghost before = out@;
        let c = format_query_cell(&row[i]);
        out.push(c);
        proof {
            assert(views(out@) =~= views(before).push(c@));
            assert(cell_row(json_views(row@.subrange(0, i + 1))) =~= cell_row(json_views(row@.subrange(0, i as int))).push(
                spec_query_cell(row@[i as int]@),
            ));
        }
        i = i + 1;
    }
    assert(row@.subrange(0, row@.len() as int) =~= row@);
    out
}

/// The cells of the first `n` rows.
pub open spec fn result_cells(rows: Seq<Vec<JsonValue>>, n: int) -> Seq<Seq<Seq<char>>> {
    Seq::new(
        if rows.len() < n {
            rows.len()
        } else {
            n as nat
        },
        |i: int| cell_row(json_views(rows[i]@)),
    )
}

pub open spec fn spec_query_result_text(result: QueryResult, max_rows: int) -> Seq<char> {
    if result.columns@.len() == 0 {
        "Query executed. "@ + dec(result.affected_rows as nat) + " row(s) affected."@
    } else {
        let rows = result_cells(result.rows@, max_rows);
        table_head(cells(views(result.columns@), true), result.columns@.len()) + table_rows(rows, true) + "\n\n"@
            + dec(rows.len()) + " row(s)"@
    }
}

/// A query result as the answer text: a Markdown table of at most `max_rows` rows and
/// the count of rows shown, or the affected-row count for a statement without columns.
pub fn format_query_result(result: &QueryResult, max_rows: usize) -> (r: String)
    ensures
        r@ == spec_query_result_text(*result, max_rows as int),
{
    if result.columns.len() == 0 {
        let mut out = owned("Query executed. ");
        push_dec(&mut out, result.affected_rows);
        push_str(&mut out, " row(s) affected.");
        return out;
    }
    let n = if result.rows.len() < max_rows {
        result.rows.len()
    } else {
        max_rows
    };
    let mut rows: Vec<Vec<String>> = Vec::new();
    let mut i: usize = 0;
    while i < n
        invariant
            i <= n,
            n <= result.rows.len(),
            row_views(rows@) == Seq::new(i as nat, |k: int| cell_row(json_views(result.rows@[k]@))),
        decreases n - i,
    {
        let ghost before = rows@;
        let row = cell_row_exec(&result.rows[i]);
        rows.push(row);
        proof {
            assert(row_views(rows@) =~= row_views(before).push(views(row@)));
            assert(Seq::new((i + 1) as nat, |k: int| cell_row(json_views(result.rows@[k]@))) =~= Seq::new(
                i as nat,
                |k: int| cell_row(json_views(result.rows@[k]@)),
            ).push(cell_row(json_views(result.rows@[i as int]@))));
        }
        i = i + 1;
    }
    assert(row_views(rows@) =~= result_cells(result.rows@, max_rows as int));
    let mut out = escaped_markdown_table(&result.columns, &rows);
    push_str(&mut out, "\n\n");
    push_dec(&mut out, n as u64);
    push_str(&mut out, " row(s)");
    out
}

/// Whether a document is an object with a member named `k`.
pub open spec fn has_key(d: JsonModel, k: Seq<char>) -> bool {
    match d {
        JsonModel::Object(ms) => exists|j: int| 0 <= j < ms.len() && (#[trigger] ms[j]).0 == k,
        _ => false,
    }
}

/// The header names of a document table: every member name of the object documents,
/// and `value` when some document is not an object.
pub open spec fn header_set(docs: Seq<JsonModel>) -> Set<Seq<char>> {
    Set::new(
        |k: Seq<char>|
            (exists|i: int| 0 <= i < docs.len() && has_key(#[trigger] docs[i], k)) || (k == "value"@ && exists|i: int|
                0 <= i < docs.len() && !((#[trigger] docs[i]) is Object)),
    )
}

/// The value of the first member named `k`.
pub open spec fn member_of(ms: Seq<(Seq<char>, JsonModel)>, k: Seq<char>) -> Option<JsonModel>
    decreases ms.len(),
{
    if ms.len() == 0 {
        None
    } else if ms[0].0 == k {
        Some(ms[0].1)
    } else {
        member_of(ms.drop_first(), k)
    }
}

/// The cell of a document under a header: the member's value, the document itself
/// under `value` when it has no such member, `NULL` otherwise.
pub open spec fn document_cell(d: JsonModel, h: Seq<char>) -> Seq<char> {
    match (match d {
        JsonModel::Object(ms) => member_of(ms, h),
        _ => None,
    }) {
        Some(v) => spec_query_cell(v),
        None => if h == "value"@ {
            spec_query_cell(d)
        } else {
            "NULL"@
        },
    }
}

pub open spec fn document_rows(docs: Seq<JsonModel>, headers: Seq<Seq<char>>) -> Seq<Seq<Seq<char>>> {
    Seq::new(docs.len(), |i: int| Seq::new(headers.len(), |j: int| document_cell(docs[i], headers[j])))
}

pub open spec fn documents_text(docs: Seq<JsonModel>, headers: Seq<Seq<char>>) -> Seq<char> {
    table_head(cells(headers, true), headers.len()) + table_rows(document_rows(docs, headers), true) + "\n\n"@ + dec(
        docs.len(),
    ) + " row(s)"@
}

fn text_is(s: &String, lit: &str) -> (r: bool)
    ensures
        r == (s@ == lit@),
{
    str_eq(s.as_str(), lit)
}

pub(crate) fn member_lookup<'a>(members: &'a Vec<(String, JsonValue)>, key: &String) -> (r: Option<&'a JsonValue>)
    ensures
        match r {
            Some(v) => member_of(JsonValue::Object(*members)@->Object_0, key@) == Some(v@),
            None => member_of(JsonValue::Object(*members)@->Object_0, key@) is None,
        },
{
    let ghost m = JsonValue::Object(*members)@->Object_0;
    let mut i: usize = 0;
    assert(m.subrange(0, m.len() as int) =~= m);
    while i < members.len()
        invariant
            i <= members@.len(),
            m == JsonValue::Object(*members)@->Object_0,
            m.len() == members@.len(),
            member_of(m, key@) == member_of(m.subrange(i as int, m.len() as int), key@),
        decreases members.len() - i,
    {
        let ghost t = m.subrange(i as int, m.len() as int);
        assert(t[0] == m[i as int]);
        assert(t.drop_first() =~= m.subrange(i + 1, m.len() as int));
        if members[i].0 == *key {
            return Some(&members[i].1);
        }
        i = i + 1;
    }
    None
}

fn document_cell_exec(document: &JsonValue, header: &String) -> (r: String)
    ensures
        r@ == document_cell(document@, header@),
{
    let found = match document {
        JsonValue::Object(members) => member_lookup(members, header),
        _ => None,
    };
    match found {
        Some(v) => format_query_cell(v),
        None => if text_is(header, "value") {
            format_query_cell(document)
        } else {
            owned("NULL")
        },
    }
}

/// The names of the first `n` members.
pub open spec fn keys_upto(m: Seq<(Seq<char>, JsonModel)>, n: int) -> Set<Seq<char>> {
    Set::new(|k: Seq<char>| exists|t: int| 0 <= t < n && (#[trigger] m[t]).0 == k)
}

proof fn lemma_keys_upto_step(m: Seq<(Seq<char>, JsonModel)>, n: int)
    requires
        0 <= n < m.len(),
    ensures
        keys_upto(m, n + 1) == keys_upto(m, n).insert(m[n].0),
{
    assert forall|k: Seq<char>| #[trigger] keys_upto(m, n + 1).contains(k) == keys_upto(m, n).insert(m[n].0).contains(
        k,
    ) by {
        if keys_upto(m, n + 1).contains(k) {
            let t = choose|t: int| 0 <= t < n + 1 && (#[trigger] m[t]).0 == k;
            if t < n {
                assert(keys_upto(m, n).contains(k));
            }
        }
        if keys_upto(m, n).contains(k) {
            let t = choose|t: int| 0 <= t < n && (#[trigger] m[t]).0 == k;
            assert(0 <= t < n + 1 && m[t].0 == k);
        }
        if k == m[n].0 {
            assert(0 <= n < n + 1 && m[n].0 == k);
        }
    }
    assert(keys_upto(m, n + 1) =~= keys_upto(m, n).insert(m[n].0));
}

proof fn lemma_header_set_one(d: JsonModel)
    ensures
        header_set(seq![d]) == (match d {
            JsonModel::Object(m) => keys_upto(m, m.len() as int),
            _ => set!["value"@],
        }),
{
    let one = seq![d];
    assert(one[0] == d);
    match d {
        JsonModel::Object(m) => {
            assert forall|k: Seq<char>| #[trigger] header_set(one).contains(k) == keys_upto(m, m.len() as int).contains(
                k,
            ) by {
                if header_set(one).contains(k) {
                    if exists|i: int| 0 <= i < 1 && has_key(#[trigger] one[i], k) {
                        let i = choose|i: int| 0 <= i < 1 && has_key(#[trigger] one[i], k);
                        assert(i == 0);
                    }
                }
                if keys_upto(m, m.len() as int).contains(k) {
                    assert(has_key(one[0], k));
                }
            }
            assert(header_set(one) =~= keys_upto(m, m.len() as int));
        },
        _ => {
            assert forall|k: Seq<char>| #[trigger] header_set(one).contains(k) == set!["value"@].contains(k) by {
                if header_set(one).contains(k) {
                    if exists|i: int| 0 <= i < 1 && has_key(#[trigger] one[i], k) {
                        let i = choose|i: int| 0 <= i < 1 && has_key(#[trigger] one[i], k);
                        assert(i == 0);
                    }
                }
                if k == "value"@ {
                    assert(!(one[0] is Object));
                }
            }
            assert(header_set(one) =~= set!["value"@]);
        },
    }
}

proof fn lemma_header_set_push(a: Seq<JsonModel>, d: JsonModel)
    ensures
        header_set(a.push(d)) == header_set(a) + header_set(seq![d]),
{
    let b = a.push(d);
    let one = seq![d];
    assert forall|k: Seq<char>| #[trigger] header_set(b).contains(k) == (header_set(a) + header_set(one)).contains(k) by {
        if exists|t: int| 0 <= t < b.len() && has_key(#[trigger] b[t], k) {
            let t = choose|t: int| 0 <= t < b.len() && has_key(#[trigger] b[t], k);
            if t < a.len() {
                assert(a[t] == b[t]);
            } else {
                assert(one[0] == b[t]);
            }
        }
        if exists|t: int| 0 <= t < b.len() && !((#[trigger] b[t]) is Object) {
            let t = choose|t: int| 0 <= t < b.len() && !((#[trigger] b[t]) is Object);
            if t < a.len() {
                assert(a[t] == b[t]);
            } else {
                assert(one[0] == b[t]);
            }
        }
        if exists|t: int| 0 <= t < a.len() && has_key(#[trigger] a[t], k) {
            let t = choose|t: int| 0 <= t < a.len() && has_key(#[trigger] a[t], k);
            assert(b[t] == a[t]);
        }
        if exists|t: int| 0 <= t < a.len() && !((#[trigger] a[t]) is Object) {
            let t = choose|t: int| 0 <= t < a.len() && !((#[trigger] a[t]) is Object);
            assert(b[t] == a[t]);
        }
        if exists|t: int| 0 <= t < 1 && has_key(#[trigger] one[t], k) {
            let t = choose|t: int| 0 <= t < 1 && has_key(#[trigger] one[t], k);
            assert(b[a.len() as int] == one[t]);
        }
        if exists|t: int| 0 <= t < 1 && !((#[trigger] one[t]) is Object) {
            let t = choose|t: int| 0 <= t < 1 && !((#[trigger] one[t]) is Object);
            assert(b[a.len() as int] == one[t]);
        }
    }
    assert(header_set(b) =~= header_set(a) + header_set(one));
}

/// Adds a document's header names to the sorted list.
fn add_document_headers(headers: &mut Vec<String>, document: &JsonValue)
    requires
        sorted_distinct(views(old(headers)@)),
    ensures
        sorted_distinct(views(final(headers)@)),
        views(final(headers)@).to_set() == views(old(headers)@).to_set() + header_set(seq![document@]),
{
    let ghost start = views(headers@).to_set();
    proof {
        lemma_header_set_one(document@);
    }
    match document {
        JsonValue::Object(members) => {
            let ghost m = document@->Object_0;
            let mut j: usize = 0;
            assert(keys_upto(m, 0) =~= Set::<Seq<char>>::empty());
            assert(start + keys_upto(m, 0) =~= start);
            while j < members.len()
                invariant
                    j <= members.len(),
                    *document == JsonValue::Object(*members),
                    m == JsonValue::Object(*members)@->Object_0,
                    m.len() == members@.len(),
                    sorted_distinct(views(headers@)),
                    views(headers@).to_set() == start + keys_upto(m, j as int),
                decreases members.len() - j,
            {
                insert_sorted(headers, &members[j].0);
                proof {
                    assert(m[j as int].0 == members@[j as int].0@);
                    lemma_keys_upto_step(m, j as int);
                    assert(views(headers@).to_set() =~= start + keys_upto(m, j + 1));
                }
                j = j + 1;
            }
        },
        _ => {
            let value = owned("value");
            insert_sorted(headers, &value);
            assert(views(headers@).to_set() =~= start + set!["value"@]);
        },
    }
}

pub open spec fn doc_views(docs: Seq<JsonValue>) -> Seq<JsonModel> {
    docs.map_values(|d: JsonValue| d@)
}

/// Documents as a Markdown table: one column per member name found (sorted, plus
/// `value` for documents that are not objects) and one row per document, with the
/// count of documents; `Query returned 0 rows.` for none.
pub fn format_mongo_documents(documents: &Vec<JsonValue>) -> (r: String)
    ensures
        documents@.len() == 0 ==> r@ == "Query returned 0 rows."@,
        documents@.len() > 0 ==> exists|headers: Seq<Seq<char>>|
            sorted_distinct(headers) && headers.to_set() == header_set(doc_views(documents@)) && r@ == documents_text(
                doc_views(documents@),
                headers,
            ),
{
    if documents.len() == 0 {
        return owned("Query returned 0 rows.");
    }
    let mut headers: Vec<String> = Vec::new();
    let mut i: usize = 0;
    assert(views(headers@).to_set() =~= header_set(doc_views(documents@.subrange(0, 0))));
    while i < documents.len()
        invariant
            i <= documents.len(),
            sorted_distinct(views(headers@)),
            views(headers@).to_set() == header_set(doc_views(documents@.subrange(0, i as int))),
        decreases documents.len() - i,
    {
        add_document_headers(&mut headers, &documents[i]);
        proof {
            let a = doc_views(documents@.subrange(0, i as int));
            let b = doc_views(documents@.subrange(0, i + 1));
            assert(b =~= a.push(documents@[i as int]@));
            lemma_header_set_push(a, documents@[i as int]@);
        }
        i = i + 1;
    }
    assert(documents@.subrange(0, documents@.len() as int) =~= documents@);
    let ghost hv = views(headers@);
    let ghost dv = doc_views(documents@);
    let mut rows: Vec<Vec<String>> = Vec::new();
    let mut d: usize = 0;
    while d < documents.len()
        invariant
            d <= documents.len(),
            hv == views(headers@),
            dv == doc_views(documents@),
            row_views(rows@) == document_rows(dv.subrange(0, d as int), hv),
        decreases documents.len() - d,
    {
        let mut row: Vec<String> = Vec::new();
        let mut h: usize = 0;
        while h < headers.len()
            invariant
                h <= headers.len(),
                d < documents.len(),
                hv == views(headers@),
                dv == doc_views(documents@),
                views(row@) == Seq::new(h as nat, |j: int| document_cell(dv[d as int], hv[j])),
            decreases headers.len() - h,
        {
            let ghost before = row@;
            let c = document_cell_exec(&documents[d], &headers[h]);
            row.push(c);
            proof {
                assert(views(row@) =~= views(before).push(c@));
                assert(Seq::new((h + 1) as nat, |j: int| document_cell(dv[d as int], hv[j])) =~= Seq::new(
                    h as nat,
                    |j: int| document_cell(dv[d as int], hv[j]),
                ).push(document_cell(dv[d as int], hv[h as int])));
            }
            h = h + 1;
        }
        let ghost before = rows@;
        rows.push(row);
        proof {
            assert(row_views(rows@) =~= row_views(before).push(views(row@)));
            assert(document_rows(dv.subrange(0, d + 1), hv) =~= document_rows(dv.subrange(0, d as int), hv).push(
                Seq::new(hv.len(), |j: int| document_cell(dv[d as int], hv[j])),
            ));
        }
        d = d + 1;
    }
    assert(dv.subrange(0, dv.len() as int) =~= dv);
    let mut out = escaped_markdown_table(&headers, &rows);
    push_str(&mut out, "\n\n");
    push_dec(&mut out, documents.len() as u64);
    push_str(&mut out, " row(s)");
    assert(out@ == documents_text(dv, hv));
    out
}


/// The text of a JSON value that `as_u64` reads: a non-negative integer.
pub open spec fn u64_text(v: Option<JsonModel>) -> Option<Seq<char>> {
    match v {
        Some(JsonModel::Number(t, true)) => if t.len() > 0 && t[0] == '-' {
            None
        } else {
            Some(t)
        },
        _ => None,
    }
}

/// The affected-row count of a write's JSON answer: `affected_rows`, or else
/// `affectedRows`, when it is a non-negative integer; zero otherwise.
pub open spec fn spec_affected_rows(value: JsonModel) -> Seq<char> {
    let found = match value {
        JsonModel::Object(ms) => match member_of(ms, "affected_rows"@) {
            Some(v) => Some(v),
            None => member_of(ms, "affectedRows"@),
        },
        _ => None,
    };
    match u64_text(found) {
        Some(t) => t,
        None => "0"@,
    }
}

pub(crate) fn u64_text_exec(v: Option<&JsonValue>) -> (r: Option<String>)
    ensures
        match r {
            Some(t) => u64_text(match v {
                Some(x) => Some(x@),
                None => None,
            }) == Some(t@),
            None => u64_text(match v {
                Some(x) => Some(x@),
                None => None,
            }) is None,
        },
{
    match v {
        Some(JsonValue::Number(n)) => {
            if !n.is_integer {
                return None;
            }
            let t = chars_of(n.text.as_str());
            if t.len() > 0 && t[0] == '-' {
                None
            } else {
                Some(n.text.clone())
            }
        },
        _ => None,
    }
}

/// The answer to a write: `Query executed. N row(s) affected.`
pub fn format_affected_rows(value: &JsonValue) -> (r: String)
    ensures
        r@ == "Query executed. "@ + spec_affected_rows(value@) + " row(s) affected."@,
{
    let found = match value {
        JsonValue::Object(members) => {
            let a = owned("affected_rows");
            match member_lookup(members, &a) {
                Some(v) => Some(v),
                None => {
                    let b = owned("affectedRows");
                    member_lookup(members, &b)
                },
            }
        },
        _ => None,
    };
    let mut out = owned("Query executed. ");
    match u64_text_exec(found) {
        Some(t) => push_str(&mut out, t.as_str()),
        None => push_str(&mut out, "0"),
    }
    push_str(&mut out, " row(s) affected.");
    out
}

/// A one-cell table under `header`, with the row count.
pub open spec fn single_value_table(header: Seq<char>, value: Seq<char>) -> Seq<char> {
    "| "@ + header + " |\n| --- |\n| "@ + value + " |\n\n1 row(s)"@
}

pub(crate) fn single_value(header: &str, value: &str) -> (r: String)
    ensures
        r@ == single_value_table(header@, value@),
{
    let mut out = owned("| ");
    push_str(&mut out, header);
    push_str(&mut out, " |\n| --- |\n| ");
    push_str(&mut out, value);
    push_str(&mut out, " |\n\n1 row(s)");
    out
}

/// The server version answer, with the version escaped for a cell.
pub fn format_version_table(version: &str) -> (r: String)
    ensures
        r@ == single_value_table("version"@, cell_text(version@, true)),
{
    single_value("version", escape_markdown_cell(version).as_str())
}

/// The count answer.
pub fn format_count_table(total: u64) -> (r: String)
    ensures
        r@ == single_value_table("count"@, dec(total as nat)),
{
    single_value("count", crate::text::u64_to_string(total).as_str())
}

/// The answer to an index creation: the index name, escaped for a cell.
pub fn format_index_name_table(name: &str) -> (r: String)
    ensures
        r@ == single_value_table("name"@, cell_text(name@, true)),
{
    single_value("name", escape_markdown_cell(name).as_str())
}

/// The statistics key a size metric reads: `size` for `dataSize`, the metric's own
/// name otherwise.
pub fn stats_metric_key(metric: &str) -> (r: String)
    ensures
        r@ == (if metric@ == "dataSize"@ {
            "size"@
        } else {
            metric@
        }),
{
    if str_eq(metric, "dataSize") {
        owned("size")
    } else {
        owned(metric)
    }
}

/// The answer to a size metric: the statistic's value under the metric's name (`NULL`
/// when the statistics lack it).
pub fn format_metric_table(metric: &str, stats: &JsonValue) -> (r: String)
    ensures
        r@ == single_value_table(
            metric@,
            match (match stats@ {
                JsonModel::Object(ms) => member_of(
                    ms,
                    if metric@ == "dataSize"@ {
                        "size"@
                    } else {
                        metric@
                    },
                ),
                _ => None,
            }) {
                Some(v) => spec_query_cell(v),
                None => "NULL"@,
            },
        ),
{
    let key = stats_metric_key(metric);
    let found = match stats {
        JsonValue::Object(members) => member_lookup(members, &key),
        _ => None,
    };
    let cell = match found {
        Some(v) => format_query_cell(v),
        None => owned("NULL"),
    };
    single_value(metric, cell.as_str())
}

/// A JSON value's type name as schema inference reports it.
pub open spec fn spec_json_type_name(v: JsonModel) -> Seq<char> {
    match v {
        JsonModel::Null => "null"@,
        JsonModel::Bool(_) => "boolean"@,
        JsonModel::Number(_, is_integer) => if is_integer {
            "integer"@
        } else {
            "number"@
        },
        JsonModel::Str(_) => "string"@,
        JsonModel::Array(_) => "array"@,
        JsonModel::Object(_) => "object"@,
    }
}

pub fn json_type_name(value: &JsonValue) -> (r: &'static str)
    ensures
        r@ == spec_json_type_name(value@),
{
    match value {
        JsonValue::Null => "null",
        JsonValue::Bool(_) => "boolean",
        JsonValue::Number(n) => if n.is_integer {
            "integer"
        } else {
            "number"
        },
        JsonValue::String(_) => "string",
        JsonValue::Array(_) => "array",
        JsonValue::Object(_) => "object",
    }
}

/// Index of the first piece whose trimmed text starts with `prefix`, or the count.
pub open spec fn first_prefixed(parts: Seq<Seq<char>>, prefix: Seq<char>, i: int) -> int
    decreases parts.len() - i,
{
    if i < 0 || i >= parts.len() {
        parts.len() as int
    } else if starts_with(trim(parts[i]), prefix) {
        i
    } else {
        first_prefixed(parts, prefix, i + 1)
    }
}

/// The DBX session value of a `Set-Cookie` header: the first `;`-separated part
/// that (trimmed) starts with `dbx_session=`, without that prefix, when not empty.
pub open spec fn spec_session_cookie(header: Seq<char>) -> Option<Seq<char>> {
    let parts = split_on(header, ';');
    let i = first_prefixed(parts, "dbx_session="@, 0);
    if i >= parts.len() {
        None
    } else {
        let t = trim(parts[i]);
        let v = t.subrange(12, t.len() as int);
        if v.len() > 0 {
            Some(v)
        } else {
            None
        }
    }
}

pub fn extract_session_cookie(header: &str) -> (r: Option<String>)
    ensures
        match r {
            Some(v) => spec_session_cookie(header@) == Some(v@),
            None => spec_session_cookie(header@) is None,
        },
{
    let h = chars_of(header);
    let parts = split_chars(&h, ';');
    let ghost pv = parts@.map_values(|p: Vec<char>| p@);
    let prefix = chars_of("dbx_session=");
    proof {
        reveal_strlit("dbx_session=");
    }
    let mut i: usize = 0;
    while i < parts.len()
        invariant
            i <= parts.len(),
            pv == parts@.map_values(|p: Vec<char>| p@),
            pv == split_on(h@, ';'),
            h@ == header@,
            prefix@ == "dbx_session="@,
            first_prefixed(pv, "dbx_session="@, 0) == first_prefixed(pv, "dbx_session="@, i as int),
        decreases parts.len() - i,
    {
        proof {
            reveal_strlit("dbx_session=");
        }
        let (a, b) = trim_bounds(&parts[i]);
        let t: &[char] = &parts[i].as_slice()[a..b];
        assert(pv[i as int] == parts@[i as int]@);
        assert(t@ == trim(pv[i as int]));
        if crate::text::chars_starts_with(t, prefix.as_slice()) {
            let v = string_of(&t[12..t.len()]);
            if v.as_str().unicode_len() > 0 {
                return Some(v);
            } else {
                return None;
            }
        }
        i = i + 1;
    }
    None
}


/// Every member name of the object documents.
pub open spec fn key_set(docs: Seq<JsonModel>) -> Set<Seq<char>> {
    Set::new(|k: Seq<char>| exists|i: int| 0 <= i < docs.len() && has_key(#[trigger] docs[i], k))
}

/// The type name of the first member named `k` among the object documents, taken in
/// order.
pub open spec fn first_type(docs: Seq<JsonModel>, k: Seq<char>) -> Option<Seq<char>>
    decreases docs.len(),
{
    if docs.len() == 0 {
        None
    } else {
        match (match docs[0] {
            JsonModel::Object(ms) => member_of(ms, k),
            _ => None,
        }) {
            Some(v) => Some(spec_json_type_name(v)),
            None => first_type(docs.drop_first(), k),
        }
    }
}

proof fn lemma_member_of_found(ms: Seq<(Seq<char>, JsonModel)>, k: Seq<char>, j: int)
    requires
        0 <= j < ms.len(),
        ms[j].0 == k,
    ensures
        member_of(ms, k) is Some,
    decreases ms.len(),
{
    if ms[0].0 != k {
        assert(ms.drop_first()[j - 1] == ms[j]);
        lemma_member_of_found(ms.drop_first(), k, j - 1);
    }
}

proof fn lemma_first_type_found(docs: Seq<JsonModel>, k: Seq<char>, i: int)
    requires
        0 <= i < docs.len(),
        has_key(docs[i], k),
    ensures
        first_type(docs, k) is Some,
    decreases docs.len(),
{
    let m = match docs[0] {
        JsonModel::Object(ms) => member_of(ms, k),
        _ => None,
    };
    if i == 0 {
        match docs[0] {
            JsonModel::Object(ms) => {
                let j = choose|j: int| 0 <= j < ms.len() && (#[trigger] ms[j]).0 == k;
                lemma_member_of_found(ms, k, j);
            },
            _ => {},
        }
    } else if m is None {
        assert(docs.drop_first()[i - 1] == docs[i]);
        lemma_first_type_found(docs.drop_first(), k, i - 1);
    }
}

proof fn lemma_key_set_push(a: Seq<JsonModel>, d: JsonModel)
    ensures
        key_set(a.push(d)) == key_set(a) + key_set(seq![d]),
{
    let b = a.push(d);
    let one = seq![d];
    assert forall|k: Seq<char>| #[trigger] key_set(b).contains(k) == (key_set(a) + key_set(one)).contains(k) by {
        if exists|t: int| 0 <= t < b.len() && has_key(#[trigger] b[t], k) {
            let t = choose|t: int| 0 <= t < b.len() && has_key(#[trigger] b[t], k);
            if t < a.len() {
                assert(a[t] == b[t]);
            } else {
                assert(one[0] == b[t]);
            }
        }
        if exists|t: int| 0 <= t < a.len() && has_key(#[trigger] a[t], k) {
            let t = choose|t: int| 0 <= t < a.len() && has_key(#[trigger] a[t], k);
            assert(b[t] == a[t]);
        }
        if exists|t: int| 0 <= t < 1 && has_key(#[trigger] one[t], k) {
            let t = choose|t: int| 0 <= t < 1 && has_key(#[trigger] one[t], k);
            assert(b[a.len() as int] == one[t]);
        }
    }
    assert(key_set(b) =~= key_set(a) + key_set(one));
}

proof fn lemma_key_set_one(d: JsonModel)
    ensures
        key_set(seq![d]) == (match d {
            JsonModel::Object(_) => header_set(seq![d]),
            _ => Set::<Seq<char>>::empty(),
        }),
{
    let one = seq![d];
    assert(one[0] == d);
    assert forall|k: Seq<char>| #[trigger] key_set(one).contains(k) == (match d {
        JsonModel::Object(_) => header_set(one),
        _ => Set::<Seq<char>>::empty(),
    }).contains(k) by {
        if exists|t: int| 0 <= t < 1 && has_key(#[trigger] one[t], k) {
            let t = choose|t: int| 0 <= t < 1 && has_key(#[trigger] one[t], k);
            assert(t == 0);
        }
        if d is Object && header_set(one).contains(k) {
            if exists|t: int| 0 <= t < 1 && has_key(#[trigger] one[t], k) {
            } else {
                let t = choose|t: int| 0 <= t < 1 && !((#[trigger] one[t]) is Object);
                assert(t == 0);
            }
        }
    }
    assert(key_set(one) =~= (match d {
        JsonModel::Object(_) => header_set(one),
        _ => Set::<Seq<char>>::empty(),
    }));
}

/// The type name of the first member named `k` among the documents.
fn first_type_exec(documents: &Vec<JsonValue>, k: &String) -> (r: Option<&'static str>)
    ensures
        match r {
            Some(t) => first_type(doc_views(documents@), k@) == Some(t@),
            None => first_type(doc_views(documents@), k@) is None,
        },
{
    let ghost dv = doc_views(documents@);
    let mut i: usize = 0;
    assert(dv.subrange(0, dv.len() as int) =~= dv);
    while i < documents.len()
        invariant
            i <= documents.len(),
            dv == doc_views(documents@),
            first_type(dv, k@) == first_type(dv.subrange(i as int, dv.len() as int), k@),
        decreases documents.len() - i,
    {
        let ghost rest = dv.subrange(i as int, dv.len() as int);
        assert(rest[0] == documents@[i as int]@);
        assert(rest.drop_first() =~= dv.subrange(i + 1, dv.len() as int));
        if let JsonValue::Object(members) = &documents[i] {
            if let Some(v) = member_lookup(members, k) {
                return Some(json_type_name(v));
            }
        }
        i = i + 1;
    }
    None
}

/// Columns inferred from sample documents: every member name of the object
/// documents, sorted, typed by its first occurrence, nullable and without key,
/// default or comment.
pub fn infer_document_columns(documents: &Vec<JsonValue>) -> (r: Vec<ColumnInfo>)
    ensures
        sorted_distinct(r@.map_values(|c: ColumnInfo| c.name@)),
        r@.map_values(|c: ColumnInfo| c.name@).to_set() == key_set(doc_views(documents@)),
        forall|i: int|
            0 <= i < r@.len() ==> first_type(doc_views(documents@), (#[trigger] r@[i]).name@) == Some(r@[i].data_type@)
                && r@[i].is_nullable && r@[i].column_default is None && !r@[i].is_primary_key && r@[i].comment is None,
{
    let ghost dv = doc_views(documents@);
    let mut names: Vec<String> = Vec::new();
    let mut i: usize = 0;
    assert(views(names@).to_set() =~= key_set(dv.subrange(0, 0)));
    while i < documents.len()
        invariant
            i <= documents.len(),
            dv == doc_views(documents@),
            sorted_distinct(views(names@)),
            views(names@).to_set() == key_set(dv.subrange(0, i as int)),
        decreases documents.len() - i,
    {
        proof {
            let a = dv.subrange(0, i as int);
            assert(dv.subrange(0, i + 1) =~= a.push(documents@[i as int]@));
            lemma_key_set_push(a, documents@[i as int]@);
            lemma_key_set_one(documents@[i as int]@);
        }
        if let JsonValue::Object(_) = &documents[i] {
            add_document_headers(&mut names, &documents[i]);
        }
        i = i + 1;
    }
    assert(dv.subrange(0, dv.len() as int) =~= dv);
    let mut out: Vec<ColumnInfo> = Vec::new();
    let mut j: usize = 0;
    while j < names.len()
        invariant
            j <= names.len(),
            dv == doc_views(documents@),
            views(names@).to_set() == key_set(dv),
            out@.len() == j,
            forall|t: int| 0 <= t < j ==> (#[trigger] out@[t]).name@ == names@[t]@,
            forall|t: int|
                0 <= t < j ==> first_type(dv, (#[trigger] out@[t]).name@) == Some(out@[t].data_type@)
                    && out@[t].is_nullable && out@[t].column_default is None && !out@[t].is_primary_key
                    && out@[t].comment is None,
        decreases names.len() - j,
    {
        let data_type = match first_type_exec(documents, &names[j]) {
            Some(t) => t,
            None => {
                proof {
                    assert(views(names@)[j as int] == names@[j as int]@);
                    assert(views(names@).to_set().contains(names@[j as int]@));
                    let k = names@[j as int]@;
                    let w = choose|w: int| 0 <= w < dv.len() && has_key(#[trigger] dv[w], k);
                    lemma_first_type_found(dv, k, w);
                }
                "null"
            },
        };
        out.push(
            ColumnInfo {
                name: names[j].clone(),
                data_type: owned(data_type),
                is_nullable: true,
                column_default: None,
                is_primary_key: false,
                comment: None,
            },
        );
        j = j + 1;
    }
    assert(out@.map_values(|c: ColumnInfo| c.name@) =~= views(names@));
    out
}


/// A boolean cell shows the JSON literal of its own value, `true` or `false`, as an
/// Elasticsearch result cell does; different values never show alike.
pub proof fn lemma_boolean_cells_show_their_value(b: bool, c: bool)
    ensures
        spec_query_cell(JsonModel::Bool(b)) == (if b { "true"@ } else { "false"@ }),
        spec_query_cell(JsonModel::Bool(b)) == crate::elasticsearch::es_cell_text(JsonModel::Bool(b)),
        spec_query_cell(JsonModel::Bool(b)) == spec_query_cell(JsonModel::Bool(c)) ==> b == c,
{
    reveal_strlit("true");
    reveal_strlit("false");
    if b != c {
        assert(spec_query_cell(JsonModel::Bool(b))[0] != spec_query_cell(JsonModel::Bool(c))[0]);
    }
}


/// A result cell shows null as `NULL`, a string as its own text and a number as the
/// text it was printed with.
pub proof fn lemma_scalar_cells_show_their_value(s: Seq<char>, number: Seq<char>, is_integer: bool)
    ensures
        spec_query_cell(JsonModel::Null) == "NULL"@,
        spec_query_cell(JsonModel::Str(s)) == s,
        spec_query_cell(JsonModel::Number(number, is_integer)) == number,
{
}

} // verus!

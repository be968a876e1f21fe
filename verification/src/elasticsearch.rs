//! Elasticsearch REST queries typed as text (`METHOD /path` and an optional JSON body
//! on the next lines), and their answers as result tables.
use vstd::prelude::*;
use crate::clickhouse::QueryResult;
use crate::json::{
    int_model, json_int, json_object, json_str, json_uint, members_view, push_member,
    json_compact_text, json_parse_text, json_pretty_text, json_to_compact_string, json_to_pretty_string, parse_json_str,
    JsonModel, JsonNumber, JsonValue,
};
use crate::mcp::results::member_of;
use crate::ordered::{insert_ordered, sorted};
use crate::table_import::json_rows::{add_keys, add_keys_exec};
use crate::table_import::mapping::texts;
use crate::text::{
    char_is_ws, chars_of, dec, find_char, find_char_exec, is_ws, parse_unsigned, parse_unsigned_chars, push_str,
    string_of, to_uppercase_text, trim, trim_bounds, unicode_uppercase, u64_to_string,
};

verus! {

/// The HTTP methods a REST query may use.
#[derive(Debug, Clone, Copy, PartialEq, Eq, Structural)]
pub enum RestMethod {
    Get,
    Post,
    Put,
    Delete,
}

/// A REST query: its method, its path (starting with `/`), and its JSON body.
#[derive(Debug)]
pub struct RestRequest {
    pub method: RestMethod,
    pub path: String,
    pub body: Option<JsonValue>,
}

/// Index of the first whitespace character at or after `i`, or the length.
pub open spec fn first_ws(s: Seq<char>, i: int) -> int
    decreases s.len() - i,
{
    if i < 0 || i >= s.len() {
        s.len() as int
    } else if is_ws(s[i]) {
        i
    } else {
        first_ws(s, i + 1)
    }
}

/// The parts of a query text: the method (uppercased), the path (with a leading
/// `/`), and the body text when the lines after the first are not blank.
pub open spec fn spec_rest_parts(input: Seq<char>) -> Result<(Seq<char>, Seq<char>, Option<Seq<char>>), Seq<char>> {
    let t = trim(input);
    let k = first_ws(t, 0);
    if k >= t.len() {
        Err("Invalid query: expected METHOD /path"@)
    } else {
        let method = unicode_uppercase(t.subrange(0, k));
        let rest = t.subrange(k + 1, t.len() as int);
        let nl = find_char(rest, 0, '\n');
        let p = if nl < rest.len() {
            trim(rest.subrange(0, nl))
        } else {
            trim(rest)
        };
        let body = if nl < rest.len() {
            let b = trim(rest.subrange(nl + 1, rest.len() as int));
            if b.len() == 0 {
                None
            } else {
                Some(b)
            }
        } else {
            None
        };
        let path = if p.len() > 0 && p[0] == '/' {
            p
        } else {
            seq!['/'] + p
        };
        Ok((method, path, body))
    }
}

/// What a query text asks for, or why it cannot be sent.
pub open spec fn spec_rest_request(input: Seq<char>) -> Result<(RestMethod, Seq<char>, Option<JsonModel>), Seq<char>> {
    match spec_rest_parts(input) {
        Err(e) => Err(e),
        Ok((m, path, body)) => {
            let method = if m == "GET"@ {
                Some(RestMethod::Get)
            } else if m == "POST"@ {
                Some(RestMethod::Post)
            } else if m == "PUT"@ {
                Some(RestMethod::Put)
            } else if m == "DELETE"@ {
                Some(RestMethod::Delete)
            } else {
                None
            };
            match method {
                None => Err("Unsupported HTTP method: "@ + m + ". Use GET, POST, PUT, or DELETE."@),
                Some(RestMethod::Delete) => Ok((RestMethod::Delete, path, None)),
                Some(x) => match body {
                    None => Ok((x, path, None)),
                    Some(b) => match json_parse_text(b) {
                        Ok(v) => Ok((x, path, Some(v))),
                        Err(e) => Err("Invalid JSON body: "@ + e),
                    },
                },
            }
        },
    }
}

fn owned(s: &str) -> (r: String)
    ensures
        r@ == s@,
{
    let mut out = String::new();
    push_str(&mut out, s);
    out
}

fn slice_string(v: &Vec<char>, a: usize, b: usize) -> (r: String)
    requires
        a <= b <= v.len(),
    ensures
        r@ == v@.subrange(a as int, b as int),
{
    string_of(&v.as_slice()[a..b])
}

fn trimmed_string(v: &Vec<char>, a: usize, b: usize) -> (r: String)
    requires
        a <= b <= v.len(),
    ensures
        r@ == trim(v@.subrange(a as int, b as int)),
{
    let mut part: Vec<char> = Vec::new();
    let mut k = a;
    while k < b
        invariant
            a <= k <= b <= v.len(),
            part@ == v@.subrange(a as int, k as int),
        decreases b - k,
    {
        part.push(v[k]);
        assert(part@ =~= v@.subrange(a as int, k + 1));
        k = k + 1;
    }
    let (x, y) = trim_bounds(&part);
    string_of(&part.as_slice()[x..y])
}

/// Reads a REST query: `METHOD /path`, then an optional JSON body on the following
/// lines (ignored for `DELETE`).
pub fn parse_rest_request(input: &str) -> (r: Result<RestRequest, String>)
    ensures
        match r {
            Ok(q) => spec_rest_request(input@) == Ok::<(RestMethod, Seq<char>, Option<JsonModel>), Seq<char>>(
                (
                    q.method,
                    q.path@,
                    match q.body {
                        Some(b) => Some(b@),
                        None => None,
                    },
                ),
            ),
            Err(e) => spec_rest_request(input@) == Err::<(RestMethod, Seq<char>, Option<JsonModel>), Seq<char>>(e@),
        },
{
    let v = chars_of(input);
    let (x, y) = trim_bounds(&v);
    let mut t: Vec<char> = Vec::new();
    let mut k = x;
    while k < y
        invariant
            x <= k <= y <= v.len(),
            t@ == v@.subrange(x as int, k as int),
        decreases y - k,
    {
        t.push(v[k]);
        assert(t@ =~= v@.subrange(x as int, k + 1));
        k = k + 1;
    }
    let mut w: usize = 0;
    while w < t.len() && !char_is_ws(t[w])
        invariant
            w <= t.len(),
            first_ws(t@, 0) == first_ws(t@, w as int),
        decreases t.len() - w,
    {
        w = w + 1;
    }
    if w >= t.len() {
        return Err(owned("Invalid query: expected METHOD /path"));
    }
    let method_text = slice_string(&t, 0, w);
    let method = to_uppercase_text(method_text.as_str());
    let mut rest: Vec<char> = Vec::new();
    let mut j = w + 1;
    while j < t.len()
        invariant
            w + 1 <= j <= t.len(),
            rest@ == t@.subrange(w + 1, j as int),
        decreases t.len() - j,
    {
        rest.push(t[j]);
        assert(rest@ =~= t@.subrange(w + 1, j + 1));
        j = j + 1;
    }
    let nl = find_char_exec(&rest, 0, '\n');
    let p = if nl < rest.len() {
        trimmed_string(&rest, 0, nl)
    } else {
        trimmed_string(&rest, 0, rest.len())
    };
    assert(rest@.subrange(0, rest@.len() as int) =~= rest@);
    let body_text = if nl < rest.len() {
        let b = trimmed_string(&rest, nl + 1, rest.len());
        if b.as_str().unicode_len() == 0 {
            None
        } else {
            Some(b)
        }
    } else {
        None
    };
    let pv = chars_of(p.as_str());
    let path = if pv.len() > 0 && pv[0] == '/' {
        p
    } else {
        let mut q = owned("/");
        push_str(&mut q, p.as_str());
        proof {
            reveal_strlit("/");
        }
        assert(q@ =~= seq!['/'] + p@);
        q
    };
    assert(t@ == trim(input@));
    assert(rest@ == t@.subrange(w + 1, t@.len() as int));
    assert(spec_rest_parts(input@) == Ok::<(Seq<char>, Seq<char>, Option<Seq<char>>), Seq<char>>(
        (
            method@,
            path@,
            match body_text {
                Some(b) => Some(b@),
                None => None,
            },
        ),
    ));
    let kind = if crate::text::str_eq(method.as_str(), "GET") {
        RestMethod::Get
    } else if crate::text::str_eq(method.as_str(), "POST") {
        RestMethod::Post
    } else if crate::text::str_eq(method.as_str(), "PUT") {
        RestMethod::Put
    } else if crate::text::str_eq(method.as_str(), "DELETE") {
        RestMethod::Delete
    } else {
        let mut e = owned("Unsupported HTTP method: ");
        push_str(&mut e, method.as_str());
        push_str(&mut e, ". Use GET, POST, PUT, or DELETE.");
        return Err(e);
    };
    if kind == RestMethod::Delete {
        return Ok(RestRequest { method: kind, path, body: None });
    }
    match body_text {
        None => Ok(RestRequest { method: kind, path, body: None }),
        Some(b) => match parse_json_str(b.as_str()) {
            Ok(json) => Ok(RestRequest { method: kind, path, body: Some(json) }),
            Err(e) => {
                let mut m = owned("Invalid JSON body: ");
                push_str(&mut m, e.as_str());
                Err(m)
            },
        },
    }
}


/// The member `k` of an object.
pub open spec fn get_member(v: JsonModel, k: Seq<char>) -> Option<JsonModel> {
    match v {
        JsonModel::Object(ms) => member_of(ms, k),
        _ => None,
    }
}

/// Index of the first member named `k` at or after `i`, or the length.
pub open spec fn key_index(ms: Seq<(Seq<char>, JsonModel)>, k: Seq<char>, i: int) -> int
    decreases ms.len() - i,
{
    if i < 0 || i >= ms.len() {
        ms.len() as int
    } else if ms[i].0 == k {
        i
    } else {
        key_index(ms, k, i + 1)
    }
}

/// An ordered map after inserting `k`: its value replaced where the key is, appended
/// otherwise.
pub open spec fn map_insert(ms: Seq<(Seq<char>, JsonModel)>, k: Seq<char>, v: JsonModel) -> Seq<(Seq<char>, JsonModel)> {
    let i = key_index(ms, k, 0);
    if i < ms.len() {
        ms.update(i, (k, v))
    } else {
        ms.push((k, v))
    }
}

/// An ordered map after inserting each member of `src` in turn.
pub open spec fn insert_all(ms: Seq<(Seq<char>, JsonModel)>, src: Seq<(Seq<char>, JsonModel)>) -> Seq<
    (Seq<char>, JsonModel),
>
    decreases src.len(),
{
    if src.len() == 0 {
        ms
    } else {
        map_insert(insert_all(ms, src.drop_last()), src.last().0, src.last().1)
    }
}

/// A search hit as a row: `_id` first, then the members of `_source`.
pub open spec fn hit_row(hit: JsonModel) -> Seq<(Seq<char>, JsonModel)> {
    let id = match get_member(hit, "_id"@) {
        Some(v) => v,
        None => JsonModel::Null,
    };
    let base = seq![("_id"@, id)];
    match get_member(hit, "_source"@) {
        Some(JsonModel::Object(source)) => insert_all(base, source),
        _ => base,
    }
}

/// A value as a result cell's text: a string's text, the JSON text of anything else.
pub open spec fn es_cell_text(v: JsonModel) -> Seq<char> {
    match v {
        JsonModel::Str(s) => s,
        JsonModel::Null => "null"@,
        JsonModel::Bool(b) => if b {
            "true"@
        } else {
            "false"@
        },
        JsonModel::Number(t, _) => t,
        _ => json_compact_text(v),
    }
}

/// The names of the members of the first `n` rows, each once, in order of appearance.
pub open spec fn row_keys(rows: Seq<Seq<(Seq<char>, JsonModel)>>, n: int) -> Seq<Seq<char>>
    decreases n,
{
    if n <= 0 || n > rows.len() {
        Seq::empty()
    } else {
        add_keys(row_keys(rows, n - 1), rows[n - 1])
    }
}

/// The cell of a row under a column: the member's value as text, or null.
pub open spec fn es_cell(row: Seq<(Seq<char>, JsonModel)>, k: Seq<char>) -> JsonModel {
    match member_of(row, k) {
        Some(v) => JsonModel::Str(es_cell_text(v)),
        None => JsonModel::Null,
    }
}

/// Rows of members as a table: one column per member name, one row per row.
pub open spec fn member_table(rows: Seq<Seq<(Seq<char>, JsonModel)>>) -> (Seq<Seq<char>>, Seq<Seq<JsonModel>>) {
    let keys = row_keys(rows, rows.len() as int);
    (keys, Seq::new(rows.len(), |i: int| Seq::new(keys.len(), |j: int| es_cell(rows[i], keys[j]))))
}

/// A bucket member's value: the `value` of a nested object, the nested object's JSON
/// text when it has none, the value itself otherwise.
pub open spec fn bucket_value(v: JsonModel) -> JsonModel {
    match v {
        JsonModel::Object(sub) => match member_of(sub, "value"@) {
            Some(x) => x,
            None => JsonModel::Str(json_compact_text(v)),
        },
        _ => v,
    }
}

pub open spec fn bucket_row(bucket: Seq<(Seq<char>, JsonModel)>) -> Seq<(Seq<char>, JsonModel)> {
    insert_all(Seq::empty(), bucket.map_values(|m: (Seq<char>, JsonModel)| (m.0, bucket_value(m.1))))
}

/// The rows of the object buckets among the first `n`.
pub open spec fn bucket_rows(buckets: Seq<JsonModel>, n: int) -> Seq<Seq<(Seq<char>, JsonModel)>>
    decreases n,
{
    if n <= 0 || n > buckets.len() {
        Seq::empty()
    } else {
        match buckets[n - 1] {
            JsonModel::Object(b) => bucket_rows(buckets, n - 1).push(bucket_row(b)),
            _ => bucket_rows(buckets, n - 1),
        }
    }
}

/// The non-empty bucket list of an aggregation, if it has one.
pub open spec fn agg_buckets(agg: JsonModel) -> Option<Seq<JsonModel>> {
    match get_member(agg, "buckets"@) {
        Some(JsonModel::Array(bs)) => if bs.len() > 0 {
            Some(bs)
        } else {
            None
        },
        _ => None,
    }
}

/// Index of the first aggregation at or after `i` with buckets, or the count.
pub open spec fn first_bucket_agg(aggs: Seq<(Seq<char>, JsonModel)>, i: int) -> int
    decreases aggs.len() - i,
{
    if i < 0 || i >= aggs.len() {
        aggs.len() as int
    } else if agg_buckets(aggs[i].1) is Some {
        i
    } else {
        first_bucket_agg(aggs, i + 1)
    }
}

/// The single-value metrics among the first `n` aggregations: names and values.
pub open spec fn metrics(aggs: Seq<(Seq<char>, JsonModel)>, n: int) -> (Seq<Seq<char>>, Seq<JsonModel>)
    decreases n,
{
    if n <= 0 || n > aggs.len() {
        (Seq::empty(), Seq::empty())
    } else {
        let before = metrics(aggs, n - 1);
        match get_member(aggs[n - 1].1, "value"@) {
            Some(v) => (before.0.push(aggs[n - 1].0), before.1.push(JsonModel::Str(es_cell_text(v)))),
            None => before,
        }
    }
}

/// Aggregations as a table: the buckets of the first aggregation that has any, else
/// one row of the single-value metrics, else nothing.
pub open spec fn spec_aggregations(aggs: Seq<(Seq<char>, JsonModel)>) -> (Seq<Seq<char>>, Seq<Seq<JsonModel>>) {
    let i = first_bucket_agg(aggs, 0);
    if i < aggs.len() {
        let bs = agg_buckets(aggs[i].1)->0;
        member_table(bucket_rows(bs, bs.len() as int))
    } else {
        let m = metrics(aggs, aggs.len() as int);
        if m.0.len() > 0 {
            (m.0, seq![m.1])
        } else {
            (Seq::empty(), Seq::empty())
        }
    }
}

/// What `as_u64` reads from a JSON value.
pub open spec fn spec_as_u64(v: Option<JsonModel>) -> Option<int> {
    match v {
        Some(JsonModel::Number(t, true)) => parse_unsigned(t, 18446744073709551615),
        _ => None,
    }
}

pub open spec fn fallback_result(status: u16, body: JsonModel) -> (Seq<Seq<char>>, Seq<Seq<JsonModel>>, int) {
    (
        seq!["status"@, "response"@],
        seq![seq![JsonModel::Number(dec(status as nat), true), JsonModel::Str(json_pretty_text(body))]],
        0,
    )
}

/// The table an answer shows: its search hits, else its aggregations, else the status
/// and the pretty-printed answer; with the affected-row count.
pub open spec fn spec_rest_result(status: u16, body: JsonModel) -> (Seq<Seq<char>>, Seq<Seq<JsonModel>>, int) {
    let hits_obj = get_member(body, "hits"@);
    let hits = match hits_obj {
        Some(h) => get_member(h, "hits"@),
        None => None,
    };
    match hits {
        Some(JsonModel::Array(hs)) if hs.len() > 0 => {
            let t = member_table(Seq::new(hs.len(), |i: int| hit_row(hs[i])));
            let total = match hits_obj {
                Some(h) => match get_member(h, "total"@) {
                    Some(tt) => spec_as_u64(get_member(tt, "value"@)),
                    None => None,
                },
                None => None,
            };
            (t.0, t.1, match total {
                Some(n) => n,
                None => t.1.len() as int,
            })
        },
        _ => {
            let aggs = match get_member(body, "aggregations"@) {
                Some(v) => Some(v),
                None => get_member(body, "aggs"@),
            };
            match aggs {
                Some(JsonModel::Object(a)) => {
                    let t = spec_aggregations(a);
                    if t.0.len() > 0 {
                        (t.0, t.1, t.1.len() as int)
                    } else {
                        fallback_result(status, body)
                    }
                },
                _ => fallback_result(status, body),
            }
        },
    }
}


proof fn lemma_object_members(members: Vec<(String, JsonValue)>)
    ensures
        JsonValue::Object(members)@->Object_0 == members_view(members@),
{
    assert(JsonValue::Object(members)@->Object_0 =~= members_view(members@));
}

proof fn lemma_members_view_push(v: Seq<(String, JsonValue)>, m: (String, JsonValue))
    ensures
        members_view(v.push(m)) == members_view(v).push((m.0@, m.1@)),
{
    assert(members_view(v.push(m)) =~= members_view(v).push((m.0@, m.1@)));
}

proof fn lemma_members_view_update(v: Seq<(String, JsonValue)>, i: int, m: (String, JsonValue))
    requires
        0 <= i < v.len(),
    ensures
        members_view(v.update(i, m)) == members_view(v).update(i, (m.0@, m.1@)),
{
    assert(members_view(v.update(i, m)) =~= members_view(v).update(i, (m.0@, m.1@)));
}

fn get_member_exec<'a>(value: &'a JsonValue, key: &str) -> (r: Option<&'a JsonValue>)
    ensures
        match r {
            Some(v) => get_member(value@, key@) == Some(v@),
            None => get_member(value@, key@) is None,
        },
{
    match value {
        JsonValue::Object(members) => {
            let ghost m = value@->Object_0;
            let mut i: usize = 0;
            assert(m.subrange(0, m.len() as int) =~= m);
            while i < members.len()
                invariant
                    i <= members@.len(),
                    *value == JsonValue::Object(*members),
                    m == JsonValue::Object(*members)@->Object_0,
                    m.len() == members@.len(),
                    member_of(m, key@) == member_of(m.subrange(i as int, m.len() as int), key@),
                decreases members.len() - i,
            {
                let ghost t = m.subrange(i as int, m.len() as int);
                assert(t[0] == m[i as int]);
                assert(t.drop_first() =~= m.subrange(i + 1, m.len() as int));
                if crate::text::str_eq(members[i].0.as_str(), key) {
                    return Some(&members[i].1);
                }
                i = i + 1;
            }
            None
        },
        _ => None,
    }
}

fn map_insert_exec(ms: &mut Vec<(String, JsonValue)>, key: String, value: JsonValue)
    ensures
        members_view(final(ms)@) == map_insert(members_view(old(ms)@), key@, value@),
{
    let ghost m = members_view(ms@);
    let mut i: usize = 0;
    while i < ms.len() && !(ms[i].0 == key)
        invariant
            i <= ms.len(),
            m == members_view(ms@),
            m.len() == ms@.len(),
            key_index(m, key@, 0) == key_index(m, key@, i as int),
        decreases ms.len() - i,
    {
        assert(m[i as int].0 == ms@[i as int].0@);
        i = i + 1;
    }
    if i < ms.len() {
        assert(m[i as int].0 == ms@[i as int].0@);
        let ghost before = ms@;
        let kv = key.clone();
        ms.set(i, (kv, value));
        proof {
            lemma_members_view_update(before, i as int, (key, value));
        }
    } else {
        let ghost before = ms@;
        let kv = key.clone();
        ms.push((kv, value));
        proof {
            lemma_members_view_push(before, (key, value));
        }
    }
}

fn insert_all_exec(ms: &mut Vec<(String, JsonValue)>, src: &Vec<(String, JsonValue)>)
    ensures
        members_view(final(ms)@) == insert_all(members_view(old(ms)@), members_view(src@)),
{
    let ghost start = members_view(ms@);
    let ghost sv = members_view(src@);
    let mut i: usize = 0;
    while i < src.len()
        invariant
            i <= src.len(),
            sv == members_view(src@),
            sv.len() == src@.len(),
            members_view(ms@) == insert_all(start, sv.subrange(0, i as int)),
        decreases src.len() - i,
    {
        proof {
            let a = sv.subrange(0, i + 1);
            assert(a.drop_last() =~= sv.subrange(0, i as int));
            assert(a.last() == sv[i as int]);
            assert(sv[i as int] == (src@[i as int].0@, src@[i as int].1@));
        }
        map_insert_exec(ms, src[i].0.clone(), src[i].1.deep_clone());
        i = i + 1;
    }
    assert(sv.subrange(0, sv.len() as int) =~= sv);
}

fn hit_row_exec(hit: &JsonValue) -> (r: Vec<(String, JsonValue)>)
    ensures
        members_view(r@) == hit_row(hit@),
{
    let id = match get_member_exec(hit, "_id") {
        Some(v) => v.deep_clone(),
        None => JsonValue::Null,
    };
    let mut row: Vec<(String, JsonValue)> = Vec::new();
    let ghost before = row@;
    let id_key = owned("_id");
    let ghost idv = id@;
    row.push((id_key, id));
    proof {
        lemma_members_view_push(before, (id_key, id));
        assert(members_view(before) =~= Seq::<(Seq<char>, JsonModel)>::empty());
        assert(members_view(row@) =~= seq![("_id"@, idv)]);
    }
    match get_member_exec(hit, "_source") {
        Some(JsonValue::Object(source)) => {
            proof {
                lemma_object_members(*source);
            }
            insert_all_exec(&mut row, source);
        },
        _ => {},
    }
    row
}

fn es_cell_text_exec(value: &JsonValue) -> (r: String)
    ensures
        r@ == es_cell_text(value@),
{
    match value {
        JsonValue::String(s) => s.clone(),
        JsonValue::Null => owned("null"),
        JsonValue::Bool(b) => owned(if *b { "true" } else { "false" }),
        JsonValue::Number(n) => n.text.clone(),
        _ => json_to_compact_string(value),
    }
}

fn row_cell_exec(row: &Vec<(String, JsonValue)>, key: &String) -> (r: JsonValue)
    ensures
        r@ == es_cell(members_view(row@), key@),
{
    let ghost m = members_view(row@);
    let mut i: usize = 0;
    assert(m.subrange(0, m.len() as int) =~= m);
    while i < row.len()
        invariant
            i <= row@.len(),
            m == members_view(row@),
            m.len() == row@.len(),
            member_of(m, key@) == member_of(m.subrange(i as int, m.len() as int), key@),
        decreases row.len() - i,
    {
        let ghost t = m.subrange(i as int, m.len() as int);
        assert(t[0] == m[i as int]);
        assert(t.drop_first() =~= m.subrange(i + 1, m.len() as int));
        if row[i].0 == *key {
            return JsonValue::String(es_cell_text_exec(&row[i].1));
        }
        i = i + 1;
    }
    JsonValue::Null
}

pub open spec fn rows_view(rows: Seq<Vec<(String, JsonValue)>>) -> Seq<Seq<(Seq<char>, JsonModel)>> {
    rows.map_values(|r: Vec<(String, JsonValue)>| members_view(r@))
}

pub open spec fn table_view(rows: Seq<Vec<JsonValue>>) -> Seq<Seq<JsonModel>> {
    rows.map_values(|r: Vec<JsonValue>| r@.map_values(|v: JsonValue| v@))
}

fn member_table_exec(rows: &Vec<Vec<(String, JsonValue)>>) -> (r: (Vec<String>, Vec<Vec<JsonValue>>))
    ensures
        (texts(r.0@), table_view(r.1@)) == member_table(rows_view(rows@)),
{
    let ghost rv = rows_view(rows@);
    let mut keys: Vec<String> = Vec::new();
    let mut i: usize = 0;
    while i < rows.len()
        invariant
            i <= rows.len(),
            rv == rows_view(rows@),
            texts(keys@) == row_keys(rv, i as int),
        decreases rows.len() - i,
    {
        add_keys_exec(&mut keys, &rows[i]);
        proof {
            lemma_object_members(rows@[i as int]);
            assert(rv[i as int] == members_view(rows@[i as int]@));
        }
        i = i + 1;
    }
    let ghost kv = texts(keys@);
    let mut table: Vec<Vec<JsonValue>> = Vec::new();
    let mut d: usize = 0;
    while d < rows.len()
        invariant
            d <= rows.len(),
            rv == rows_view(rows@),
            kv == texts(keys@),
            table_view(table@) == Seq::new(d as nat, |a: int| Seq::new(kv.len(), |b: int| es_cell(rv[a], kv[b]))),
        decreases rows.len() - d,
    {
        let mut line: Vec<JsonValue> = Vec::new();
        let mut h: usize = 0;
        while h < keys.len()
            invariant
                h <= keys.len(),
                d < rows.len(),
                rv == rows_view(rows@),
                kv == texts(keys@),
                line@.map_values(|v: JsonValue| v@) == Seq::new(h as nat, |b: int| es_cell(rv[d as int], kv[b])),
            decreases keys.len() - h,
        {
            let ghost before = line@;
            let c = row_cell_exec(&rows[d], &keys[h]);
            line.push(c);
            proof {
                assert(rv[d as int] == members_view(rows@[d as int]@));
                assert(line@.map_values(|v: JsonValue| v@) =~= before.map_values(|v: JsonValue| v@).push(c@));
                assert(Seq::new((h + 1) as nat, |b: int| es_cell(rv[d as int], kv[b])) =~= Seq::new(
                    h as nat,
                    |b: int| es_cell(rv[d as int], kv[b]),
                ).push(es_cell(rv[d as int], kv[h as int])));
            }
            h = h + 1;
        }
        let ghost before = table@;
        table.push(line);
        proof {
            assert(table_view(table@) =~= table_view(before).push(line@.map_values(|v: JsonValue| v@)));
            assert(Seq::new((d + 1) as nat, |a: int| Seq::new(kv.len(), |b: int| es_cell(rv[a], kv[b]))) =~= Seq::new(
                d as nat,
                |a: int| Seq::new(kv.len(), |b: int| es_cell(rv[a], kv[b])),
            ).push(Seq::new(kv.len(), |b: int| es_cell(rv[d as int], kv[b]))));
        }
        d = d + 1;
    }
    assert(table_view(table@) =~= member_table(rv).1);
    (keys, table)
}


fn bucket_value_exec(v: &JsonValue) -> (r: JsonValue)
    ensures
        r@ == bucket_value(v@),
{
    match v {
        JsonValue::Object(_) => match get_member_exec(v, "value") {
            Some(x) => x.deep_clone(),
            None => JsonValue::String(json_to_compact_string(v)),
        },
        _ => v.deep_clone(),
    }
}

fn bucket_row_exec(bucket: &Vec<(String, JsonValue)>) -> (r: Vec<(String, JsonValue)>)
    ensures
        members_view(r@) == bucket_row(members_view(bucket@)),
{
    let mut mapped: Vec<(String, JsonValue)> = Vec::new();
    let mut i: usize = 0;
    while i < bucket.len()
        invariant
            i <= bucket.len(),
            members_view(mapped@) == members_view(bucket@.subrange(0, i as int)).map_values(
                |m: (Seq<char>, JsonModel)| (m.0, bucket_value(m.1)),
            ),
        decreases bucket.len() - i,
    {
        let ghost before = mapped@;
        let item = (bucket[i].0.clone(), bucket_value_exec(&bucket[i].1));
        mapped.push(item);
        proof {
            lemma_members_view_push(before, item);
            assert(members_view(bucket@.subrange(0, i + 1)).map_values(
                |m: (Seq<char>, JsonModel)| (m.0, bucket_value(m.1)),
            ) =~= members_view(bucket@.subrange(0, i as int)).map_values(
                |m: (Seq<char>, JsonModel)| (m.0, bucket_value(m.1)),
            ).push((bucket@[i as int].0@, bucket_value(bucket@[i as int].1@))));
        }
        i = i + 1;
    }
    assert(bucket@.subrange(0, bucket@.len() as int) =~= bucket@);
    let mut row: Vec<(String, JsonValue)> = Vec::new();
    assert(members_view(row@) =~= Seq::<(Seq<char>, JsonModel)>::empty());
    insert_all_exec(&mut row, &mapped);
    row
}

fn bucket_rows_exec(buckets: &Vec<JsonValue>) -> (r: Vec<Vec<(String, JsonValue)>>)
    ensures
        rows_view(r@) == bucket_rows(buckets@.map_values(|b: JsonValue| b@), buckets@.len() as int),
{
    let ghost bv = buckets@.map_values(|b: JsonValue| b@);
    let mut out: Vec<Vec<(String, JsonValue)>> = Vec::new();
    let mut i: usize = 0;
    while i < buckets.len()
        invariant
            i <= buckets.len(),
            bv == buckets@.map_values(|b: JsonValue| b@),
            rows_view(out@) == bucket_rows(bv, i as int),
        decreases buckets.len() - i,
    {
        assert(bv[i as int] == buckets@[i as int]@);
        match &buckets[i] {
            JsonValue::Object(b) => {
                proof {
                    lemma_object_members(*b);
                }
                let ghost before = out@;
                let row = bucket_row_exec(b);
                out.push(row);
                assert(rows_view(out@) =~= rows_view(before).push(members_view(row@)));
            },
            _ => {},
        }
        i = i + 1;
    }
    out
}

/// The table of the aggregations of an answer (see [`spec_aggregations`]).
pub fn parse_aggregations(aggs: &Vec<(String, JsonValue)>) -> (r: (Vec<String>, Vec<Vec<JsonValue>>))
    ensures
        (texts(r.0@), table_view(r.1@)) == spec_aggregations(members_view(aggs@)),
{
    let ghost av = members_view(aggs@);
    let mut i: usize = 0;
    while i < aggs.len()
        invariant
            i <= aggs.len(),
            av == members_view(aggs@),
            first_bucket_agg(av, 0) == first_bucket_agg(av, i as int),
        decreases aggs.len() - i,
    {
        assert(av[i as int] == (aggs@[i as int].0@, aggs@[i as int].1@));
        match get_member_exec(&aggs[i].1, "buckets") {
            Some(JsonValue::Array(bs)) => {
                if bs.len() > 0 {
                    assert(agg_buckets(av[i as int].1) == Some(bs@.map_values(|b: JsonValue| b@))) by {
                        assert(JsonValue::Array(*bs)@->Array_0 =~= bs@.map_values(|b: JsonValue| b@));
                    }
                    let rows = bucket_rows_exec(bs);
                    return member_table_exec(&rows);
                }
            },
            _ => {},
        }
        i = i + 1;
    }
    let mut columns: Vec<String> = Vec::new();
    let mut values: Vec<JsonValue> = Vec::new();
    let mut k: usize = 0;
    while k < aggs.len()
        invariant
            k <= aggs.len(),
            av == members_view(aggs@),
            (texts(columns@), values@.map_values(|v: JsonValue| v@)) == metrics(av, k as int),
        decreases aggs.len() - k,
    {
        assert(av[k as int] == (aggs@[k as int].0@, aggs@[k as int].1@));
        match get_member_exec(&aggs[k].1, "value") {
            Some(v) => {
                let ghost cb = columns@;
                let ghost vb = values@;
                columns.push(aggs[k].0.clone());
                let cell = JsonValue::String(es_cell_text_exec(v));
                values.push(cell);
                assert(texts(columns@) =~= texts(cb).push(aggs@[k as int].0@));
                assert(values@.map_values(|v: JsonValue| v@) =~= vb.map_values(|v: JsonValue| v@).push(cell@));
            },
            None => {},
        }
        k = k + 1;
    }
    if columns.len() > 0 {
        let mut rows: Vec<Vec<JsonValue>> = Vec::new();
        let ghost vv = values@.map_values(|v: JsonValue| v@);
        rows.push(values);
        assert(table_view(rows@) =~= seq![vv]);
        (columns, rows)
    } else {
        let rows: Vec<Vec<JsonValue>> = Vec::new();
        assert(table_view(rows@) =~= Seq::<Seq<JsonModel>>::empty());
        assert(texts(columns@) =~= Seq::<Seq<char>>::empty());
        (columns, rows)
    }
}

fn fallback_exec(status: u16, body: &JsonValue) -> (r: (Vec<String>, Vec<Vec<JsonValue>>))
    ensures
        (texts(r.0@), table_view(r.1@)) == (fallback_result(status, body@).0, fallback_result(status, body@).1),
{
    let mut columns: Vec<String> = Vec::new();
    columns.push(owned("status"));
    columns.push(owned("response"));
    let mut row: Vec<JsonValue> = Vec::new();
    row.push(JsonValue::Number(JsonNumber { text: u64_to_string(status as u64), is_integer: true }));
    row.push(JsonValue::String(json_to_pretty_string(body)));
    assert(row@.map_values(|v: JsonValue| v@) =~= seq![
        JsonModel::Number(dec(status as nat), true),
        JsonModel::Str(json_pretty_text(body@)),
    ]);
    let mut rows: Vec<Vec<JsonValue>> = Vec::new();
    rows.push(row);
    assert(texts(columns@) =~= seq!["status"@, "response"@]);
    assert(table_view(rows@) =~= fallback_result(status, body@).1);
    (columns, rows)
}

pub(crate) fn as_u64_exec(v: Option<&JsonValue>) -> (r: Option<u64>)
    ensures
        match r {
            Some(n) => spec_as_u64(match v {
                Some(x) => Some(x@),
                None => None,
            }) == Some(n as int),
            None => spec_as_u64(match v {
                Some(x) => Some(x@),
                None => None,
            }) is None,
        },
{
    match v {
        Some(JsonValue::Number(n)) => {
            if n.is_integer {
                let t = chars_of(n.text.as_str());
                parse_unsigned_chars(t.as_slice(), 18446744073709551615)
            } else {
                None
            }
        },
        _ => None,
    }
}

/// The result table of a REST answer with its HTTP status (see [`spec_rest_result`]).
pub fn rest_query_result(status: u16, body: &JsonValue, execution_time_ms: u128) -> (r: QueryResult)
    ensures
        (texts(r.columns@), table_view(r.rows@), r.affected_rows as int) == spec_rest_result(status, body@),
        r.execution_time_ms == execution_time_ms,
        !r.truncated,
        r.session_id is None,
        !r.has_more,
{
    let hits_obj = get_member_exec(body, "hits");
    let hits = match hits_obj {
        Some(h) => get_member_exec(h, "hits"),
        None => None,
    };
    match hits {
        Some(JsonValue::Array(hs)) => {
            if hs.len() > 0 {
                let ghost hv = JsonValue::Array(*hs)@->Array_0;
                let mut rows: Vec<Vec<(String, JsonValue)>> = Vec::new();
                let mut i: usize = 0;
                while i < hs.len()
                    invariant
                        i <= hs.len(),
                        hv == JsonValue::Array(*hs)@->Array_0,
                        hv.len() == hs@.len(),
                        rows_view(rows@) == Seq::new(i as nat, |k: int| hit_row(hv[k])),
                    decreases hs.len() - i,
                {
                    let ghost before = rows@;
                    let row = hit_row_exec(&hs[i]);
                    rows.push(row);
                    proof {
                        assert(hv[i as int] == hs@[i as int]@);
                        assert(rows_view(rows@) =~= rows_view(before).push(members_view(row@)));
                        assert(Seq::new((i + 1) as nat, |k: int| hit_row(hv[k])) =~= Seq::new(
                            i as nat,
                            |k: int| hit_row(hv[k]),
                        ).push(hit_row(hv[i as int])));
                    }
                    i = i + 1;
                }
                let (columns, table) = member_table_exec(&rows);
                let total = match hits_obj {
                    Some(h) => match get_member_exec(h, "total") {
                        Some(tt) => as_u64_exec(get_member_exec(tt, "value")),
                        None => None,
                    },
                    None => None,
                };
                let affected = match total {
                    Some(n) => n,
                    None => table.len() as u64,
                };
                return QueryResult {
                    columns,
                    rows: table,
                    affected_rows: affected,
                    execution_time_ms,
                    truncated: false,
                    session_id: None,
                    has_more: false,
                };
            }
        },
        _ => {},
    }
    let aggs = match get_member_exec(body, "aggregations") {
        Some(v) => Some(v),
        None => get_member_exec(body, "aggs"),
    };
    let (columns, rows, affected) = match aggs {
        Some(JsonValue::Object(a)) => {
            proof {
                lemma_object_members(*a);
            }
            let (c, r) = parse_aggregations(a);
            if c.len() > 0 {
                let n = r.len() as u64;
                (c, r, n)
            } else {
                let (c, r) = fallback_exec(status, body);
                (c, r, 0)
            }
        },
        _ => {
            let (c, r) = fallback_exec(status, body);
            (c, r, 0)
        },
    };
    QueryResult { columns, rows, affected_rows: affected, execution_time_ms, truncated: false, session_id: None, has_more: false }
}


/// The index names that are not hidden (hidden ones start with `.`), in order.
pub open spec fn visible_names(names: Seq<Seq<char>>) -> Seq<Seq<char>>
    decreases names.len(),
{
    if names.len() == 0 {
        Seq::empty()
    } else {
        let rest = visible_names(names.drop_last());
        let n = names.last();
        if n.len() > 0 && n[0] == '.' {
            rest
        } else {
            rest.push(n)
        }
    }
}

/// The index names a catalogue lists, without the hidden ones, in ascending order.
pub fn visible_indices(names: Vec<String>) -> (r: Vec<String>)
    ensures
        sorted(crate::text::views(r@)),
        crate::text::views(r@).to_multiset() == visible_names(crate::text::views(names@)).to_multiset(),
{
    broadcast use vstd::seq_lib::group_to_multiset_ensures;

    let ghost nv = crate::text::views(names@);
    let mut out: Vec<String> = Vec::new();
    let mut i: usize = 0;
    assert(nv.subrange(0, 0) =~= Seq::<Seq<char>>::empty());
    assert(crate::text::views(out@) =~= Seq::<Seq<char>>::empty());
    while i < names.len()
        invariant
            i <= names.len(),
            nv == crate::text::views(names@),
            sorted(crate::text::views(out@)),
            crate::text::views(out@).to_multiset() == visible_names(nv.subrange(0, i as int)).to_multiset(),
        decreases names.len() - i,
    {
        let name = names[i].clone();
        assert(nv[i as int] == name@);
        proof {
            assert(nv.subrange(0, i + 1).drop_last() =~= nv.subrange(0, i as int));
            assert(nv.subrange(0, i + 1).last() == name@);
        }
        let c = chars_of(name.as_str());
        if !(c.len() > 0 && c[0] == '.') {
            let ghost vb = visible_names(nv.subrange(0, i as int));
            let ghost before = crate::text::views(out@);
            insert_ordered(&mut out, name);
            assert(crate::text::views(out@).to_multiset() == before.to_multiset().insert(nv[i as int]));
            proof {
                vstd::seq_lib::to_multiset_build(vb, nv[i as int]);
            }
            assert(visible_names(nv.subrange(0, i + 1)) == visible_names(nv.subrange(0, i as int)).push(nv[i as int]));
        } else {
            assert(visible_names(nv.subrange(0, i + 1)) == visible_names(nv.subrange(0, i as int)));
        }
        i = i + 1;
    }
    assert(nv.subrange(0, nv.len() as int) =~= nv);
    out
}

/// The index names of a catalogue answer: a list of objects with an `index` string.
pub open spec fn cat_index_names(response: JsonModel) -> Option<Seq<Seq<char>>> {
    match response {
        JsonModel::Array(items) => if forall|i: int|
            0 <= i < items.len() ==> (#[trigger] get_member(items[i], "index"@)) matches Some(JsonModel::Str(_)) {
            Some(Seq::new(items.len(), |i: int| get_member(items[i], "index"@)->Some_0->Str_0))
        } else {
            None
        },
        _ => None,
    }
}

/// Reads the index names of a catalogue answer (see [`cat_index_names`]).
pub fn catalogue_index_names(response: &JsonValue) -> (r: Result<Vec<String>, String>)
    ensures
        match cat_index_names(response@) {
            Some(n) => r matches Ok(v) && crate::text::views(v@) == n,
            None => r matches Err(e) && e@ == "Elasticsearch parse error: expected a list of objects with an index string"@,
        },
{
    let items = match response {
        JsonValue::Array(items) => items,
        _ => return Err(owned("Elasticsearch parse error: expected a list of objects with an index string")),
    };
    let ghost iv = response@->Array_0;
    let mut out: Vec<String> = Vec::new();
    let mut i: usize = 0;
    while i < items.len()
        invariant
            i <= items.len(),
            *response == JsonValue::Array(*items),
            iv == response@->Array_0,
            iv.len() == items@.len(),
            out@.len() == i,
            forall|t: int| 0 <= t < i ==> (#[trigger] get_member(iv[t], "index"@)) matches Some(JsonModel::Str(_)),
            forall|t: int| 0 <= t < i ==> (#[trigger] out@[t])@ == get_member(iv[t], "index"@)->Some_0->Str_0,
        decreases items.len() - i,
    {
        assert(iv[i as int] == items@[i as int]@);
        match get_member_exec(&items[i], "index") {
            Some(JsonValue::String(s)) => {
                out.push(owned(s.as_str()));
            },
            _ => {
                return Err(owned("Elasticsearch parse error: expected a list of objects with an index string"));
            },
        }
        i = i + 1;
    }
    assert(crate::text::views(out@) =~= Seq::new(iv.len(), |t: int| get_member(iv[t], "index"@)->Some_0->Str_0));
    Ok(out)
}

/// The body of a search for a page of documents in index order.
pub fn search_body(skip: u64, limit: i64) -> (r: JsonValue)
    ensures
        r@ == JsonModel::Object(
            Seq::empty()
                .push(("from"@, int_model(skip as int)))
                .push(("size"@, int_model(limit as int)))
                .push(("sort"@, JsonModel::Array(seq![JsonModel::Str("_doc"@)]))),
        ),
{
    let mut ms: Vec<(String, JsonValue)> = Vec::new();
    assert(members_view(ms@) =~= Seq::<(Seq<char>, JsonModel)>::empty());
    push_member(&mut ms, "from", json_uint(skip));
    push_member(&mut ms, "size", json_int(limit));
    let sort = JsonValue::Array(vec![json_str("_doc")]);
    assert(sort@->Array_0 =~= seq![JsonModel::Str("_doc"@)]);
    push_member(&mut ms, "sort", sort);
    json_object(ms)
}

/// The document of a search hit: the members of its `_source` (none when it is not an
/// object) with `_id` set to the hit's ID.
pub open spec fn hit_document(hit: JsonModel) -> Option<JsonModel> {
    match get_member(hit, "_id"@) {
        Some(JsonModel::Str(id)) => {
            let source = match get_member(hit, "_source"@) {
                Some(JsonModel::Object(ms)) => ms,
                _ => Seq::empty(),
            };
            Some(JsonModel::Object(map_insert(source, "_id"@, JsonModel::Str(id))))
        },
        _ => None,
    }
}

/// Whether every hit has a document (a string `_id`).
pub open spec fn all_hits_documented(hs: Seq<JsonModel>) -> bool {
    forall|i: int| 0 <= i < hs.len() ==> (#[trigger] hit_document(hs[i])) is Some
}

/// The documents and total of a search answer: `hits.total.value` must be an unsigned
/// integer and every hit of `hits.hits` must have a string `_id`.
pub open spec fn search_documents(response: JsonModel) -> Option<(Seq<JsonModel>, int)> {
    let hits = get_member(response, "hits"@);
    let total = match hits {
        Some(h) => match get_member(h, "total"@) {
            Some(t) => spec_as_u64(get_member(t, "value"@)),
            None => None,
        },
        None => None,
    };
    let list = match hits {
        Some(h) => get_member(h, "hits"@),
        None => None,
    };
    match (total, list) {
        (Some(n), Some(JsonModel::Array(hs))) => if all_hits_documented(hs) {
            Some((Seq::new(hs.len(), |i: int| hit_document(hs[i])->0), n))
        } else {
            None
        },
        _ => None,
    }
}

fn hit_document_exec(hit: &JsonValue) -> (r: Option<JsonValue>)
    ensures
        match r {
            Some(d) => hit_document(hit@) == Some(d@),
            None => hit_document(hit@) is None,
        },
{
    let id = match get_member_exec(hit, "_id") {
        Some(JsonValue::String(s)) => owned(s.as_str()),
        _ => return None,
    };
    let mut ms: Vec<(String, JsonValue)> = Vec::new();
    match get_member_exec(hit, "_source") {
        Some(JsonValue::Object(source)) => {
            let ghost sv = members_view(source@);
            let mut i: usize = 0;
            while i < source.len()
                invariant
                    i <= source.len(),
                    sv == members_view(source@),
                    members_view(ms@) == sv.subrange(0, i as int),
                decreases source.len() - i,
            {
                let ghost before = ms@;
                push_member(&mut ms, source[i].0.as_str(), source[i].1.deep_clone());
                assert(sv.subrange(0, i + 1) =~= sv.subrange(0, i as int).push(sv[i as int]));
                i = i + 1;
            }
            assert(sv.subrange(0, sv.len() as int) =~= sv);
            proof {
                lemma_object_members(*source);
            }
        },
        _ => {
            assert(members_view(ms@) =~= Seq::<(Seq<char>, JsonModel)>::empty());
        },
    }
    map_insert_exec(&mut ms, owned("_id"), JsonValue::String(id));
    Some(json_object(ms))
}

/// Reads the documents and total of a search answer (see [`search_documents`]).
pub fn search_hit_documents(response: &JsonValue) -> (r: Result<(Vec<JsonValue>, u64), String>)
    ensures
        match search_documents(response@) {
            Some((docs, n)) => r matches Ok((d, t)) && d@.map_values(|x: JsonValue| x@) == docs && t == n,
            None => r matches Err(e) && e@ == "Elasticsearch parse error: unexpected search response"@,
        },
{
    let hits = match get_member_exec(response, "hits") {
        Some(h) => h,
        None => return Err(owned("Elasticsearch parse error: unexpected search response")),
    };
    let total_object = match get_member_exec(hits, "total") {
        Some(t) => t,
        None => return Err(owned("Elasticsearch parse error: unexpected search response")),
    };
    let value = get_member_exec(total_object, "value");
    let total = match as_u64_exec(value) {
        Some(n) => n,
        None => return Err(owned("Elasticsearch parse error: unexpected search response")),
    };
    let list = match get_member_exec(hits, "hits") {
        Some(JsonValue::Array(list)) => list,
        _ => return Err(owned("Elasticsearch parse error: unexpected search response")),
    };
    let ghost hv = JsonValue::Array(*list)@->Array_0;
    assert(hv.len() == list@.len());
    let ghost outcome = if all_hits_documented(hv) {
        Some((Seq::new(hv.len(), |t: int| hit_document(hv[t])->0), total as int))
    } else {
        None
    };
    assert(get_member(response@, "hits"@) == Some(hits@));
    assert(get_member(hits@, "total"@) == Some(total_object@));
    assert(spec_as_u64(get_member(total_object@, "value"@)) == Some(total as int));
    assert(get_member(hits@, "hits"@) == Some(JsonModel::Array(hv)));
    assert(search_documents(response@) =~~= outcome);
    let mut docs: Vec<JsonValue> = Vec::new();
    let mut i: usize = 0;
    while i < list.len()
        invariant
            i <= list.len(),
            hv == JsonValue::Array(*list)@->Array_0,
            hv.len() == list@.len(),
            docs@.len() == i,
            forall|t: int| 0 <= t < i ==> (#[trigger] hit_document(hv[t])) is Some,
            forall|t: int| 0 <= t < i ==> hit_document(hv[t]) == Some((#[trigger] docs@[t])@),
            search_documents(response@) == outcome,
            outcome == (if all_hits_documented(hv) {
                Some((Seq::new(hv.len(), |t: int| hit_document(hv[t])->0), total as int))
            } else {
                None
            }),
        decreases list.len() - i,
    {
        assert(hv[i as int] == list@[i as int]@);
        match hit_document_exec(&list[i]) {
            Some(d) => docs.push(d),
            None => return Err(owned("Elasticsearch parse error: unexpected search response")),
        }
        i = i + 1;
    }
    assert(docs@.map_values(|x: JsonValue| x@) =~= Seq::new(hv.len(), |t: int| hit_document(hv[t])->0));
    Ok((docs, total))
}

/// The path of a search in an index.
pub fn search_path(index: &str) -> (r: String)
    ensures
        r@ == "/"@ + index@ + "/_search"@,
{
    let mut p = owned("/");
    push_str(&mut p, index);
    push_str(&mut p, "/_search");
    p
}

/// The path that adds a document to an index.
pub fn insert_document_path(index: &str) -> (r: String)
    ensures
        r@ == "/"@ + index@ + "/_doc?refresh=true"@,
{
    let mut p = owned("/");
    push_str(&mut p, index);
    push_str(&mut p, "/_doc?refresh=true");
    p
}

/// The path of a document of an index.
pub fn document_path(index: &str, id: &str) -> (r: String)
    ensures
        r@ == "/"@ + index@ + "/_doc/"@ + id@ + "?refresh=true"@,
{
    let mut p = owned("/");
    push_str(&mut p, index);
    push_str(&mut p, "/_doc/");
    push_str(&mut p, id);
    push_str(&mut p, "?refresh=true");
    p
}

/// The ID of an added document: the answer's `_id` string, or the empty text.
pub fn inserted_document_id(response: &JsonValue) -> (r: String)
    ensures
        r@ == match get_member(response@, "_id"@) {
            Some(JsonModel::Str(s)) => s,
            _ => Seq::empty(),
        },
{
    match get_member_exec(response, "_id") {
        Some(JsonValue::String(s)) => owned(s.as_str()),
        _ => String::new(),
    }
}


/// A sub-aggregation inside a bucket shows its `value`, the member that a metric
/// aggregation is read by; only a nested object without one shows as JSON text.
pub proof fn lemma_bucket_shows_sub_aggregation_value(v: JsonModel)
    ensures
        get_member(v, "value"@) matches Some(x) ==> bucket_value(v) == x,
        !(v is Object) ==> bucket_value(v) == v,
{
}

} // verus!

//! Rows from a JSON document: an array of objects, an array of arrays, or one object.
use vstd::prelude::*;
use crate::json::{JsonModel, JsonValue, json_parse_bytes, parse_json_bytes_raw};
use crate::table_import::options::{TableImportJsonShape, TableImportParseOptions};
use crate::table_import::rows::{ParsedImportFile, column_name, spec_generated_columns};
use crate::table_import::inference::rows_model;
use crate::table_import::mapping::texts;

verus! {

/// `names` with the keys of `members` that it lacks appended, in member order.
pub open spec fn add_keys(names: Seq<Seq<char>>, members: Seq<(Seq<char>, JsonModel)>) -> Seq<Seq<char>>
    decreases members.len(),
{
    if members.len() == 0 {
        names
    } else {
        let before = add_keys(names, members.drop_last());
        if before.contains(members.last().0) {
            before
        } else {
            before.push(members.last().0)
        }
    }
}

/// Every key of the first `n` objects, once each, in order of first appearance.
pub open spec fn union_keys(items: Seq<JsonModel>, n: nat) -> Seq<Seq<char>>
    decreases n,
{
    if n == 0 {
        Seq::empty()
    } else {
        let before = union_keys(items, (n - 1) as nat);
        match items[n - 1] {
            JsonModel::Object(members) => add_keys(before, members),
            _ => before,
        }
    }
}

/// The value of the first member named `key`, or null.
pub open spec fn member_value(members: Seq<(Seq<char>, JsonModel)>, key: Seq<char>) -> JsonModel
    decreases members.len(),
{
    if members.len() == 0 {
        JsonModel::Null
    } else if members[0].0 == key {
        members[0].1
    } else {
        member_value(members.drop_first(), key)
    }
}

pub open spec fn object_row(item: JsonModel, columns: Seq<Seq<char>>) -> Seq<JsonModel> {
    match item {
        JsonModel::Object(members) => Seq::new(columns.len(), |i: int| member_value(members, columns[i])),
        _ => Seq::empty(),
    }
}

pub open spec fn array_row(item: JsonModel, n: nat) -> Seq<JsonModel> {
    match item {
        JsonModel::Array(values) => Seq::new(n, |i: int| if i < values.len() { values[i] } else { JsonModel::Null }),
        _ => Seq::empty(),
    }
}

/// The longest array among the first `n` items.
pub open spec fn max_array_len(items: Seq<JsonModel>, n: nat) -> nat
    decreases n,
{
    if n == 0 {
        0
    } else {
        let before = max_array_len(items, (n - 1) as nat);
        let here = match items[n - 1] {
            JsonModel::Array(values) => values.len(),
            _ => 0,
        };
        if here > before { here } else { before }
    }
}

/// The rows of a JSON document: the array's items, or the single object.
pub open spec fn json_items(doc: JsonModel) -> Option<Seq<JsonModel>> {
    match doc {
        JsonModel::Array(items) => Some(items),
        JsonModel::Object(_) => Some(seq![doc]),
        _ => None,
    }
}

pub open spec fn all_objects(items: Seq<JsonModel>) -> bool {
    forall|i: int| 0 <= i < items.len() ==> (#[trigger] items[i]) is Object
}

pub open spec fn all_arrays(items: Seq<JsonModel>) -> bool {
    forall|i: int| 0 <= i < items.len() ==> (#[trigger] items[i]) is Array
}

/// The bytes after a UTF-8 byte-order mark, if there is one.
pub open spec fn strip_utf8_bom(bytes: Seq<u8>) -> Seq<u8> {
    if bytes.len() >= 3 && bytes[0] == 0xEF && bytes[1] == 0xBB && bytes[2] == 0xBF {
        bytes.subrange(3, bytes.len() as int)
    } else {
        bytes
    }
}

/// The columns and rows the document gives, or the error text.
pub ghost struct JsonTable {
    pub columns: Seq<Seq<char>>,
    pub rows: Seq<Seq<JsonModel>>,
    pub total: nat,
}

pub open spec fn spec_json_table(
    doc: JsonModel,
    shape: TableImportJsonShape,
    limit: nat,
) -> Result<JsonTable, Seq<char>> {
    match json_items(doc) {
        None => Err("JSON import must be an object or an array"@),
        Some(items) => if items.len() == 0 {
            Err("Import file has no rows"@)
        } else if shape is Objects && !all_objects(items) {
            Err("JSON import is configured for object rows, but at least one row is not an object"@)
        } else if shape is Arrays && !all_arrays(items) {
            Err("JSON import is configured for array rows, but at least one row is not an array"@)
        } else if all_objects(items) {
            let columns = union_keys(items, items.len());
            if columns.len() == 0 {
                Err("Import file has no columns"@)
            } else {
                let kept = if limit < items.len() { limit } else { items.len() };
                Ok(JsonTable {
                    columns,
                    rows: Seq::new(kept, |i: int| object_row(items[i], columns)),
                    total: items.len(),
                })
            }
        } else if all_arrays(items) {
            let n = max_array_len(items, items.len());
            if n == 0 {
                Err("Import file has no columns"@)
            } else {
                let kept = if limit < items.len() { limit } else { items.len() };
                Ok(JsonTable {
                    columns: spec_generated_columns(n),
                    rows: Seq::new(kept, |i: int| array_row(items[i], n)),
                    total: items.len(),
                })
            }
        } else {
            Err("JSON rows must all be objects or all be arrays; mixed row shapes are not supported"@)
        },
    }
}

fn contains_text(names: &Vec<String>, key: &String) -> (r: bool)
    ensures
        r == texts(names@).contains(key@),
{
    for i in 0..names.len()
        invariant
            forall|j: int| 0 <= j < i ==> texts(names@)[j] != key@,
    {
        if names[i] == *key {
            assert(texts(names@)[i as int] == key@);
            return true;
        }
    }
    false
}

pub fn add_keys_exec(names: &mut Vec<String>, members: &Vec<(String, JsonValue)>)
    ensures
        texts(final(names)@) == add_keys(texts(old(names)@), JsonValue::Object(*members)@->Object_0),
{
    let ghost m = JsonValue::Object(*members)@->Object_0;
    let ghost start = texts(names@);
    for i in 0..members.len()
        invariant
            m == JsonValue::Object(*members)@->Object_0,
            m.len() == members@.len(),
            texts(names@) == add_keys(start, m.subrange(0, i as int)),
    {
        assert(m.subrange(0, i + 1).drop_last() =~= m.subrange(0, i as int));
        assert(m[i as int].0 == members@[i as int].0@);
        if !contains_text(names, &members[i].0) {
            let ghost before = names@;
            names.push(members[i].0.clone());
            assert(texts(names@) =~= texts(before).push(members@[i as int].0@));
        }
    }
    assert(m.subrange(0, m.len() as int) =~= m);
}

fn member_value_exec(members: &Vec<(String, JsonValue)>, key: &String) -> (r: JsonValue)
    ensures
        r@ == member_value(JsonValue::Object(*members)@->Object_0, key@),
{
    let ghost m = JsonValue::Object(*members)@->Object_0;
    let mut i: usize = 0;
    assert(m.subrange(0, m.len() as int) =~= m);
    while i < members.len()
        invariant
            i <= members@.len(),
            m == JsonValue::Object(*members)@->Object_0,
            m.len() == members@.len(),
            member_value(m, key@) == member_value(m.subrange(i as int, m.len() as int), key@),
        decreases members.len() - i,
    {
        let ghost t = m.subrange(i as int, m.len() as int);
        assert(t[0] == m[i as int]);
        assert(t.drop_first() =~= m.subrange(i + 1, m.len() as int));
        if members[i].0 == *key {
            return members[i].1.deep_clone();
        }
        i = i + 1;
    }
    JsonValue::Null
}

/// A JSON file's rows with the options' row shape: for objects, one column per key
/// (in order of first appearance) and a row of each object's values; for arrays,
/// generated columns as many as the longest array and a row of each array's values;
/// at most `preview_limit` rows are kept, all are counted.
pub fn parse_json_bytes_with_options(
    bytes: &[u8],
    options: &TableImportParseOptions,
    preview_limit: usize,
) -> (r: Result<ParsedImportFile, String>)
    ensures
        match json_parse_bytes(strip_utf8_bom(bytes@)) {
            Err(msg) => r matches Err(e) && e@ == msg,
            Ok(doc) => match spec_json_table(
                doc,
                options.json_shape.unwrap_or(TableImportJsonShape::Auto),
                preview_limit as nat,
            ) {
                Err(msg) => r matches Err(e) && e@ == msg,
                Ok(table) => r matches Ok(parsed) && texts(parsed.columns@) == table.columns && rows_model(
                    parsed.rows@,
                ) == table.rows && parsed.total_rows == table.total && parsed.effective_encoding is None,
            },
        },
{
    let body = if bytes.len() >= 3 && bytes[0] == 0xEF && bytes[1] == 0xBB && bytes[2] == 0xBF {
        bytes.split_at(3).1
    } else {
        bytes
    };
    assert(body@ =~= strip_utf8_bom(bytes@));
    let value = match parse_json_bytes_raw(body) {
        Ok(value) => value,
        Err(e) => return Err(e),
    };
    let shape = match options.json_shape {
        Some(s) => s,
        None => TableImportJsonShape::Auto,
    };
    json_table_from_value(value, shape, preview_limit)
}

/// The rows of a JSON document with a row shape: for objects, one column per key
/// (in order of first appearance) and a row of each object's values; for arrays,
/// generated columns as many as the longest array and a row of each array's values;
/// at most `preview_limit` rows are kept, all are counted.
pub fn json_table_from_value(value: JsonValue, shape: TableImportJsonShape, preview_limit: usize) -> (r: Result<
    ParsedImportFile,
    String,
>)
    ensures
        match spec_json_table(value@, shape, preview_limit as nat) {
            Err(msg) => r matches Err(e) && e@ == msg,
            Ok(table) => r matches Ok(parsed) && texts(parsed.columns@) == table.columns && rows_model(parsed.rows@)
                == table.rows && parsed.total_rows == table.total && parsed.effective_encoding is None,
        },
{
    let ghost doc = value@;
    let items: Vec<JsonValue> = match value {
        JsonValue::Array(items) => items,
        JsonValue::Object(members) => {
            let mut v: Vec<JsonValue> = Vec::new();
            v.push(JsonValue::Object(members));
            v
        },
        _ => return Err("JSON import must be an object or an array".to_owned()),
    };
    let ghost model = json_items(doc)->0;
    assert(items@.map_values(|v: JsonValue| v@) =~= model);
    if items.len() == 0 {
        return Err("Import file has no rows".to_owned());
    }
    let mut objects = true;
    let mut arrays = true;
    for i in 0..items.len()
        invariant
            model == items@.map_values(|v: JsonValue| v@),
            objects == (forall|j: int| 0 <= j < i ==> (#[trigger] model[j]) is Object),
            arrays == (forall|j: int| 0 <= j < i ==> (#[trigger] model[j]) is Array),
    {
        assert(model[i as int] == items@[i as int]@);
        match &items[i] {
            JsonValue::Object(_) => {
                arrays = false;
            },
            JsonValue::Array(_) => {
                objects = false;
            },
            _ => {
                objects = false;
                arrays = false;
            },
        }
    }
    if shape == TableImportJsonShape::Objects && !objects {
        return Err("JSON import is configured for object rows, but at least one row is not an object".to_owned());
    }
    if shape == TableImportJsonShape::Arrays && !arrays {
        return Err("JSON import is configured for array rows, but at least one row is not an array".to_owned());
    }
    let kept = if preview_limit < items.len() { preview_limit } else { items.len() };
    if objects {
        let mut columns: Vec<String> = Vec::new();
        for i in 0..items.len()
            invariant
                model == items@.map_values(|v: JsonValue| v@),
                forall|j: int| 0 <= j < model.len() ==> (#[trigger] model[j]) is Object,
                texts(columns@) == union_keys(model, i as nat),
        {
            assert(model[i as int] == items@[i as int]@);
            match &items[i] {
                JsonValue::Object(members) => {
                    add_keys_exec(&mut columns, members);
                },
                _ => {
                    assert(model[i as int] is Object);
                },
            }
        }
        if columns.len() == 0 {
            return Err("Import file has no columns".to_owned());
        }
        let mut rows: Vec<Vec<JsonValue>> = Vec::new();
        for i in 0..kept
            invariant
                kept <= items@.len(),
                model == items@.map_values(|v: JsonValue| v@),
                forall|j: int| 0 <= j < model.len() ==> (#[trigger] model[j]) is Object,
                rows@.len() == i,
                forall|j: int| 0 <= j < i ==> (#[trigger] rows_model(rows@)[j]) == object_row(model[j], texts(columns@)),
        {
            assert(model[i as int] == items@[i as int]@);
            let mut row: Vec<JsonValue> = Vec::new();
            match &items[i] {
                JsonValue::Object(members) => {
                    for c in 0..columns.len()
                        invariant
                            row@.len() == c,
                            forall|j: int| 0 <= j < c ==> (#[trigger] row@[j])@ == member_value(JsonValue::Object(*members)@->Object_0, texts(columns@)[j]),
                    {
                        row.push(member_value_exec(members, &columns[c]));
                    }
                    assert(row@.map_values(|v: JsonValue| v@) =~= object_row(model[i as int], texts(columns@)));
                },
                _ => {
                    assert(model[i as int] is Object);
                },
            }
            let ghost before = rows@;
            rows.push(row);
            assert forall|j: int| 0 <= j < i + 1 implies (#[trigger] rows_model(rows@)[j]) == object_row(model[j], texts(columns@)) by {
                if j < i {
                    assert(rows_model(rows@)[j] == rows_model(before)[j]);
                }
            }
        }
        assert(rows_model(rows@) =~= Seq::new(kept as nat, |i: int| object_row(model[i], texts(columns@))));
        return Ok(ParsedImportFile { columns, rows, total_rows: items.len(), effective_encoding: None });
    }
    if arrays {
        let mut max_cols: usize = 0;
        for i in 0..items.len()
            invariant
                model == items@.map_values(|v: JsonValue| v@),
                max_cols == max_array_len(model, i as nat),
        {
            assert(model[i as int] == items@[i as int]@);
            match &items[i] {
                JsonValue::Array(values) => {
                    assert(model[i as int]->Array_0.len() == values@.len());
                    if values.len() > max_cols {
                        max_cols = values.len();
                    }
                },
                _ => {},
            }
        }
        if max_cols == 0 {
            return Err("Import file has no columns".to_owned());
        }
        let mut columns: Vec<String> = Vec::new();
        for c in 0..max_cols
            invariant
                columns@.len() == c,
                forall|j: int| 0 <= j < c ==> (#[trigger] columns@[j])@ == column_name(j),
        {
            let mut name = "column_".to_owned();
            crate::text::push_dec(&mut name, (c + 1) as u64);
            columns.push(name);
        }
        assert(texts(columns@) =~= spec_generated_columns(max_cols as nat));
        let mut rows: Vec<Vec<JsonValue>> = Vec::new();
        for i in 0..kept
            invariant
                kept <= items@.len(),
                model == items@.map_values(|v: JsonValue| v@),
                forall|j: int| 0 <= j < model.len() ==> (#[trigger] model[j]) is Array,
                rows@.len() == i,
                forall|j: int| 0 <= j < i ==> (#[trigger] rows_model(rows@)[j]) == array_row(model[j], max_cols as nat),
        {
            assert(model[i as int] == items@[i as int]@);
            let mut row: Vec<JsonValue> = Vec::new();
            match &items[i] {
                JsonValue::Array(values) => {
                    let ghost vm = model[i as int]->Array_0;
                    for c in 0..max_cols
                        invariant
                            vm == JsonValue::Array(*values)@->Array_0,
                            vm.len() == values@.len(),
                            row@.len() == c,
                            forall|j: int| 0 <= j < c ==> (#[trigger] row@[j])@ == (if j < vm.len() { vm[j] } else { JsonModel::Null }),
                    {
                        if c < values.len() {
                            row.push(values[c].deep_clone());
                        } else {
                            row.push(JsonValue::Null);
                        }
                    }
                    assert(row@.map_values(|v: JsonValue| v@) =~= array_row(model[i as int], max_cols as nat));
                },
                _ => {
                    assert(model[i as int] is Array);
                },
            }
            let ghost before = rows@;
            rows.push(row);
            assert forall|j: int| 0 <= j < i + 1 implies (#[trigger] rows_model(rows@)[j]) == array_row(model[j], max_cols as nat) by {
                if j < i {
                    assert(rows_model(rows@)[j] == rows_model(before)[j]);
                }
            }
        }
        assert(rows_model(rows@) =~= Seq::new(kept as nat, |i: int| array_row(model[i], max_cols as nat)));
        return Ok(ParsedImportFile { columns, rows, total_rows: items.len(), effective_encoding: None });
    }
    Err("JSON rows must all be objects or all be arrays; mixed row shapes are not supported".to_owned())
}

/// A JSON file's rows with the default options.
pub fn parse_json_bytes(bytes: &[u8], preview_limit: usize) -> (r: Result<ParsedImportFile, String>)
    ensures
        match json_parse_bytes(strip_utf8_bom(bytes@)) {
            Err(msg) => r matches Err(e) && e@ == msg,
            Ok(doc) => match spec_json_table(doc, TableImportJsonShape::Auto, preview_limit as nat) {
                Err(msg) => r matches Err(e) && e@ == msg,
                Ok(table) => r matches Ok(parsed) && texts(parsed.columns@) == table.columns && rows_model(
                    parsed.rows@,
                ) == table.rows && parsed.total_rows == table.total,
            },
        },
{
    let options = TableImportParseOptions::default();
    parse_json_bytes_with_options(bytes, &options, preview_limit)
}

} // verus!

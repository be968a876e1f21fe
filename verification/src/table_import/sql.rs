//! The SQL statements of an import: `CREATE TABLE` for a new table and batched `INSERT`s.
use vstd::prelude::*;
use crate::dialect::{DatabaseType, qualified_table, quote_identifier, spec_qualified_table, spec_quote_identifier};
use crate::json::{JsonModel, JsonValue, json_compact_text, json_to_compact_string};
use crate::table_import::inference::{
    infer_column_type, import_data_type, rows_model, spec_import_data_type, spec_infer_column_type,
};
use crate::table_import::mapping::{
    TableImportColumnMapping, is_first_index, mapping_error, mapping_outcome_ok, mapping_source_indexes,
    normalize_import_target_data_type, spec_valid_target_data_type, texts,
    spec_supports_multi_row_insert_values, supports_multi_row_insert_values, mapping_indexes_for_columns,
};
use crate::table_import::rows::ParsedImportFile;
use crate::text::{chars_of, push_char, push_str, trim, trim_string};

verus! {

/// One `INSERT` statement and the number of rows it holds.
#[derive(Debug, Clone, PartialEq, Eq)]
pub struct ImportSqlBatch {
    pub sql: String,
    pub row_count: usize,
}

/// A column of a table that an import creates.
#[derive(Debug, Clone, PartialEq, Eq)]
pub struct ImportCreateTableColumn {
    pub name: String,
    pub data_type: String,
}

/// The `CREATE TABLE` statement for an import and the columns it declares.
#[derive(Debug, Clone, PartialEq, Eq)]
pub struct ImportCreateTablePlan {
    pub sql: String,
    pub columns: Vec<ImportCreateTableColumn>,
}

/// `parts` joined with `sep` between neighbours.
pub open spec fn join(parts: Seq<Seq<char>>, sep: Seq<char>) -> Seq<char>
    decreases parts.len(),
{
    if parts.len() == 0 {
        Seq::empty()
    } else if parts.len() == 1 {
        parts[0]
    } else {
        join(parts.drop_last(), sep) + sep + parts.last()
    }
}

/// The error that normalizing the column type of a mapping raises, if any.
pub open spec fn target_type_error(m: TableImportColumnMapping) -> Option<Seq<char>> {
    match m.target_data_type {
        None => None,
        Some(raw) => if trim(raw@).len() == 0 {
            Some("Target data type cannot be empty: "@ + m.target_column@)
        } else if !spec_valid_target_data_type(trim(raw@)) {
            Some("Unsupported target data type syntax: "@ + trim(raw@))
        } else {
            None
        },
    }
}

/// The index of the first source column named as mapping `k` asks.
pub open spec fn source_index_of(columns: Seq<Seq<char>>, m: TableImportColumnMapping) -> int {
    choose|i: int| is_first_index(columns, m.source_column@, i)
}

/// The type of the created column for mapping `k`: the type it gives, trimmed, else
/// the type inferred from the sample rows.
pub open spec fn planned_type(
    columns: Seq<Seq<char>>,
    rows: Seq<Seq<JsonModel>>,
    m: TableImportColumnMapping,
    db: DatabaseType,
) -> Seq<char> {
    match m.target_data_type {
        Some(raw) => trim(raw@),
        None => spec_import_data_type(spec_infer_column_type(rows, source_index_of(columns, m)), db),
    }
}

/// The column definitions of the statement.
pub open spec fn column_definitions(names: Seq<Seq<char>>, types: Seq<Seq<char>>, db: DatabaseType) -> Seq<Seq<char>> {
    Seq::new(names.len(), |i: int| spec_quote_identifier(names[i], db) + seq![' '] + types[i])
}

pub open spec fn engine_clause(db: DatabaseType) -> Seq<char> {
    if db is ClickHouse {
        " ENGINE = MergeTree() ORDER BY tuple()"@
    } else {
        Seq::empty()
    }
}

pub open spec fn create_table_sql(
    table: Seq<char>,
    schema: Seq<char>,
    names: Seq<Seq<char>>,
    types: Seq<Seq<char>>,
    db: DatabaseType,
) -> Seq<char> {
    "CREATE TABLE "@ + spec_qualified_table(trim(table), schema, db) + " (\n  "@ + join(
        column_definitions(names, types, db),
        ",\n  "@,
    ) + "\n)"@ + engine_clause(db)
}

fn push_join_part(out: &mut String, parts_len: usize, i: usize, sep: &str, part: &str)
    ensures
        final(out)@ == old(out)@ + (if i == 0 { Seq::empty() } else { sep@ }) + part@,
{
    if i > 0 {
        push_str(out, sep);
    }
    push_str(out, part);
}

proof fn lemma_join_push(parts: Seq<Seq<char>>, sep: Seq<char>, p: Seq<char>)
    ensures
        join(parts.push(p), sep) == if parts.len() == 0 { p } else { join(parts, sep) + sep + p },
{
    assert(parts.push(p).drop_last() =~= parts);
    if parts.len() == 0 {
        assert(parts.push(p)[0] == p);
    }
}

/// A `CREATE TABLE` statement for the mapped columns of an import: each column takes
/// the type its mapping gives, or the type inferred from the sample rows.
pub fn build_import_create_table_plan(
    data: &ParsedImportFile,
    mappings: &Vec<TableImportColumnMapping>,
    table: &str,
    schema: &str,
    db_type: &DatabaseType,
) -> (r: Result<ImportCreateTablePlan, String>)
    ensures
        ({
            let cols = texts(data.columns@);
            let rows = rows_model(data.rows@);
            if trim(table@).len() == 0 {
                r matches Err(e) && e@ == "Target table name is required"@
            } else if !mapping_outcome_ok(cols, mappings@) {
                r matches Err(e) && mapping_error(cols, mappings@, e@)
            } else if exists|k: int| 0 <= k < mappings@.len() && target_type_error(#[trigger] mappings@[k]) is Some {
                r matches Err(e) && exists|k: int|
                    0 <= k < mappings@.len() && target_type_error(#[trigger] mappings@[k]) == Some(e@) && forall|j: int|
                        0 <= j < k ==> target_type_error(mappings@[j]) is None
            } else {
                r matches Ok(plan) && {
                    let names = Seq::new(mappings@.len(), |k: int| mappings@[k].target_column@);
                    let types = Seq::new(mappings@.len(), |k: int| planned_type(cols, rows, mappings@[k], *db_type));
                    &&& plan.columns@.len() == mappings@.len()
                    &&& forall|k: int|
                        0 <= k < mappings@.len() ==> (#[trigger] plan.columns@[k]).name@ == names[k]
                            && plan.columns@[k].data_type@ == types[k]
                    &&& plan.sql@ == create_table_sql(table@, schema@, names, types, *db_type)
                }
            }
        }),
{
    let table_name = trim_string(table);
    if chars_of(table_name.as_str()).len() == 0 {
        return Err("Target table name is required".to_owned());
    }
    let indexes = match mapping_source_indexes(&data.columns, mappings) {
        Ok(indexes) => indexes,
        Err(e) => return Err(e),
    };
    let ghost cols = texts(data.columns@);
    let ghost rows = rows_model(data.rows@);
    let ghost names = Seq::new(mappings@.len(), |k: int| mappings@[k].target_column@);
    let ghost types = Seq::new(mappings@.len(), |k: int| planned_type(cols, rows, mappings@[k], *db_type));
    let mut columns: Vec<ImportCreateTableColumn> = Vec::new();
    for k in 0..mappings.len()
        invariant
            indexes@.len() == mappings@.len(),
            cols == texts(data.columns@),
            rows == rows_model(data.rows@),
            names == Seq::new(mappings@.len(), |k: int| mappings@[k].target_column@),
            types == Seq::new(mappings@.len(), |k: int| planned_type(cols, rows, mappings@[k], *db_type)),
            forall|j: int|
                0 <= j < mappings@.len() ==> is_first_index(cols, mappings@[j].source_column@, #[trigger] indexes@[j] as int),
            columns@.len() == k,
            mapping_outcome_ok(cols, mappings@),
            trim(table@).len() > 0,
            forall|j: int| 0 <= j < k ==> target_type_error(#[trigger] mappings@[j]) is None,
            forall|j: int|
                0 <= j < k ==> (#[trigger] columns@[j]).name@ == names[j] && columns@[j].data_type@ == types[j],
    {
        let m = &mappings[k];
        let data_type = match normalize_import_target_data_type(m) {
            Ok(Some(t)) => t,
            Ok(None) => {
                proof {
                    let i = indexes@[k as int] as int;
                    let c = source_index_of(cols, mappings@[k as int]);
                    assert(is_first_index(cols, mappings@[k as int].source_column@, i));
                    assert(is_first_index(cols, mappings@[k as int].source_column@, c));
                    if c < i {
                        assert(cols[c] != mappings@[k as int].source_column@);
                    }
                    if i < c {
                        assert(cols[i] != mappings@[k as int].source_column@);
                    }
                }
                let inferred = infer_column_type(&data.rows, indexes[k]);
                import_data_type(inferred, db_type)
            },
            Err(e) => {
                assert(target_type_error(mappings@[k as int]) == Some(e@));
                assert(exists|k2: int| 0 <= k2 < mappings@.len() && target_type_error(#[trigger] mappings@[k2]) is Some);
                return Err(e);
            },
        };
        columns.push(ImportCreateTableColumn { name: m.target_column.clone(), data_type });
    }
    let full_table = qualified_table(table_name.as_str(), schema, db_type);
    let mut sql = "CREATE TABLE ".to_owned();
    push_str(&mut sql, full_table.as_str());
    push_str(&mut sql, " (\n  ");
    let ghost prefix = sql@;
    let ghost defs = column_definitions(names, types, *db_type);
    for k in 0..columns.len()
        invariant
            columns@.len() == mappings@.len(),
            names.len() == mappings@.len(),
            types.len() == mappings@.len(),
            defs == column_definitions(names, types, *db_type),
            forall|j: int|
                0 <= j < columns@.len() ==> (#[trigger] columns@[j]).name@ == names[j] && columns@[j].data_type@ == types[j],
            sql@ == prefix + join(defs.subrange(0, k as int), ",\n  "@),
    {
        let mut part = quote_identifier(columns[k].name.as_str(), db_type);
        push_char(&mut part, ' ');
        push_str(&mut part, columns[k].data_type.as_str());
        assert(part@ == defs[k as int]);
        proof {
            assert(defs.subrange(0, k + 1) =~= defs.subrange(0, k as int).push(defs[k as int]));
            lemma_join_push(defs.subrange(0, k as int), ",\n  "@, defs[k as int]);
        }
        push_join_part(&mut sql, columns.len(), k, ",\n  ", part.as_str());
    }
    assert(defs.subrange(0, columns@.len() as int) =~= defs);
    push_str(&mut sql, "\n)");
    if matches!(db_type, DatabaseType::ClickHouse) {
        push_str(&mut sql, " ENGINE = MergeTree() ORDER BY tuple()");
    }
    proof {
        assert(spec_qualified_table(trim(table@), schema@, *db_type) == full_table@);
        if !(*db_type is ClickHouse) {
            assert(sql@ =~= create_table_sql(table@, schema@, names, types, *db_type));
        } else {
            assert(sql@ =~= create_table_sql(table@, schema@, names, types, *db_type));
        }
        assert forall|k: int| 0 <= k < mappings@.len() && target_type_error(#[trigger] mappings@[k]) is Some implies false by {
            assert(target_type_error(mappings@[k]) is None);
        }
    }
    Ok(ImportCreateTablePlan { sql, columns })
}


/// `s` with every `'` doubled.
pub open spec fn escape_quotes(s: Seq<char>) -> Seq<char>
    decreases s.len(),
{
    if s.len() == 0 {
        Seq::empty()
    } else if s.last() == '\'' {
        escape_quotes(s.drop_last()) + seq!['\'', '\'']
    } else {
        escape_quotes(s.drop_last()).push(s.last())
    }
}

/// A quoted SQL string literal; SQL Server takes Unicode literals (`N'...'`).
pub open spec fn string_literal(s: Seq<char>, db: DatabaseType) -> Seq<char> {
    (if db is SqlServer { "N"@ } else { Seq::empty() }) + seq!['\''] + escape_quotes(s) + seq!['\'']
}

/// The SQL literal for one value: `NULL`, `TRUE`/`FALSE`, a number's text, a quoted
/// string, or quoted compact JSON for arrays and objects.
pub open spec fn sql_literal(v: JsonModel, db: DatabaseType) -> Seq<char> {
    match v {
        JsonModel::Null => "NULL"@,
        JsonModel::Bool(b) => if b { "TRUE"@ } else { "FALSE"@ },
        JsonModel::Number(text, _) => text,
        JsonModel::Str(s) => string_literal(s, db),
        JsonModel::Array(_) | JsonModel::Object(_) => string_literal(json_compact_text(v), db),
    }
}

fn push_string_literal(out: &mut String, s: &str, db: &DatabaseType)
    ensures
        final(out)@ == old(out)@ + string_literal(s@, *db),
{
    let ghost start = old(out)@;
    if matches!(db, DatabaseType::SqlServer) {
        push_char(out, 'N');
    }
    push_char(out, '\'');
    let ghost before = out@;
    let v = chars_of(s);
    for i in 0..v.len()
        invariant
            out@ == before + escape_quotes(v@.subrange(0, i as int)),
    {
        assert(v@.subrange(0, i + 1).drop_last() =~= v@.subrange(0, i as int));
        if v[i] == '\'' {
            push_char(out, '\'');
            push_char(out, '\'');
        } else {
            push_char(out, v[i]);
        }
        assert(out@ =~= before + escape_quotes(v@.subrange(0, i + 1)));
    }
    assert(v@.subrange(0, v@.len() as int) =~= v@);
    push_char(out, '\'');
    proof { reveal_strlit("N"); }
    assert(out@ =~= start + string_literal(s@, *db));
}

fn push_sql_literal(out: &mut String, v: &JsonValue, db: &DatabaseType)
    ensures
        final(out)@ == old(out)@ + sql_literal(v@, *db),
{
    match v {
        JsonValue::Null => push_str(out, "NULL"),
        JsonValue::Bool(b) => if *b {
            push_str(out, "TRUE")
        } else {
            push_str(out, "FALSE")
        },
        JsonValue::Number(n) => push_str(out, n.text.as_str()),
        JsonValue::String(s) => push_string_literal(out, s.as_str(), db),
        JsonValue::Array(_) | JsonValue::Object(_) => {
            let text = json_to_compact_string(v);
            push_string_literal(out, text.as_str(), db);
        },
    }
}

/// The value of a row at a source index, null past its end.
pub open spec fn row_cell(row: Seq<JsonModel>, i: int) -> JsonModel {
    if 0 <= i < row.len() { row[i] } else { JsonModel::Null }
}

/// The parenthesized values of one row, taken at the mapped source indexes.
pub open spec fn row_tuple(row: Seq<JsonModel>, sources: Seq<usize>, db: DatabaseType) -> Seq<char> {
    "("@ + join(Seq::new(sources.len(), |k: int| sql_literal(row_cell(row, sources[k] as int), db)), ", "@) + ")"@
}

/// `INSERT INTO table (columns) VALUES` with one tuple per row.
pub open spec fn insert_sql(
    table: Seq<char>,
    schema: Seq<char>,
    targets: Seq<Seq<char>>,
    sources: Seq<usize>,
    rows: Seq<Seq<JsonModel>>,
    db: DatabaseType,
) -> Seq<char> {
    "INSERT INTO "@ + spec_qualified_table(table, schema, db) + " ("@ + join(
        Seq::new(targets.len(), |k: int| spec_quote_identifier(targets[k], db)),
        ", "@,
    ) + ") VALUES\n"@ + join(Seq::new(rows.len(), |i: int| row_tuple(rows[i], sources, db)), ",\n"@)
}

fn row_tuple_exec(row: &Vec<JsonValue>, sources: &Vec<usize>, db: &DatabaseType) -> (r: String)
    ensures
        r@ == row_tuple(row@.map_values(|v: JsonValue| v@), sources@, *db),
{
    let ghost model = row@.map_values(|v: JsonValue| v@);
    let ghost parts = Seq::new(sources@.len(), |k: int| sql_literal(row_cell(model, sources@[k] as int), *db));
    let mut out = "(".to_owned();
    let ghost prefix = out@;
    for k in 0..sources.len()
        invariant
            model == row@.map_values(|v: JsonValue| v@),
            parts == Seq::new(sources@.len(), |k: int| sql_literal(row_cell(model, sources@[k] as int), *db)),
            out@ == prefix + join(parts.subrange(0, k as int), ", "@),
    {
        let mut part = String::new();
        let i = sources[k];
        if i < row.len() {
            push_sql_literal(&mut part, &row[i], db);
        } else {
            push_str(&mut part, "NULL");
        }
        assert(part@ == parts[k as int]);
        proof {
            assert(parts.subrange(0, k + 1) =~= parts.subrange(0, k as int).push(parts[k as int]));
            lemma_join_push(parts.subrange(0, k as int), ", "@, parts[k as int]);
        }
        push_join_part(&mut out, sources.len(), k, ", ", part.as_str());
    }
    assert(parts.subrange(0, sources@.len() as int) =~= parts);
    push_char(&mut out, ')');
    proof { reveal_strlit(")"); }
    assert(out@ =~= row_tuple(model, sources@, *db));
    out
}

fn insert_sql_exec(
    table: &str,
    schema: &str,
    targets: &Vec<String>,
    sources: &Vec<usize>,
    rows: &Vec<Vec<JsonValue>>,
    start: usize,
    end: usize,
    db: &DatabaseType,
) -> (r: String)
    requires
        start <= end <= rows@.len(),
    ensures
        r@ == insert_sql(table@, schema@, texts(targets@), sources@, rows_model(rows@).subrange(start as int, end as int), *db),
{
    let ghost tm = texts(targets@);
    let ghost cols = Seq::new(tm.len(), |k: int| spec_quote_identifier(tm[k], *db));
    let mut sql = "INSERT INTO ".to_owned();
    let full = qualified_table(table, schema, db);
    push_str(&mut sql, full.as_str());
    push_str(&mut sql, " (");
    let ghost p1 = sql@;
    for k in 0..targets.len()
        invariant
            tm == texts(targets@),
            cols == Seq::new(tm.len(), |k: int| spec_quote_identifier(tm[k], *db)),
            sql@ == p1 + join(cols.subrange(0, k as int), ", "@),
    {
        let part = quote_identifier(targets[k].as_str(), db);
        proof {
            assert(cols.subrange(0, k + 1) =~= cols.subrange(0, k as int).push(cols[k as int]));
            lemma_join_push(cols.subrange(0, k as int), ", "@, cols[k as int]);
        }
        push_join_part(&mut sql, targets.len(), k, ", ", part.as_str());
    }
    assert(cols.subrange(0, tm.len() as int) =~= cols);
    push_str(&mut sql, ") VALUES\n");
    let ghost p2 = sql@;
    let ghost chunk = rows_model(rows@).subrange(start as int, end as int);
    let ghost tuples = Seq::new(chunk.len(), |i: int| row_tuple(chunk[i], sources@, *db));
    for i in start..end
        invariant
            start <= end <= rows@.len(),
            chunk == rows_model(rows@).subrange(start as int, end as int),
            tuples == Seq::new(chunk.len(), |i: int| row_tuple(chunk[i], sources@, *db)),
            sql@ == p2 + join(tuples.subrange(0, i - start), ",\n"@),
    {
        let part = row_tuple_exec(&rows[i], sources, db);
        assert(chunk[i - start] == rows@[i as int]@.map_values(|v: JsonValue| v@));
        proof {
            assert(tuples.subrange(0, i + 1 - start) =~= tuples.subrange(0, i - start).push(tuples[i - start]));
            lemma_join_push(tuples.subrange(0, i - start), ",\n"@, tuples[i - start]);
        }
        push_join_part(&mut sql, end - start, i - start, ",\n", part.as_str());
    }
    assert(tuples.subrange(0, end - start) =~= tuples);
    assert(sql@ =~= insert_sql(table@, schema@, tm, sources@, chunk, *db));
    sql
}

/// The rows split into consecutive chunks of `size` rows, the last one shorter.
pub open spec fn chunks(rows: Seq<Seq<JsonModel>>, size: nat) -> Seq<Seq<Seq<JsonModel>>>
    recommends
        size > 0,
    decreases rows.len(),
{
    if rows.len() == 0 || size == 0 {
        Seq::empty()
    } else if rows.len() <= size {
        seq![rows]
    } else {
        seq![rows.take(size as int)] + chunks(rows.skip(size as int), size)
    }
}

/// Splitting rows into batches loses, repeats and reorders nothing: the batches put
/// back together are the rows, and each batch holds between one and `size` rows.
pub proof fn lemma_chunks_partition(rows: Seq<Seq<JsonModel>>, size: nat)
    requires
        size > 0,
    ensures
        chunks(rows, size).flatten() == rows,
        forall|i: int|
            0 <= i < chunks(rows, size).len() ==> 0 < (#[trigger] chunks(rows, size)[i]).len() <= size,
    decreases rows.len(),
{
    let c = chunks(rows, size);
    if rows.len() == 0 {
    } else if rows.len() <= size {
        assert(c.first() == rows);
        assert(c.drop_first() =~= Seq::<Seq<Seq<JsonModel>>>::empty());
        assert(c.drop_first().flatten() =~= Seq::<Seq<JsonModel>>::empty());
        assert(c.flatten() =~= rows);
    } else {
        let rest = chunks(rows.skip(size as int), size);
        lemma_chunks_partition(rows.skip(size as int), size);
        assert(c.first() == rows.take(size as int));
        assert(c.drop_first() =~= rest);
        assert(c.flatten() =~= rows.take(size as int) + rest.flatten());
        assert(rows.take(size as int) + rows.skip(size as int) =~= rows);
        assert forall|i: int| 0 <= i < c.len() implies 0 < (#[trigger] c[i]).len() <= size by {
            if i > 0 {
                assert(c[i] == rest[i - 1]);
            }
        }
    }
}

/// Batch `i` holds rows `i * size` up to `(i + 1) * size` (or the end), and there are as
/// many batches as `size` goes into the row count, rounded up.
pub proof fn lemma_chunks_are_slices(rows: Seq<Seq<JsonModel>>, size: nat)
    requires
        size > 0,
    ensures
        chunks(rows, size).len() == (rows.len() + size - 1) / (size as int),
        forall|i: int|
            0 <= i < chunks(rows, size).len() ==> #[trigger] chunks(rows, size)[i] == rows.subrange(
                i * size,
                if (i + 1) * size < rows.len() {
                    (i + 1) * size
                } else {
                    rows.len() as int
                },
            ),
    decreases rows.len(),
{
    let c = chunks(rows, size);
    let len = rows.len() as int;
    let sz = size as int;
    if rows.len() == 0 {
        assert((len + sz - 1) / sz == 0) by (nonlinear_arith)
            requires
                len == 0,
                sz > 0,
        ;
    } else if rows.len() <= size {
        assert((len + sz - 1) / sz == 1) by (nonlinear_arith)
            requires
                0 < len <= sz,
        ;
        assert(c[0] == rows);
        assert(rows.subrange(0, len) =~= rows);
    } else {
        let tail = rows.skip(sz);
        let rest = chunks(tail, size);
        lemma_chunks_are_slices(tail, size);
        assert(c =~= seq![rows.take(sz)] + rest);
        assert((len + sz - 1) / sz == (len - sz + sz - 1) / sz + 1) by (nonlinear_arith)
            requires
                len > sz > 0,
        {
            assert(len + sz - 1 == (len - sz + sz - 1) + sz);
        }
        assert forall|i: int| 0 <= i < c.len() implies #[trigger] c[i] == rows.subrange(
            i * sz,
            if (i + 1) * sz < len {
                (i + 1) * sz
            } else {
                len
            },
        ) by {
            if i == 0 {
                assert(c[0] == rows.take(sz));
                assert(rows.take(sz) =~= rows.subrange(0, sz));
                assert(0 * sz == 0 && 1 * sz == sz) by (nonlinear_arith);
            } else {
                let j = i - 1;
                let tl = tail.len() as int;
                assert(c[i] == rest[j]);
                assert(i * sz == j * sz + sz && (i + 1) * sz == (j + 1) * sz + sz) by (nonlinear_arith)
                    requires
                        j == i - 1,
                ;
                assert(0 <= j * sz < tl) by (nonlinear_arith)
                    requires
                        0 <= j < (tl + sz - 1) / sz,
                        sz > 0,
                        tl > 0,
                ;
                let hi = if (j + 1) * sz < tl {
                    (j + 1) * sz
                } else {
                    tl
                };
                assert(rest[j] == tail.subrange(j * sz, hi));
                assert(tl == len - sz);
                assert(tail.subrange(j * sz, hi) =~= rows.subrange(j * sz + sz, hi + sz));
            }
        }
    }
}

/// Rows per `INSERT`: for Cloudflare D1 the requested size kept within 1 to 100;
/// else the requested size (at least 1), or 1 where the dialect takes one row per
/// `VALUES`.
pub open spec fn effective_batch_size(db: DatabaseType, batch_size: usize) -> nat {
    if db == DatabaseType::CloudflareD1 {
        if batch_size == 0 { 1 } else if batch_size > 100 { 100 } else { batch_size as nat }
    } else if spec_supports_multi_row_insert_values(db) {
        if batch_size == 0 { 1 } else { batch_size as nat }
    } else {
        1
    }
}

/// The `INSERT` batches for the rows of an import, in order: each holds the next
/// `effective_batch_size` rows, their values taken from the mapped source columns.
pub fn build_import_insert_batches(
    data: &ParsedImportFile,
    mappings: &Vec<TableImportColumnMapping>,
    target_column_types: &Vec<(String, String)>,
    table: &str,
    schema: &str,
    db_type: &DatabaseType,
    batch_size: usize,
) -> (r: Result<Vec<ImportSqlBatch>, String>)
    ensures
        ({
            let cols = texts(data.columns@);
            match r {
                Err(e) => !mapping_outcome_ok(cols, mappings@) && mapping_error(cols, mappings@, e@),
                Ok(batches) => {
                    let parts = chunks(rows_model(data.rows@), effective_batch_size(*db_type, batch_size));
                    let targets = Seq::new(mappings@.len(), |k: int| mappings@[k].target_column@);
                    &&& mapping_outcome_ok(cols, mappings@)
                    &&& batches@.len() == parts.len()
                    &&& exists|sources: Seq<usize>|
                        #![trigger sources.len()]
                        sources.len() == mappings@.len() && (forall|k: int|
                            0 <= k < mappings@.len() ==> is_first_index(cols, mappings@[k].source_column@, #[trigger] sources[k] as int))
                            && forall|i: int|
                            0 <= i < parts.len() ==> (#[trigger] batches@[i]).row_count == parts[i].len()
                                && batches@[i].sql@ == insert_sql(table@, schema@, targets, sources, parts[i], *db_type)
                },
            }
        }),
{
    let mapped = match mapping_indexes_for_columns(&data.columns, mappings) {
        Ok(mapped) => mapped,
        Err(e) => return Err(e),
    };
    let mut targets: Vec<String> = Vec::new();
    let mut sources: Vec<usize> = Vec::new();
    for k in 0..mapped.len()
        invariant
            mapped@.len() == mappings@.len(),
            targets@.len() == k,
            sources@.len() == k,
            forall|j: int| 0 <= j < k ==> (#[trigger] targets@[j])@ == mapped@[j].1@,
            forall|j: int| 0 <= j < k ==> #[trigger] sources@[j] == mapped@[j].0,
    {
        targets.push(mapped[k].1.clone());
        sources.push(mapped[k].0);
    }
    let ghost names = Seq::new(mappings@.len(), |k: int| mappings@[k].target_column@);
    assert(texts(targets@) =~= names);
    let size: usize = if *db_type == DatabaseType::CloudflareD1 {
        if batch_size == 0 { 1 } else if batch_size > 100 { 100 } else { batch_size }
    } else if supports_multi_row_insert_values(db_type) {
        if batch_size == 0 { 1 } else { batch_size }
    } else {
        1
    };
    let ghost all = rows_model(data.rows@);
    let n = data.rows.len();
    let mut batches: Vec<ImportSqlBatch> = Vec::new();
    let mut start: usize = 0;
    let ghost mut done: Seq<Seq<Seq<JsonModel>>> = Seq::empty();
    assert(all.skip(0) =~= all);
    while start < n
        invariant
            n == data.rows@.len(),
            all == rows_model(data.rows@),
            all.len() == n,
            size >= 1,
            size as nat == effective_batch_size(*db_type, batch_size),
            start <= n,
            chunks(all, size as nat) == done + chunks(all.skip(start as int), size as nat),
            batches@.len() == done.len(),
            texts(targets@) == names,
            forall|i: int|
                0 <= i < done.len() ==> (#[trigger] batches@[i]).row_count == done[i].len() && batches@[i].sql@
                    == insert_sql(table@, schema@, names, sources@, done[i], *db_type),
        decreases n - start,
    {
        let end = if n - start <= size { n } else { start + size };
        let sql = insert_sql_exec(table, schema, &targets, &sources, &data.rows, start, end, db_type);
        proof {
            let rest = all.skip(start as int);
            let piece = all.subrange(start as int, end as int);
            if rest.len() <= size {
                assert(rest =~= piece);
                assert(all.skip(end as int).len() == 0);
                assert(chunks(all.skip(end as int), size as nat) =~= Seq::<Seq<Seq<JsonModel>>>::empty());
                assert(chunks(rest, size as nat) =~= seq![piece] + chunks(all.skip(end as int), size as nat));
            } else {
                assert(rest.take(size as int) =~= piece);
                assert(rest.skip(size as int) =~= all.skip(end as int));
            }
            done = done.push(piece);
            assert(done.drop_last() + seq![piece] =~= done);
        }
        batches.push(ImportSqlBatch { sql, row_count: end - start });
        start = end;
    }
    proof {
        assert(all.skip(n as int).len() == 0);
        assert(done =~= chunks(all, size as nat));
        assert forall|k: int| 0 <= k < mappings@.len() implies is_first_index(
            texts(data.columns@),
            mappings@[k].source_column@,
            #[trigger] sources@[k] as int,
        ) by {
            assert(sources@[k] == mapped@[k].0);
        }
    }
    Ok(batches)
}

/// One `INSERT` for the given rows (none when there are no rows), their values taken
/// from the mapped source columns.
pub fn build_import_insert_batch_from_rows(
    rows: &Vec<Vec<JsonValue>>,
    columns: &Vec<String>,
    mappings: &Vec<TableImportColumnMapping>,
    target_column_types: &Vec<(String, String)>,
    table: &str,
    schema: &str,
    db_type: &DatabaseType,
) -> (r: Result<Option<ImportSqlBatch>, String>)
    ensures
        rows@.len() == 0 ==> r == Ok::<Option<ImportSqlBatch>, String>(None),
        rows@.len() > 0 ==> match r {
            Err(e) => !mapping_outcome_ok(texts(columns@), mappings@) && mapping_error(texts(columns@), mappings@, e@),
            Ok(None) => false,
            Ok(Some(batch)) => {
                &&& mapping_outcome_ok(texts(columns@), mappings@)
                &&& batch.row_count == rows@.len()
                &&& exists|sources: Seq<usize>|
                    #![trigger sources.len()]
                    sources.len() == mappings@.len() && (forall|k: int|
                        0 <= k < mappings@.len() ==> is_first_index(texts(columns@), mappings@[k].source_column@, #[trigger] sources[k] as int))
                        && batch.sql@ == insert_sql(
                        table@,
                        schema@,
                        Seq::new(mappings@.len(), |k: int| mappings@[k].target_column@),
                        sources,
                        rows_model(rows@),
                        *db_type,
                    )
            },
        },
{
    if rows.len() == 0 {
        return Ok(None);
    }
    let mapped = match mapping_indexes_for_columns(columns, mappings) {
        Ok(mapped) => mapped,
        Err(e) => return Err(e),
    };
    let mut targets: Vec<String> = Vec::new();
    let mut sources: Vec<usize> = Vec::new();
    for k in 0..mapped.len()
        invariant
            mapped@.len() == mappings@.len(),
            targets@.len() == k,
            sources@.len() == k,
            forall|j: int| 0 <= j < k ==> (#[trigger] targets@[j])@ == mapped@[j].1@,
            forall|j: int| 0 <= j < k ==> #[trigger] sources@[j] == mapped@[j].0,
    {
        targets.push(mapped[k].1.clone());
        sources.push(mapped[k].0);
    }
    let ghost names = Seq::new(mappings@.len(), |k: int| mappings@[k].target_column@);
    assert(texts(targets@) =~= names);
    let sql = insert_sql_exec(table, schema, &targets, &sources, rows, 0, rows.len(), db_type);
    proof {
        assert(rows_model(rows@).subrange(0, rows@.len() as int) =~= rows_model(rows@));
        assert forall|k: int| 0 <= k < mappings@.len() implies is_first_index(
            texts(columns@),
            mappings@[k].source_column@,
            #[trigger] sources@[k] as int,
        ) by {
            assert(sources@[k] == mapped@[k].0);
        }
    }
    Ok(Some(ImportSqlBatch { sql, row_count: rows.len() }))
}

} // verus!

//! Choosing column types for a table created from imported data.
use vstd::prelude::*;
use crate::dialect::DatabaseType;
use crate::json::{JsonModel, JsonValue};
use crate::text::{
    all_digits, chars_contain, chars_of, digits_value, is_digit, parse_unsigned, parse_unsigned_chars,
    trim, trim_bounds,
};

verus! {

/// The type that a column's values suggest.
#[derive(Debug, Clone, Copy, PartialEq, Eq, Structural)]
pub enum ImportInferredType {
    Boolean,
    Integer,
    Decimal,
    Date,
    Timestamp,
    Json,
    Text,
}

/// The type of a column holding values of both types: equal types stay, integers
/// and decimals give decimals, dates and timestamps give timestamps, anything else text.
pub open spec fn spec_merge(current: Option<ImportInferredType>, next: ImportInferredType) -> ImportInferredType {
    match current {
        None => next,
        Some(c) => if c == next {
            c
        } else if (c is Integer && next is Decimal) || (c is Decimal && next is Integer) {
            ImportInferredType::Decimal
        } else if (c is Date && next is Timestamp) || (c is Timestamp && next is Date) {
            ImportInferredType::Timestamp
        } else {
            ImportInferredType::Text
        },
    }
}

pub fn merge_inferred_type(current: Option<ImportInferredType>, next: ImportInferredType) -> (r: ImportInferredType)
    ensures
        r == spec_merge(current, next),
{
    let current = match current {
        None => return next,
        Some(c) => c,
    };
    if current == next {
        return current;
    }
    match (current, next) {
        (ImportInferredType::Text, _) | (_, ImportInferredType::Text) => ImportInferredType::Text,
        (ImportInferredType::Integer, ImportInferredType::Decimal)
        | (ImportInferredType::Decimal, ImportInferredType::Integer) => ImportInferredType::Decimal,
        (ImportInferredType::Date, ImportInferredType::Timestamp)
        | (ImportInferredType::Timestamp, ImportInferredType::Date) => ImportInferredType::Timestamp,
        _ => ImportInferredType::Text,
    }
}

/// Text is the widest type: merging anything into it gives text.
pub proof fn lemma_merge_text_absorbs(next: ImportInferredType)
    ensures
        spec_merge(Some(ImportInferredType::Text), next) == ImportInferredType::Text,
{
}

/// Merging is symmetric.
pub proof fn lemma_merge_commutes(a: ImportInferredType, b: ImportInferredType)
    ensures
        spec_merge(Some(a), b) == spec_merge(Some(b), a),
{
}

/// Merging is associative: with commutativity, the type a column is inferred to have
/// does not depend on the order in which its values are merged.
pub proof fn lemma_merge_associative(a: ImportInferredType, b: ImportInferredType, c: ImportInferredType)
    ensures
        spec_merge(Some(spec_merge(Some(a), b)), c) == spec_merge(Some(a), spec_merge(Some(b), c)),
{
}

/// After removing leading `+` and `-` signs, a zero followed by another digit.
pub open spec fn spec_has_numeric_leading_zero(s: Seq<char>) -> bool {
    let u = s.subrange(sign_prefix_len(s) as int, s.len() as int);
    u.len() > 1 && u[0] == '0' && is_digit(u[1])
}

/// Number of leading `+`/`-` characters.
pub open spec fn sign_prefix_len(s: Seq<char>) -> nat
    decreases s.len(),
{
    if s.len() > 0 && (s[0] == '+' || s[0] == '-') {
        1 + sign_prefix_len(s.drop_first())
    } else {
        0
    }
}

fn sign_prefix_end(v: &Vec<char>) -> (r: usize)
    ensures
        r == sign_prefix_len(v@),
        r <= v.len(),
{
    let mut i: usize = 0;
    assert(v@.subrange(0, v@.len() as int) =~= v@);
    while i < v.len() && (v[i] == '+' || v[i] == '-')
        invariant
            i <= v.len(),
            sign_prefix_len(v@) == i + sign_prefix_len(v@.subrange(i as int, v@.len() as int)),
        decreases v.len() - i,
    {
        assert(v@.subrange(i as int, v@.len() as int).drop_first() =~= v@.subrange(i + 1, v@.len() as int));
        i = i + 1;
    }
    proof {
        let t = v@.subrange(i as int, v@.len() as int);
        if t.len() > 0 {
            assert(t[0] == v@[i as int]);
        }
    }
    i
}

pub fn has_numeric_leading_zero(value: &str) -> (r: bool)
    ensures
        r == spec_has_numeric_leading_zero(value@),
{
    let v = chars_of(value);
    let s = sign_prefix_end(&v);
    if v.len() - s > 1 {
        v[s] == '0' && '0' <= v[s + 1] && v[s + 1] <= '9'
    } else {
        false
    }
}

/// What `str::parse::<i64>` or `str::parse::<u64>` accepts: decimal digits with an
/// optional sign, `-` only for values down to `i64::MIN`, else up to `u64::MAX`.
pub open spec fn spec_is_integer_text(s: Seq<char>) -> bool {
    if s.len() > 0 && s[0] == '-' {
        let body = s.drop_first();
        body.len() > 0 && all_digits(body) && digits_value(body) <= 0x8000_0000_0000_0000
    } else {
        parse_unsigned(s, 0xffff_ffff_ffff_ffff) is Some
    }
}

pub fn is_integer_text(v: &Vec<char>) -> (r: bool)
    ensures
        r == spec_is_integer_text(v@),
{
    if v.len() > 0 && v[0] == '-' {
        let body = v.as_slice().split_at(1).1;
        assert(body@ =~= v@.drop_first());
        if body.len() == 0 {
            return false;
        }
        let parsed = parse_unsigned_chars(body, 0x8000_0000_0000_0000);
        proof {
            if body@.len() > 0 && body@[0] == '+' {
                assert(!crate::text::is_digit(body@[0]));
            }
        }
        parsed.is_some() && body[0] != '+'
    } else {
        parse_unsigned_chars(v.as_slice(), 0xffff_ffff_ffff_ffff).is_some()
    }
}

/// Characters that can make up a decimal literal once `inf`/`nan` words are ruled out.
pub open spec fn is_number_char(c: char) -> bool {
    is_digit(c) || c == '+' || c == '-' || c == '.' || c == 'e' || c == 'E'
}

fn all_number_chars(v: &[char]) -> (r: bool)
    ensures
        r == (forall|i: int| 0 <= i < v@.len() ==> is_number_char(#[trigger] v@[i])),
{
    for i in 0..v.len()
        invariant
            forall|j: int| 0 <= j < i ==> is_number_char(#[trigger] v@[j]),
    {
        let c = v[i];
        if !(('0' <= c && c <= '9') || c == '+' || c == '-' || c == '.' || c == 'e' || c == 'E') {
            return false;
        }
    }
    true
}

/// A finite decimal literal: only number characters, and JSON5 reads it. On such
/// text without a leading zero, JSON5's grammar is that of `str::parse::<f64>`, and
/// JSON5 rejects a literal whose value is not finite; so this is the test
/// "`parse::<f64>()` gives a finite number".
pub open spec fn spec_is_finite_decimal_text(s: Seq<char>) -> bool {
    (forall|i: int| 0 <= i < s.len() ==> is_number_char(#[trigger] s[i])) && crate::json::json5_normalized(s) is Ok
}

fn is_finite_decimal_text(s: &str) -> (r: bool)
    ensures
        r == spec_is_finite_decimal_text(s@),
{
    let v = chars_of(s);
    all_number_chars(v.as_slice()) && crate::json::normalize_json5(s).is_ok()
}

/// Whether `chrono::DateTime::parse_from_rfc3339` accepts the text.
pub uninterp spec fn rfc3339_text(s: Seq<char>) -> bool;

/// Whether `chrono::NaiveDateTime::parse_from_str(text, format)` accepts the text.
pub uninterp spec fn naive_datetime_text(s: Seq<char>, format: Seq<char>) -> bool;

/// Whether `chrono::NaiveDate::parse_from_str(text, format)` accepts the text.
pub uninterp spec fn naive_date_text(s: Seq<char>, format: Seq<char>) -> bool;

/// Calls `chrono::DateTime::parse_from_rfc3339`. The contract claims only that the
/// answer is a function of the text.
#[verifier::external_body]
fn parses_rfc3339(s: &str) -> (r: bool)
    ensures
        r == rfc3339_text(s@),
{
    chrono::DateTime::parse_from_rfc3339(s).is_ok()
}

/// Calls `chrono::NaiveDateTime::parse_from_str`. The contract claims only that the
/// answer is a function of the text and the format.
#[verifier::external_body]
fn parses_naive_datetime(s: &str, format: &str) -> (r: bool)
    ensures
        r == naive_datetime_text(s@, format@),
{
    chrono::NaiveDateTime::parse_from_str(s, format).is_ok()
}

/// Calls `chrono::NaiveDate::parse_from_str`. The contract claims only that the
/// answer is a function of the text and the format.
#[verifier::external_body]
fn parses_naive_date(s: &str, format: &str) -> (r: bool)
    ensures
        r == naive_date_text(s@, format@),
{
    chrono::NaiveDate::parse_from_str(s, format).is_ok()
}

pub open spec fn spec_is_likely_date(s: Seq<char>) -> bool {
    naive_date_text(s, "%Y-%m-%d"@) || naive_date_text(s, "%Y/%m/%d"@)
}

pub open spec fn spec_is_likely_timestamp(s: Seq<char>) -> bool {
    rfc3339_text(s) || naive_datetime_text(s, "%Y-%m-%d %H:%M:%S%.f"@) || naive_datetime_text(
        s,
        "%Y-%m-%dT%H:%M:%S%.f"@,
    ) || naive_datetime_text(s, "%Y/%m/%d %H:%M:%S%.f"@) || naive_datetime_text(s, "%Y/%m/%dT%H:%M:%S%.f"@)
}

fn is_likely_date(value: &str) -> (r: bool)
    ensures
        r == spec_is_likely_date(value@),
{
    parses_naive_date(value, "%Y-%m-%d") || parses_naive_date(value, "%Y/%m/%d")
}

fn is_likely_timestamp(value: &str) -> (r: bool)
    ensures
        r == spec_is_likely_timestamp(value@),
{
    parses_rfc3339(value) || parses_naive_datetime(value, "%Y-%m-%d %H:%M:%S%.f") || parses_naive_datetime(
        value,
        "%Y-%m-%dT%H:%M:%S%.f",
    ) || parses_naive_datetime(value, "%Y/%m/%d %H:%M:%S%.f") || parses_naive_datetime(
        value,
        "%Y/%m/%dT%H:%M:%S%.f",
    )
}

/// The type a text value suggests, judged on its trimmed form: empty text is text;
/// then timestamps, dates; then, unless a zero leads the digits, integers and
/// (with a `.`, `e` or `E`) finite decimals; anything else is text.
pub open spec fn spec_infer_string_type(value: Seq<char>) -> ImportInferredType {
    let v = trim(value);
    if v.len() == 0 {
        ImportInferredType::Text
    } else if spec_is_likely_timestamp(v) {
        ImportInferredType::Timestamp
    } else if spec_is_likely_date(v) {
        ImportInferredType::Date
    } else if !spec_has_numeric_leading_zero(v) && spec_is_integer_text(v) {
        ImportInferredType::Integer
    } else if !spec_has_numeric_leading_zero(v) && (v.contains('.') || v.contains('e') || v.contains('E'))
        && spec_is_finite_decimal_text(v) {
        ImportInferredType::Decimal
    } else {
        ImportInferredType::Text
    }
}

pub fn infer_string_type(value: &str) -> (r: ImportInferredType)
    ensures
        r == spec_infer_string_type(value@),
{
    let all = chars_of(value);
    let (a, b) = trim_bounds(&all);
    let v = all.as_slice().split_at(b).0.split_at(a).1;
    assert(v@ =~= trim(value@));
    let text = crate::text::string_of(v);
    let vv = chars_of(text.as_str());
    if vv.len() == 0 {
        return ImportInferredType::Text;
    }
    if is_likely_timestamp(text.as_str()) {
        return ImportInferredType::Timestamp;
    }
    if is_likely_date(text.as_str()) {
        return ImportInferredType::Date;
    }
    if !has_numeric_leading_zero(text.as_str()) {
        if is_integer_text(&vv) {
            return ImportInferredType::Integer;
        }
        if (chars_contain(vv.as_slice(), '.') || chars_contain(vv.as_slice(), 'e') || chars_contain(vv.as_slice(), 'E'))
            && is_finite_decimal_text(text.as_str()) {
            return ImportInferredType::Decimal;
        }
    }
    ImportInferredType::Text
}

/// The type one value suggests; `None` for null.
pub open spec fn spec_infer_value_type(value: JsonModel) -> Option<ImportInferredType> {
    match value {
        JsonModel::Null => None,
        JsonModel::Bool(_) => Some(ImportInferredType::Boolean),
        JsonModel::Number(_, is_integer) => if is_integer {
            Some(ImportInferredType::Integer)
        } else {
            Some(ImportInferredType::Decimal)
        },
        JsonModel::Str(s) => Some(spec_infer_string_type(s)),
        JsonModel::Array(_) | JsonModel::Object(_) => Some(ImportInferredType::Json),
    }
}

pub fn infer_value_type(value: &JsonValue) -> (r: Option<ImportInferredType>)
    ensures
        r == spec_infer_value_type(value@),
{
    match value {
        JsonValue::Null => None,
        JsonValue::Bool(_) => Some(ImportInferredType::Boolean),
        JsonValue::Number(n) => if n.is_integer {
            Some(ImportInferredType::Integer)
        } else {
            Some(ImportInferredType::Decimal)
        },
        JsonValue::String(s) => Some(infer_string_type(s.as_str())),
        JsonValue::Array(_) | JsonValue::Object(_) => Some(ImportInferredType::Json),
    }
}

/// The value a row holds at `index`, or null past its end.
pub open spec fn cell_at(row: Seq<JsonModel>, index: int) -> JsonModel {
    if 0 <= index < row.len() {
        row[index]
    } else {
        JsonModel::Null
    }
}

/// The merged type of column `index` over the first `n` rows; `None` while all are null.
pub open spec fn spec_fold_column_type(rows: Seq<Seq<JsonModel>>, index: int, n: nat) -> Option<ImportInferredType>
    decreases n,
{
    if n == 0 {
        None
    } else {
        let before = spec_fold_column_type(rows, index, (n - 1) as nat);
        match spec_infer_value_type(cell_at(rows[n - 1], index)) {
            None => before,
            Some(t) => Some(spec_merge(before, t)),
        }
    }
}

/// The model of a table of values, row by row.
pub open spec fn rows_model(rows: Seq<Vec<JsonValue>>) -> Seq<Seq<JsonModel>> {
    rows.map_values(|row: Vec<JsonValue>| row@.map_values(|v: JsonValue| v@))
}

/// The merged type of the column at `source_index` over all rows, text when every
/// value is null.
pub open spec fn spec_infer_column_type(rows: Seq<Seq<JsonModel>>, index: int) -> ImportInferredType {
    match spec_fold_column_type(rows, index, rows.len()) {
        Some(t) => t,
        None => ImportInferredType::Text,
    }
}

proof fn lemma_fold_text_stays(rows: Seq<Seq<JsonModel>>, index: int, n: nat, m: nat)
    requires
        n <= m,
        spec_fold_column_type(rows, index, n) == Some(ImportInferredType::Text),
    ensures
        spec_fold_column_type(rows, index, m) == Some(ImportInferredType::Text),
    decreases m - n,
{
    if n < m {
        lemma_fold_text_stays(rows, index, n, (m - 1) as nat);
    }
}

pub fn infer_column_type(rows: &Vec<Vec<JsonValue>>, source_index: usize) -> (r: ImportInferredType)
    ensures
        r == spec_infer_column_type(rows_model(rows@), source_index as int),
{
    let ghost model = rows_model(rows@);
    let mut inferred: Option<ImportInferredType> = None;
    let mut i: usize = 0;
    while i < rows.len()
        invariant_except_break
            i <= rows.len(),
            model == rows_model(rows@),
            inferred == spec_fold_column_type(model, source_index as int, i as nat),
        ensures
            inferred == spec_fold_column_type(model, source_index as int, rows@.len()),
        decreases rows.len() - i,
    {
        let row = &rows[i];
        let value_type = if source_index < row.len() {
            infer_value_type(&row[source_index])
        } else {
            None
        };
        assert(model[i as int] == row@.map_values(|v: JsonValue| v@));
        assert(value_type == spec_infer_value_type(cell_at(model[i as int], source_index as int)));
        match value_type {
            None => {},
            Some(t) => {
                inferred = Some(merge_inferred_type(inferred, t));
            },
        }
        i = i + 1;
        if inferred == Some(ImportInferredType::Text) {
            proof {
                lemma_fold_text_stays(model, source_index as int, i as nat, rows@.len());
            }
            break;
        }
    }
    match inferred {
        Some(t) => t,
        None => ImportInferredType::Text,
    }
}


pub open spec fn is_sqlite_family(db: DatabaseType) -> bool {
    db is Sqlite || db is Rqlite || db is Turso || db is CloudflareD1
}

pub open spec fn is_oracle_family(db: DatabaseType) -> bool {
    db is Oracle || db is OceanbaseOracle || db is Dameng
}

pub open spec fn is_mysql_family(db: DatabaseType) -> bool {
    db is Mysql || db is Doris || db is StarRocks || db is Goldendb || db is Sundb || db is Databend
}

pub open spec fn is_postgres_family(db: DatabaseType) -> bool {
    db is Postgres || db is Gaussdb || db is OpenGauss || db is Kingbase || db is Highgo || db is Kwdb
        || db is Vastbase
}

pub open spec fn spec_text_data_type(db: DatabaseType) -> Seq<char> {
    if db is SqlServer {
        "NVARCHAR(MAX)"@
    } else if is_oracle_family(db) {
        "CLOB"@
    } else if db is ClickHouse {
        "String"@
    } else if db is Hive || db is Trino || db is PrestoSql || db is Databricks {
        "STRING"@
    } else {
        "TEXT"@
    }
}

pub fn text_data_type(db_type: &DatabaseType) -> (r: &'static str)
    ensures
        r@ == spec_text_data_type(*db_type),
{
    match db_type {
        DatabaseType::SqlServer => "NVARCHAR(MAX)",
        DatabaseType::Oracle | DatabaseType::OceanbaseOracle | DatabaseType::Dameng => "CLOB",
        DatabaseType::ClickHouse => "String",
        DatabaseType::Hive | DatabaseType::Trino | DatabaseType::PrestoSql | DatabaseType::Databricks => "STRING",
        _ => "TEXT",
    }
}

pub open spec fn spec_integer_data_type(db: DatabaseType) -> Seq<char> {
    if is_sqlite_family(db) {
        "INTEGER"@
    } else if is_oracle_family(db) {
        "NUMBER(19)"@
    } else if db is ClickHouse {
        "Int64"@
    } else {
        "BIGINT"@
    }
}

pub fn integer_data_type(db_type: &DatabaseType) -> (r: &'static str)
    ensures
        r@ == spec_integer_data_type(*db_type),
{
    match db_type {
        DatabaseType::Sqlite | DatabaseType::Rqlite | DatabaseType::Turso | DatabaseType::CloudflareD1 => "INTEGER",
        DatabaseType::Oracle | DatabaseType::OceanbaseOracle | DatabaseType::Dameng => "NUMBER(19)",
        DatabaseType::ClickHouse => "Int64",
        _ => "BIGINT",
    }
}

pub open spec fn spec_decimal_data_type(db: DatabaseType) -> Seq<char> {
    if is_postgres_family(db) || db is Redshift {
        "DOUBLE PRECISION"@
    } else if is_sqlite_family(db) {
        "REAL"@
    } else if is_oracle_family(db) {
        "BINARY_DOUBLE"@
    } else if db is ClickHouse {
        "Float64"@
    } else {
        "DOUBLE"@
    }
}

pub fn decimal_data_type(db_type: &DatabaseType) -> (r: &'static str)
    ensures
        r@ == spec_decimal_data_type(*db_type),
{
    match db_type {
        DatabaseType::Postgres | DatabaseType::Gaussdb | DatabaseType::OpenGauss | DatabaseType::Redshift
        | DatabaseType::Kingbase | DatabaseType::Highgo | DatabaseType::Kwdb | DatabaseType::Vastbase => "DOUBLE PRECISION",
        DatabaseType::Sqlite | DatabaseType::Rqlite | DatabaseType::Turso | DatabaseType::CloudflareD1 => "REAL",
        DatabaseType::Oracle | DatabaseType::OceanbaseOracle | DatabaseType::Dameng => "BINARY_DOUBLE",
        DatabaseType::ClickHouse => "Float64",
        _ => "DOUBLE",
    }
}

pub open spec fn spec_boolean_data_type(db: DatabaseType) -> Seq<char> {
    if is_mysql_family(db) {
        "TINYINT(1)"@
    } else if db is SqlServer {
        "BIT"@
    } else if is_sqlite_family(db) {
        "INTEGER"@
    } else if is_oracle_family(db) {
        "NUMBER(1)"@
    } else if db is ClickHouse {
        "UInt8"@
    } else {
        "BOOLEAN"@
    }
}

pub fn boolean_data_type(db_type: &DatabaseType) -> (r: &'static str)
    ensures
        r@ == spec_boolean_data_type(*db_type),
{
    match db_type {
        DatabaseType::Mysql | DatabaseType::Doris | DatabaseType::StarRocks | DatabaseType::Goldendb
        | DatabaseType::Sundb | DatabaseType::Databend => "TINYINT(1)",
        DatabaseType::SqlServer => "BIT",
        DatabaseType::Sqlite | DatabaseType::Rqlite | DatabaseType::Turso | DatabaseType::CloudflareD1 => "INTEGER",
        DatabaseType::Oracle | DatabaseType::OceanbaseOracle | DatabaseType::Dameng => "NUMBER(1)",
        DatabaseType::ClickHouse => "UInt8",
        _ => "BOOLEAN",
    }
}

pub open spec fn spec_date_data_type(db: DatabaseType) -> Seq<char> {
    if is_sqlite_family(db) {
        "TEXT"@
    } else if db is ClickHouse {
        "Date"@
    } else {
        "DATE"@
    }
}

pub fn date_data_type(db_type: &DatabaseType) -> (r: &'static str)
    ensures
        r@ == spec_date_data_type(*db_type),
{
    match db_type {
        DatabaseType::Sqlite | DatabaseType::Rqlite | DatabaseType::Turso | DatabaseType::CloudflareD1 => "TEXT",
        DatabaseType::ClickHouse => "Date",
        _ => "DATE",
    }
}

pub open spec fn spec_timestamp_data_type(db: DatabaseType) -> Seq<char> {
    if is_mysql_family(db) {
        "DATETIME"@
    } else if db is SqlServer {
        "DATETIME2"@
    } else if is_sqlite_family(db) {
        "TEXT"@
    } else if db is ClickHouse {
        "DateTime64"@
    } else {
        "TIMESTAMP"@
    }
}

pub fn timestamp_data_type(db_type: &DatabaseType) -> (r: &'static str)
    ensures
        r@ == spec_timestamp_data_type(*db_type),
{
    match db_type {
        DatabaseType::Mysql | DatabaseType::Doris | DatabaseType::StarRocks | DatabaseType::Goldendb
        | DatabaseType::Sundb | DatabaseType::Databend => "DATETIME",
        DatabaseType::SqlServer => "DATETIME2",
        DatabaseType::Sqlite | DatabaseType::Rqlite | DatabaseType::Turso | DatabaseType::CloudflareD1 => "TEXT",
        DatabaseType::ClickHouse => "DateTime64",
        _ => "TIMESTAMP",
    }
}

pub open spec fn spec_json_data_type(db: DatabaseType) -> Seq<char> {
    if is_postgres_family(db) {
        "JSONB"@
    } else if db is Mysql || db is Databend {
        "JSON"@
    } else {
        spec_text_data_type(db)
    }
}

pub fn json_data_type(db_type: &DatabaseType) -> (r: &'static str)
    ensures
        r@ == spec_json_data_type(*db_type),
{
    match db_type {
        DatabaseType::Postgres | DatabaseType::Gaussdb | DatabaseType::OpenGauss | DatabaseType::Kingbase
        | DatabaseType::Highgo | DatabaseType::Kwdb | DatabaseType::Vastbase => "JSONB",
        DatabaseType::Mysql | DatabaseType::Databend => "JSON",
        _ => text_data_type(db_type),
    }
}

/// The column type, in the dialect of `db`, for an inferred type.
pub open spec fn spec_import_data_type(inferred: ImportInferredType, db: DatabaseType) -> Seq<char> {
    match inferred {
        ImportInferredType::Boolean => spec_boolean_data_type(db),
        ImportInferredType::Integer => spec_integer_data_type(db),
        ImportInferredType::Decimal => spec_decimal_data_type(db),
        ImportInferredType::Date => spec_date_data_type(db),
        ImportInferredType::Timestamp => spec_timestamp_data_type(db),
        ImportInferredType::Json => spec_json_data_type(db),
        ImportInferredType::Text => spec_text_data_type(db),
    }
}

pub fn import_data_type(inferred_type: ImportInferredType, db_type: &DatabaseType) -> (r: String)
    ensures
        r@ == spec_import_data_type(inferred_type, *db_type),
{
    let s = match inferred_type {
        ImportInferredType::Boolean => boolean_data_type(db_type),
        ImportInferredType::Integer => integer_data_type(db_type),
        ImportInferredType::Decimal => decimal_data_type(db_type),
        ImportInferredType::Date => date_data_type(db_type),
        ImportInferredType::Timestamp => timestamp_data_type(db_type),
        ImportInferredType::Json => json_data_type(db_type),
        ImportInferredType::Text => text_data_type(db_type),
    };
    s.to_owned()
}


/// A value is inferred to be a date exactly when its trimmed text is not empty, reads
/// as a calendar date (`%Y-%m-%d` or `%Y/%m/%d`) and does not read as a timestamp.
pub proof fn lemma_dates_are_inferred_as_dates(value: Seq<char>)
    ensures
        ({
            let v = trim(value);
            let is_date = naive_date_text(v, "%Y-%m-%d"@) || naive_date_text(v, "%Y/%m/%d"@);
            let is_timestamp = rfc3339_text(v) || naive_datetime_text(v, "%Y-%m-%d %H:%M:%S%.f"@)
                || naive_datetime_text(v, "%Y-%m-%dT%H:%M:%S%.f"@) || naive_datetime_text(v, "%Y/%m/%d %H:%M:%S%.f"@)
                || naive_datetime_text(v, "%Y/%m/%dT%H:%M:%S%.f"@);
            spec_infer_string_type(value) == ImportInferredType::Date <==> (v.len() > 0 && is_date && !is_timestamp)
        }),
{
}


/// A value is inferred to be a timestamp exactly when its trimmed text is not empty
/// and reads as an RFC 3339 date-time or as a date and time in one of the accepted
/// layouts; empty text is text.
pub proof fn lemma_timestamps_are_inferred_as_timestamps(value: Seq<char>)
    ensures
        ({
            let v = trim(value);
            let is_timestamp = rfc3339_text(v) || naive_datetime_text(v, "%Y-%m-%d %H:%M:%S%.f"@)
                || naive_datetime_text(v, "%Y-%m-%dT%H:%M:%S%.f"@) || naive_datetime_text(v, "%Y/%m/%d %H:%M:%S%.f"@)
                || naive_datetime_text(v, "%Y/%m/%dT%H:%M:%S%.f"@);
            &&& spec_infer_string_type(value) == ImportInferredType::Timestamp <==> (v.len() > 0 && is_timestamp)
            &&& v.len() == 0 ==> spec_infer_string_type(value) == ImportInferredType::Text
        }),
{
}

} // verus!

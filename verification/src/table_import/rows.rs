//! Turning the records of a file into the columns and rows of an import.
use vstd::prelude::*;
use crate::json::{JsonModel, JsonValue};
use crate::table_import::options::{DelimitedParseConfig, TableImportTextEncoding};
use crate::table_import::inference::rows_model;
use crate::table_import::mapping::texts;
use crate::text::{chars_of, dec, push_dec, string_of, trim, trim_bounds};
use crate::table_import::options::{
    TableImportJsonShape, TableImportParseOptions, TableImportSourceFormat, effective_delimited_config,
    default_parse_options, effective_import_row_range_spec, row_options_in_range, row_range_error, spec_delimiter,
};
use crate::table_import::encoding::{
    decode_partial, decode_strict, partial_decoding, resolve_text_encoding_from_bytes, spec_resolve_encoding, strict_decoding,
};

verus! {

/// The columns and (a preview of) the rows read from a file.
#[derive(Debug)]
pub struct ParsedImportFile {
    pub columns: Vec<String>,
    pub rows: Vec<Vec<JsonValue>>,
    pub total_rows: usize,
    pub effective_encoding: Option<TableImportTextEncoding>,
}

/// The name given to the unnamed column at `index` (0-based): `column_1`, `column_2`, ...
pub open spec fn column_name(index: int) -> Seq<char> {
    "column_"@ + dec((index + 1) as nat)
}

fn column_name_exec(index: usize) -> (r: String)
    requires
        index < usize::MAX,
    ensures
        r@ == column_name(index as int),
{
    let mut s = "column_".to_owned();
    push_dec(&mut s, (index + 1) as u64);
    s
}

/// A header's trimmed text, or the generated name when it is blank.
pub open spec fn spec_normalize_header(value: Seq<char>, index: int) -> Seq<char> {
    if trim(value).len() == 0 {
        column_name(index)
    } else {
        trim(value)
    }
}

pub fn normalize_header(value: &str, index: usize) -> (r: String)
    requires
        !(trim(value@).len() == 0 && index == usize::MAX),
    ensures
        r@ == spec_normalize_header(value@, index as int),
{
    let v = chars_of(value);
    let (a, b) = trim_bounds(&v);
    if a == b {
        column_name_exec(index)
    } else {
        string_of(v.as_slice().split_at(b).0.split_at(a).1)
    }
}

/// `s` without the byte-order marks (U+FEFF) at its front.
pub open spec fn strip_bom(s: Seq<char>) -> Seq<char>
    decreases s.len(),
{
    if s.len() > 0 && s[0] == '\u{feff}' {
        strip_bom(s.drop_first())
    } else {
        s
    }
}

fn strip_bom_exec(s: &str) -> (r: String)
    ensures
        r@ == strip_bom(s@),
{
    let v = chars_of(s);
    let mut a: usize = 0;
    assert(v@.subrange(0, v@.len() as int) =~= v@);
    while a < v.len() && v[a] == '\u{feff}'
        invariant
            a <= v.len(),
            strip_bom(v@) == strip_bom(v@.subrange(a as int, v@.len() as int)),
        decreases v.len() - a,
    {
        assert(v@.subrange(a as int, v@.len() as int).drop_first() =~= v@.subrange(a + 1, v@.len() as int));
        a = a + 1;
    }
    proof {
        let t = v@.subrange(a as int, v@.len() as int);
        if t.len() > 0 {
            assert(t[0] == v@[a as int]);
        }
    }
    string_of(v.as_slice().split_at(a).1)
}

/// The value a delimited field gives: trimmed when asked, null when empty and asked.
pub open spec fn spec_csv_value(value: Seq<char>, config: DelimitedParseConfig) -> JsonModel {
    let v = if config.trim_values { trim(value) } else { value };
    if config.empty_string_as_null && v.len() == 0 {
        JsonModel::Null
    } else {
        JsonModel::Str(v)
    }
}

pub fn csv_value_with_config(value: &str, config: DelimitedParseConfig) -> (r: JsonValue)
    ensures
        r@ == spec_csv_value(value@, config),
{
    let v = chars_of(value);
    let text = if config.trim_values {
        let (a, b) = trim_bounds(&v);
        let piece = v.as_slice().split_at(b).0.split_at(a).1;
        assert(piece@ =~= v@.subrange(a as int, b as int));
        string_of(piece)
    } else {
        string_of(v.as_slice())
    };
    if config.empty_string_as_null && chars_of(text.as_str()).len() == 0 {
        JsonValue::Null
    } else {
        JsonValue::String(text)
    }
}

/// A field's value under the default configuration: kept as it is, null when empty.
pub fn csv_value(value: &str) -> (r: JsonValue)
    ensures
        r@ == (if value@.len() == 0 {
            JsonModel::Null
        } else {
            JsonModel::Str(value@)
        }),
{
    csv_value_with_config(
        value,
        DelimitedParseConfig {
            delimiter: 44,
            trim_values: false,
            empty_string_as_null: true,
            row_range: crate::table_import::options::ImportRowRange {
                title_row: Some(1),
                data_start_row: 2,
                last_data_row: None,
            },
        },
    )
}

/// The row a record gives for `n` columns: its fields' values, null past its end.
pub open spec fn spec_record_row(record: Seq<Seq<char>>, n: nat, config: DelimitedParseConfig) -> Seq<JsonModel> {
    Seq::new(n, |i: int| if i < record.len() { spec_csv_value(record[i], config) } else { JsonModel::Null })
}

pub fn delimited_record_to_row(record: &Vec<String>, columns_len: usize, config: DelimitedParseConfig) -> (r: Vec<JsonValue>)
    ensures
        r@.map_values(|v: JsonValue| v@) == spec_record_row(texts(record@), columns_len as nat, config),
{
    let mut row: Vec<JsonValue> = Vec::new();
    for i in 0..columns_len
        invariant
            row@.len() == i,
            forall|j: int| 0 <= j < i ==> (#[trigger] row@[j])@ == spec_record_row(texts(record@), columns_len as nat, config)[j],
    {
        if i < record.len() {
            row.push(csv_value_with_config(record[i].as_str(), config));
        } else {
            row.push(JsonValue::Null);
        }
    }
    assert(row@.map_values(|v: JsonValue| v@) =~= spec_record_row(texts(record@), columns_len as nat, config));
    row
}

/// Header names of a title record.
pub open spec fn spec_headers(record: Seq<Seq<char>>) -> Seq<Seq<char>> {
    Seq::new(record.len(), |i: int| spec_normalize_header(strip_bom(record[i]), i))
}

/// Generated names for `n` columns.
pub open spec fn spec_generated_columns(n: nat) -> Seq<Seq<char>> {
    Seq::new(n, |i: int| column_name(i))
}

pub fn headers_exec(record: &Vec<String>) -> (r: Vec<String>)
    ensures
        texts(r@) == spec_headers(texts(record@)),
{
    let mut out: Vec<String> = Vec::new();
    for i in 0..record.len()
        invariant
            out@.len() == i,
            i <= record.len(),
            forall|j: int| 0 <= j < i ==> (#[trigger] out@[j])@ == spec_headers(texts(record@))[j],
    {
        let stripped = strip_bom_exec(record[i].as_str());
        out.push(normalize_header(stripped.as_str(), i));
    }
    assert(texts(out@) =~= spec_headers(texts(record@)));
    out
}

pub fn generated_columns(n: usize) -> (r: Vec<String>)
    ensures
        texts(r@) == spec_generated_columns(n as nat),
{
    let mut out: Vec<String> = Vec::new();
    for i in 0..n
        invariant
            out@.len() == i,
            forall|j: int| 0 <= j < i ==> (#[trigger] out@[j])@ == column_name(j),
    {
        out.push(column_name_exec(i));
    }
    assert(texts(out@) =~= spec_generated_columns(n as nat));
    out
}

/// Where reading records has got to.
pub ghost struct ScanState {
    pub columns: Seq<Seq<char>>,
    pub rows: Seq<Seq<JsonModel>>,
    pub total: nat,
    pub stopped: bool,
}

/// Reading record number `row_number` (1-based): a title record names the columns;
/// records before the data start are skipped; the first record past the last data
/// row ends the reading; a data record is counted, names the columns when none are
/// named yet, and is kept while fewer than `limit` rows are kept.
pub open spec fn scan_step(
    st: ScanState,
    record: Seq<Seq<char>>,
    row_number: int,
    config: DelimitedParseConfig,
    limit: nat,
) -> ScanState {
    let range = config.row_range;
    if st.stopped {
        st
    } else if range.title_row == Some(row_number as usize) {
        ScanState { columns: spec_headers(record), ..st }
    } else if row_number < range.data_start_row {
        st
    } else if range.last_data_row matches Some(l) && row_number > l {
        ScanState { stopped: true, ..st }
    } else {
        let columns = if st.columns.len() == 0 { spec_generated_columns(record.len()) } else { st.columns };
        ScanState {
            columns,
            rows: if st.rows.len() >= limit { st.rows } else { st.rows.push(spec_record_row(record, columns.len(), config)) },
            total: st.total + 1,
            stopped: false,
        }
    }
}

/// The state after the first `n` records.
pub open spec fn scan(records: Seq<Seq<Seq<char>>>, config: DelimitedParseConfig, limit: nat, n: nat) -> ScanState
    decreases n,
{
    if n == 0 {
        ScanState { columns: Seq::empty(), rows: Seq::empty(), total: 0, stopped: false }
    } else {
        scan_step(scan(records, config, limit, (n - 1) as nat), records[n - 1], n as int, config, limit)
    }
}

/// A preview keeps the first rows and counts them all: after any number of records it
/// holds as many rows as were counted, but never more than the limit.
pub proof fn lemma_scan_keeps_first_rows(records: Seq<Seq<Seq<char>>>, config: DelimitedParseConfig, limit: nat, n: nat)
    ensures
        scan(records, config, limit, n).rows.len() == (if scan(records, config, limit, n).total < limit {
            scan(records, config, limit, n).total
        } else {
            limit
        }),
    decreases n,
{
    if n > 0 {
        lemma_scan_keeps_first_rows(records, config, limit, (n - 1) as nat);
    }
}

/// The texts of a list of records.
pub open spec fn records_model(records: Seq<Vec<String>>) -> Seq<Seq<Seq<char>>> {
    records.map_values(|r: Vec<String>| texts(r@))
}

proof fn lemma_scan_total_bound(records: Seq<Seq<Seq<char>>>, config: DelimitedParseConfig, limit: nat, n: nat)
    ensures
        scan(records, config, limit, n).total <= n,
        scan(records, config, limit, n).rows.len() <= limit,
    decreases n,
{
    if n > 0 {
        lemma_scan_total_bound(records, config, limit, (n - 1) as nat);
    }
}

proof fn lemma_scan_stopped(records: Seq<Seq<Seq<char>>>, config: DelimitedParseConfig, limit: nat, n: nat, m: nat)
    requires
        n <= m,
        scan(records, config, limit, n).stopped,
    ensures
        scan(records, config, limit, m) == scan(records, config, limit, n),
    decreases m - n,
{
    if n < m {
        lemma_scan_stopped(records, config, limit, n, (m - 1) as nat);
    }
}

/// The columns and rows that the records of a delimited file give within the
/// configured row range; at most `preview_limit` rows are kept, all are counted.
pub fn parse_records(
    records: &Vec<Vec<String>>,
    config: DelimitedParseConfig,
    preview_limit: usize,
    effective_encoding: TableImportTextEncoding,
) -> (r: Result<ParsedImportFile, String>)
    ensures
        ({
            let st = scan(records_model(records@), config, preview_limit as nat, records@.len());
            match r {
                Ok(parsed) => {
                    &&& st.columns.len() > 0 && st.total > 0
                    &&& texts(parsed.columns@) == st.columns
                    &&& rows_model(parsed.rows@) == st.rows
                    &&& parsed.total_rows == st.total
                    &&& parsed.effective_encoding == Some(effective_encoding)
                },
                Err(e) => if st.columns.len() == 0 {
                    e@ == "Import file has no columns in the selected row range"@
                } else {
                    st.total == 0 && e@ == "Import file has no data rows in the selected row range"@
                },
            }
        }),
{
    let ghost model = records_model(records@);
    let ghost limit = preview_limit as nat;
    let mut columns: Vec<String> = Vec::new();
    let mut rows: Vec<Vec<JsonValue>> = Vec::new();
    let mut total_rows: usize = 0;
    let mut index: usize = 0;
    while index < records.len()
        invariant_except_break
            index <= records@.len(),
            model == records_model(records@),
            limit == preview_limit as nat,
            ({
                let st = scan(model, config, limit, index as nat);
                &&& !st.stopped
                &&& texts(columns@) == st.columns
                &&& rows_model(rows@) == st.rows
                &&& total_rows == st.total
            }),
        ensures
            ({
                let st = scan(model, config, limit, records@.len());
                &&& texts(columns@) == st.columns
                &&& rows_model(rows@) == st.rows
                &&& total_rows == st.total
            }),
        decreases records@.len() - index,
    {
        proof { lemma_scan_total_bound(model, config, limit, index as nat); }
        let record = &records[index];
        let row_number = index + 1;
        assert(model[index as int] == texts(record@));
        let range = config.row_range;
        if range.title_row == Some(row_number) {
            columns = headers_exec(record);
            index = index + 1;
            continue;
        }
        if row_number < range.data_start_row {
            index = index + 1;
            continue;
        }
        if let Some(last) = range.last_data_row {
            if row_number > last {
                proof {
                    lemma_scan_stopped(model, config, limit, (index + 1) as nat, records@.len());
                }
                break;
            }
        }
        if columns.len() == 0 {
            columns = generated_columns(record.len());
        }
        total_rows = total_rows + 1;
        if rows.len() >= preview_limit {
            index = index + 1;
            continue;
        }
        let ghost before = rows@;
        rows.push(delimited_record_to_row(record, columns.len(), config));
        assert(rows_model(rows@) =~= rows_model(before).push(spec_record_row(texts(record@), texts(columns@).len(), config)));
        index = index + 1;
    }
    if columns.len() == 0 {
        return Err("Import file has no columns in the selected row range".to_owned());
    }
    if total_rows == 0 {
        return Err("Import file has no data rows in the selected row range".to_owned());
    }
    Ok(ParsedImportFile { columns, rows, total_rows, effective_encoding: Some(effective_encoding) })
}


/// What the `csv` crate reads from a text with the given delimiter, no header
/// handling and records of any length: the fields of each record, or the text of the
/// first error.
pub uninterp spec fn csv_parse(text: Seq<char>, delimiter: u8) -> Result<Seq<Seq<Seq<char>>>, Seq<char>>;

/// Reads all records with `csv::ReaderBuilder` (`delimiter`, `has_headers(false)`,
/// `flexible(true)`). The contract claims only that the outcome is a function of the
/// text and the delimiter.
#[verifier::external_body]
pub(crate) fn csv_records(text: &str, delimiter: u8) -> (r: Result<Vec<Vec<String>>, String>)
    ensures
        csv_parse(text@, delimiter) == match r {
            Ok(records) => Ok::<Seq<Seq<Seq<char>>>, Seq<char>>(records_model(records@)),
            Err(e) => Err::<Seq<Seq<Seq<char>>>, Seq<char>>(e@),
        },
{
    let mut reader = csv::ReaderBuilder::new().delimiter(delimiter).has_headers(false).flexible(true).from_reader(
        text.as_bytes(),
    );
    reader.records().map(|record| record.map(|r| r.iter().map(|f| f.to_owned()).collect()).map_err(|e| e.to_string())).collect()
}

/// Text that is already decoded, read as delimited records with `config`: the records
/// that the `csv` reader gives are scanned as by [`parse_records`], with UTF-8 as the
/// effective encoding; a reader error is handed on.
pub fn parse_delimited_text(text: &str, config: DelimitedParseConfig, preview_limit: usize) -> (r: Result<
    ParsedImportFile,
    String,
>)
    ensures
        match csv_parse(text@, config.delimiter) {
            Err(e) => r matches Err(m) && m@ == e,
            Ok(records) => {
                let st = scan(records, config, preview_limit as nat, records.len());
                match r {
                    Ok(parsed) => {
                        &&& st.columns.len() > 0 && st.total > 0
                        &&& texts(parsed.columns@) == st.columns
                        &&& rows_model(parsed.rows@) == st.rows
                        &&& parsed.total_rows == st.total
                        &&& parsed.effective_encoding == Some(TableImportTextEncoding::Utf8)
                    },
                    Err(e) => if st.columns.len() == 0 {
                        e@ == "Import file has no columns in the selected row range"@
                    } else {
                        st.total == 0 && e@ == "Import file has no data rows in the selected row range"@
                    },
                }
            },
        },
{
    let records = match csv_records(text, config.delimiter) {
        Ok(records) => records,
        Err(e) => return Err(e),
    };
    parse_records(&records, config, preview_limit, TableImportTextEncoding::Utf8)
}

/// The error text for bytes that are not valid in `encoding`.
pub open spec fn invalid_bytes_message(encoding: TableImportTextEncoding) -> Seq<char> {
    "Invalid byte sequence for "@ + encoding.spec_label() + " encoding"@
}

/// What reading delimited bytes with the options gives: the encoding is resolved and
/// its byte-order mark skipped, the delimiter and row range checked, the rest decoded
/// strictly, split into records and scanned; the columns, kept rows, row count and
/// encoding, or the first error met. Bytes that do not decode are read as a stream
/// (see [`read_until_stop`]): reading ends at the record past the last data row, and
/// bytes after it are not decoded.
pub open spec fn spec_parse_delimited(
    bytes: Seq<u8>,
    source_format: TableImportSourceFormat,
    options: TableImportParseOptions,
    preview_limit: nat,
) -> Result<(Seq<Seq<char>>, Seq<Seq<JsonModel>>, nat, TableImportTextEncoding), Seq<char>> {
    parse_with_delimiter(bytes, spec_delimiter(source_format, options), options, preview_limit)
}

/// The outcome of a scan: its columns, rows and count, unless it found no columns or
/// no data rows.
pub open spec fn scan_outcome(st: ScanState) -> Result<(Seq<Seq<char>>, Seq<Seq<JsonModel>>, nat), Seq<char>> {
    if st.columns.len() == 0 {
        Err("Import file has no columns in the selected row range"@)
    } else if st.total == 0 {
        Err("Import file has no data rows in the selected row range"@)
    } else {
        Ok((st.columns, st.rows, st.total))
    }
}

/// The number of bytes decoded at a time when a file is read as a stream.
pub const DECODE_CHUNK_BYTES: usize = 16384;

/// The end of the next piece of a stream of `len` bytes after the first `end`.
pub open spec fn next_end(end: nat, len: nat) -> nat {
    if end + DECODE_CHUNK_BYTES < len {
        (end + DECODE_CHUNK_BYTES) as nat
    } else {
        len
    }
}

/// The records of decoded text `t` that a reader has finished: those of `t` followed by
/// one more character, all but the last.
pub open spec fn finished_records(t: Seq<char>, delimiter: u8) -> Option<Seq<Seq<Seq<char>>>> {
    match csv_parse(t + seq!['x'], delimiter) {
        Ok(records) => if records.len() > 0 {
            Some(records.drop_last())
        } else {
            None
        },
        Err(_) => None,
    }
}

/// Reading bytes that do not decode as a whole as a stream, a piece of
/// [`DECODE_CHUNK_BYTES`] at a time: once the first `end` bytes are decoded, the
/// reading ends with the scan of the records finished so far when that scan reaches
/// the record past the last data row; a malformed sequence met before that, or the end
/// of the bytes, is an error.
pub open spec fn read_until_stop(
    rest: Seq<u8>,
    encoding: TableImportTextEncoding,
    config: DelimitedParseConfig,
    limit: nat,
    end: nat,
) -> Result<(Seq<Seq<char>>, Seq<Seq<JsonModel>>, nat), Seq<char>>
    decreases rest.len() - end,
{
    if end > rest.len() {
        Err(invalid_bytes_message(encoding))
    } else {
        match partial_decoding(rest.subrange(0, end as int), encoding) {
            None => Err(invalid_bytes_message(encoding)),
            Some(t) => {
                let finished = finished_records(t, config.delimiter);
                if finished matches Some(records) && scan(records, config, limit, records.len()).stopped {
                    scan_outcome(scan(finished->0, config, limit, finished->0.len()))
                } else if end >= rest.len() {
                    Err(invalid_bytes_message(encoding))
                } else {
                    read_until_stop(rest, encoding, config, limit, next_end(end, rest.len()))
                }
            },
        }
    }
}

/// [`spec_parse_delimited`] with the delimiter already read from the options (none
/// when the options name no usable one); the options' own delimiter is not read.
pub open spec fn parse_with_delimiter(
    bytes: Seq<u8>,
    delimiter: Option<u8>,
    options: TableImportParseOptions,
    preview_limit: nat,
) -> Result<(Seq<Seq<char>>, Seq<Seq<JsonModel>>, nat, TableImportTextEncoding), Seq<char>> {
    match spec_resolve_encoding(bytes, options.encoding) {
        None => Err("Could not detect text encoding; select UTF-8, GBK / GB18030, or UTF-16 manually"@),
        Some((enc, bom)) => match delimiter {
            None => Err("Delimiter must be a single-byte character"@),
            Some(d) => match effective_import_row_range_spec(options) {
                Err(_) => Err(row_range_error(options)),
                Ok(range) => {
                    let config = DelimitedParseConfig {
                        delimiter: d,
                        trim_values: options.trim_values.unwrap_or(false),
                        empty_string_as_null: options.empty_string_as_null.unwrap_or(true),
                        row_range: range,
                    };
                    let rest = bytes.subrange(bom as int, bytes.len() as int);
                    let outcome = match strict_decoding(rest, enc) {
                        None => read_until_stop(rest, enc, config, preview_limit, next_end(0, rest.len())),
                        Some(text) => match csv_parse(text, d) {
                            Err(e) => Err(e),
                            Ok(records) => scan_outcome(scan(records, config, preview_limit, records.len())),
                        },
                    };
                    match outcome {
                        Ok((columns, rows, total)) => Ok((columns, rows, total, enc)),
                        Err(e) => Err(e),
                    }
                },
            },
        },
    }
}

proof fn lemma_scan_prefix(a: Seq<Seq<Seq<char>>>, b: Seq<Seq<Seq<char>>>, config: DelimitedParseConfig, limit: nat, n: nat)
    requires
        n <= a.len(),
        n <= b.len(),
        forall|i: int| 0 <= i < n ==> a[i] == b[i],
    ensures
        scan(a, config, limit, n) == scan(b, config, limit, n),
    decreases n,
{
    if n > 0 {
        lemma_scan_prefix(a, b, config, limit, (n - 1) as nat);
    }
}

fn invalid_bytes_error(encoding: TableImportTextEncoding) -> (r: String)
    ensures
        r@ == invalid_bytes_message(encoding),
{
    let mut e = "Invalid byte sequence for ".to_owned();
    crate::text::push_str(&mut e, encoding.label());
    crate::text::push_str(&mut e, " encoding");
    e
}

/// Whether the scan of the first `n` records ends at the record past the last data
/// row; that depends only on the row numbers.
fn scan_stops(records: &Vec<Vec<String>>, n: usize, config: DelimitedParseConfig, limit: usize) -> (r: bool)
    requires
        n <= records@.len(),
    ensures
        r == scan(records_model(records@), config, limit as nat, n as nat).stopped,
{
    let ghost model = records_model(records@);
    let mut i: usize = 0;
    while i < n
        invariant
            i <= n <= records@.len(),
            model == records_model(records@),
            !scan(model, config, limit as nat, i as nat).stopped,
        decreases n - i,
    {
        let row = i + 1;
        let range = config.row_range;
        if range.title_row != Some(row) && row >= range.data_start_row {
            if let Some(last) = range.last_data_row {
                if row > last {
                    proof {
                        lemma_scan_stopped(model, config, limit as nat, (i + 1) as nat, n as nat);
                    }
                    return true;
                }
            }
        }
        i = i + 1;
    }
    false
}

/// Bytes that do not decode as a whole, read as a stream (see [`read_until_stop`]).
fn read_stream(
    rest: &[u8],
    encoding: TableImportTextEncoding,
    config: DelimitedParseConfig,
    preview_limit: usize,
) -> (r: Result<ParsedImportFile, String>)
    requires
        encoding != TableImportTextEncoding::Auto,
        rest@.len() <= usize::MAX / 4,
    ensures
        match r {
            Ok(parsed) => parsed.effective_encoding == Some(encoding) && read_until_stop(
                rest@,
                encoding,
                config,
                preview_limit as nat,
                next_end(0, rest@.len()),
            ) == Ok::<(Seq<Seq<char>>, Seq<Seq<JsonModel>>, nat), Seq<char>>(
                (texts(parsed.columns@), rows_model(parsed.rows@), parsed.total_rows as nat),
            ),
            Err(e) => read_until_stop(rest@, encoding, config, preview_limit as nat, next_end(0, rest@.len()))
                == Err::<(Seq<Seq<char>>, Seq<Seq<JsonModel>>, nat), Seq<char>>(e@),
        },
{
    let len = rest.len();
    let mut end: usize = if DECODE_CHUNK_BYTES < len { DECODE_CHUNK_BYTES } else { len };
    loop
        invariant
            len == rest@.len(),
            len <= usize::MAX / 4,
            end <= len,
            encoding != TableImportTextEncoding::Auto,
            read_until_stop(rest@, encoding, config, preview_limit as nat, next_end(0, len as nat))
                == read_until_stop(rest@, encoding, config, preview_limit as nat, end as nat),
        decreases len - end,
    {
        let prefix = rest.split_at(end).0;
        assert(prefix@ =~= rest@.subrange(0, end as int));
        let t = match decode_partial(prefix, encoding) {
            Some(t) => t,
            None => return Err(invalid_bytes_error(encoding)),
        };
        let ghost tv = t@;
        let mut tx = t;
        crate::text::push_char(&mut tx, 'x');
        assert(tx@ =~= tv + seq!['x']);
        match csv_records(tx.as_str(), config.delimiter) {
            Ok(records) => {
                let mut records = records;
                if records.len() > 0 {
                    let n = records.len() - 1;
                    if scan_stops(&records, n, config, preview_limit) {
                        let ghost all = records_model(records@);
                        records.pop();
                        proof {
                            assert(records_model(records@) =~= all.drop_last());
                            lemma_scan_prefix(all, all.drop_last(), config, preview_limit as nat, n as nat);
                        }
                        return parse_records(&records, config, preview_limit, encoding);
                    }
                    proof {
                        let all = records_model(records@);
                        assert(all.drop_last().len() == n);
                        lemma_scan_prefix(all, all.drop_last(), config, preview_limit as nat, n as nat);
                    }
                }
            },
            Err(_) => {},
        }
        if end >= len {
            return Err(invalid_bytes_error(encoding));
        }
        end = if len - end > DECODE_CHUNK_BYTES { end + DECODE_CHUNK_BYTES } else { len };
    }
}

/// Delimited bytes read with the options (see [`spec_parse_delimited`]).
pub fn parse_delimited_bytes_with_options(
    bytes: &[u8],
    source_format: TableImportSourceFormat,
    options: &TableImportParseOptions,
    preview_limit: usize,
) -> (r: Result<ParsedImportFile, String>)
    requires
        row_options_in_range(*options),
        bytes@.len() <= usize::MAX / 4,
    ensures
        match r {
            Ok(parsed) => parsed.effective_encoding matches Some(enc) && spec_parse_delimited(
                bytes@,
                source_format,
                *options,
                preview_limit as nat,
            ) == Ok::<(Seq<Seq<char>>, Seq<Seq<JsonModel>>, nat, TableImportTextEncoding), Seq<char>>(
                (texts(parsed.columns@), rows_model(parsed.rows@), parsed.total_rows as nat, enc),
            ),
            Err(e) => spec_parse_delimited(bytes@, source_format, *options, preview_limit as nat) == Err::<
                (Seq<Seq<char>>, Seq<Seq<JsonModel>>, nat, TableImportTextEncoding),
                Seq<char>,
            >(e@),
        },
{
    let (encoding, bom_len) = match resolve_text_encoding_from_bytes(bytes, options.encoding) {
        Ok(found) => found,
        Err(e) => return Err(e),
    };
    let config = match effective_delimited_config(source_format, options) {
        Ok(config) => config,
        Err(e) => return Err(e),
    };
    let rest = bytes.split_at(bom_len).1;
    assert(rest@ =~= bytes@.subrange(bom_len as int, bytes@.len() as int));
    let text = match decode_strict(rest, encoding) {
        Some(text) => text,
        None => return read_stream(rest, encoding, config, preview_limit),
    };
    let records = match csv_records(text.as_str(), config.delimiter) {
        Ok(records) => records,
        Err(e) => return Err(e),
    };
    parse_records(&records, config, preview_limit, encoding)
}

/// Comma-separated bytes read with the default options.
pub fn parse_csv_bytes(bytes: &[u8], preview_limit: usize) -> (r: Result<ParsedImportFile, String>)
    requires
        bytes@.len() <= usize::MAX / 4,
    ensures
        match r {
            Ok(parsed) => parsed.effective_encoding matches Some(enc) && parse_with_delimiter(
                bytes@,
                Some(44u8),
                default_parse_options(),
                preview_limit as nat,
            ) == Ok::<(Seq<Seq<char>>, Seq<Seq<JsonModel>>, nat, TableImportTextEncoding), Seq<char>>(
                (texts(parsed.columns@), rows_model(parsed.rows@), parsed.total_rows as nat, enc),
            ),
            Err(e) => parse_with_delimiter(bytes@, Some(44u8), default_parse_options(), preview_limit as nat) == Err::<
                (Seq<Seq<char>>, Seq<Seq<JsonModel>>, nat, TableImportTextEncoding),
                Seq<char>,
            >(e@),
        },
{
    let options = TableImportParseOptions::default();
    parse_delimited_bytes_with_options(bytes, TableImportSourceFormat::Csv, &options, preview_limit)
}

/// Delimited bytes read with the default options and the given delimiter byte; a byte
/// that is not ASCII is refused as a delimiter.
pub fn parse_delimited_bytes(bytes: &[u8], delimiter: u8, preview_limit: usize) -> (r: Result<ParsedImportFile, String>)
    requires
        bytes@.len() <= usize::MAX / 4,
    ensures
        ({
            let d = if delimiter < 128 {
                Some(delimiter)
            } else {
                None
            };
            match r {
                Ok(parsed) => parsed.effective_encoding matches Some(enc) && parse_with_delimiter(
                    bytes@,
                    d,
                    default_parse_options(),
                    preview_limit as nat,
                ) == Ok::<(Seq<Seq<char>>, Seq<Seq<JsonModel>>, nat, TableImportTextEncoding), Seq<char>>(
                    (texts(parsed.columns@), rows_model(parsed.rows@), parsed.total_rows as nat, enc),
                ),
                Err(e) => parse_with_delimiter(bytes@, d, default_parse_options(), preview_limit as nat) == Err::<
                    (Seq<Seq<char>>, Seq<Seq<JsonModel>>, nat, TableImportTextEncoding),
                    Seq<char>,
                >(e@),
            }
        }),
{
    let text = if delimiter == 9 {
        "\\t".to_owned()
    } else {
        let mut t = String::new();
        crate::text::push_char(&mut t, delimiter as char);
        assert(t@ == seq![delimiter as char]);
        proof {
            reveal_strlit("\\t");
            reveal_strlit("tab");
            reveal_strlit("TAB");
            assert((delimiter as char) as u32 == delimiter as u32);
        }
        t
    };
    let mut options = TableImportParseOptions::default();
    options.delimiter = Some(text);
    let ghost d = if delimiter < 128 {
        Some(delimiter)
    } else {
        None
    };
    proof {
        reveal_strlit("\\t");
        reveal_strlit("tab");
        reveal_strlit("TAB");
        assert(spec_delimiter(TableImportSourceFormat::Delimited, options) == d);
        assert(options == TableImportParseOptions { delimiter: options.delimiter, ..default_parse_options() });
    }
    parse_delimited_bytes_with_options(bytes, TableImportSourceFormat::Delimited, &options, preview_limit)
}

} // verus!

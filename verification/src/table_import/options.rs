//! Source formats, parse options and the row range of an import.
use vstd::prelude::*;
use crate::text::{str_eq, chars_of, chars_ends_with, lower_chars, lower, upper, ends_with};

verus! {

pub const DEFAULT_PREVIEW_LIMIT: usize = 50;

pub const DEFAULT_BATCH_SIZE: usize = 500;

pub const CREATE_TABLE_INFERENCE_ROWS: usize = 100;

pub const MAX_NON_STREAMING_IMPORT_BYTES: u64 = 104857600;

#[derive(Debug, Clone, Copy, PartialEq, Eq, Structural)]
pub enum TableImportSourceFormat {
    Csv,
    Tsv,
    Delimited,
    Json,
    Excel,
}

impl TableImportSourceFormat {
    pub open spec fn spec_label(self) -> Seq<char> {
        match self {
            TableImportSourceFormat::Csv => "csv"@,
            TableImportSourceFormat::Tsv => "tsv"@,
            TableImportSourceFormat::Delimited => "txt"@,
            TableImportSourceFormat::Json => "json"@,
            TableImportSourceFormat::Excel => "excel"@,
        }
    }

    pub fn label(self) -> (r: &'static str)
        ensures
            r@ == self.spec_label(),
    {
        match self {
            TableImportSourceFormat::Csv => "csv",
            TableImportSourceFormat::Tsv => "tsv",
            TableImportSourceFormat::Delimited => "txt",
            TableImportSourceFormat::Json => "json",
            TableImportSourceFormat::Excel => "excel",
        }
    }

    pub open spec fn spec_is_delimited(self) -> bool {
        self is Csv || self is Tsv || self is Delimited
    }

    pub fn is_delimited(self) -> (r: bool)
        ensures
            r == self.spec_is_delimited(),
    {
        matches!(self, TableImportSourceFormat::Csv | TableImportSourceFormat::Tsv | TableImportSourceFormat::Delimited)
    }
}

#[derive(Debug, Clone, Copy, PartialEq, Eq, Structural)]
pub enum TableImportJsonShape {
    Auto,
    Objects,
    Arrays,
}

#[derive(Debug, Clone, Copy, PartialEq, Eq, Structural)]
pub enum TableImportTextEncoding {
    Auto,
    Utf8,
    Gbk,
    Utf16Le,
    Utf16Be,
}

impl TableImportTextEncoding {
    pub open spec fn spec_label(self) -> Seq<char> {
        match self {
            TableImportTextEncoding::Auto => "auto"@,
            TableImportTextEncoding::Utf8 => "UTF-8"@,
            TableImportTextEncoding::Gbk => "GBK / GB18030"@,
            TableImportTextEncoding::Utf16Le => "UTF-16 LE"@,
            TableImportTextEncoding::Utf16Be => "UTF-16 BE"@,
        }
    }

    pub fn label(self) -> (r: &'static str)
        ensures
            r@ == self.spec_label(),
    {
        match self {
            TableImportTextEncoding::Auto => "auto",
            TableImportTextEncoding::Utf8 => "UTF-8",
            TableImportTextEncoding::Gbk => "GBK / GB18030",
            TableImportTextEncoding::Utf16Le => "UTF-16 LE",
            TableImportTextEncoding::Utf16Be => "UTF-16 BE",
        }
    }
}

#[derive(Debug, Clone, Copy, PartialEq, Eq, Structural)]
pub enum TableImportMode {
    Append,
    Truncate,
}

#[derive(Debug, Clone, Copy, PartialEq, Eq, Structural)]
pub enum TableImportStatus {
    Running,
    Done,
    Error,
    Cancelled,
}

#[derive(Debug, Clone, Copy, PartialEq, Eq, Structural)]
pub enum ImportFileKind {
    Csv,
    Tsv,
    Txt,
    Json,
    Xlsx,
}

impl ImportFileKind {
    pub open spec fn spec_label(self) -> Seq<char> {
        match self {
            ImportFileKind::Csv => "csv"@,
            ImportFileKind::Tsv => "tsv"@,
            ImportFileKind::Txt => "txt"@,
            ImportFileKind::Json => "json"@,
            ImportFileKind::Xlsx => "xlsx"@,
        }
    }

    pub fn label(self) -> (r: &'static str)
        ensures
            r@ == self.spec_label(),
    {
        match self {
            ImportFileKind::Csv => "csv",
            ImportFileKind::Tsv => "tsv",
            ImportFileKind::Txt => "txt",
            ImportFileKind::Json => "json",
            ImportFileKind::Xlsx => "xlsx",
        }
    }
}

/// How a file is read. `None` fields take the defaults that the effective-config
/// functions apply.
#[derive(Debug, Clone)]
pub struct TableImportParseOptions {
    pub delimiter: Option<String>,
    pub encoding: Option<TableImportTextEncoding>,
    pub has_header: Option<bool>,
    pub title_row: Option<usize>,
    pub data_start_row: Option<usize>,
    pub last_data_row: Option<usize>,
    pub trim_values: Option<bool>,
    pub empty_string_as_null: Option<bool>,
    pub sheet_name: Option<String>,
    pub sheet_index: Option<usize>,
    pub json_shape: Option<TableImportJsonShape>,
}

/// The options an import uses when none are given.
pub open spec fn default_parse_options() -> TableImportParseOptions {
    TableImportParseOptions {
        delimiter: None,
        encoding: Some(TableImportTextEncoding::Auto),
        has_header: None,
        title_row: None,
        data_start_row: None,
        last_data_row: None,
        trim_values: Some(false),
        empty_string_as_null: Some(true),
        sheet_name: None,
        sheet_index: None,
        json_shape: Some(TableImportJsonShape::Auto),
    }
}

impl Default for TableImportParseOptions {
    fn default() -> (r: Self)
        ensures
            r == default_parse_options(),
    {
        TableImportParseOptions {
            delimiter: None,
            encoding: Some(TableImportTextEncoding::Auto),
            has_header: None,
            title_row: None,
            data_start_row: None,
            last_data_row: None,
            trim_values: Some(false),
            empty_string_as_null: Some(true),
            sheet_name: None,
            sheet_index: None,
            json_shape: Some(TableImportJsonShape::Auto),
        }
    }
}

/// Which rows of a file are the title row and the data rows (1-based).
#[derive(Debug, Clone, Copy, PartialEq, Eq, Structural)]
pub struct ImportRowRange {
    pub title_row: Option<usize>,
    pub data_start_row: usize,
    pub last_data_row: Option<usize>,
}

impl ImportRowRange {
    /// A range whose title row comes before its first data row, and whose last data
    /// row, if any, is not before it.
    pub open spec fn wf(self) -> bool {
        &&& self.data_start_row >= 1
        &&& self.title_row matches Some(t) ==> 1 <= t < self.data_start_row
        &&& self.last_data_row matches Some(l) ==> l >= self.data_start_row
    }
}

/// How delimited text is split and cleaned.
#[derive(Debug, Clone, Copy, PartialEq, Eq, Structural)]
pub struct DelimitedParseConfig {
    pub delimiter: u8,
    pub trim_values: bool,
    pub empty_string_as_null: bool,
    pub row_range: ImportRowRange,
}

/// The title row that the options select: `Some(0)` means none, no choice means row 1
/// unless the file is said to have no header.
pub open spec fn spec_title_row(options: TableImportParseOptions) -> Option<usize> {
    match options.title_row {
        Some(row) => if row == 0 { None } else { Some(row) },
        None => if options.has_header.unwrap_or(true) { Some(1) } else { None },
    }
}

/// The first data row: as given, else the row after the title row, else row 1.
pub open spec fn spec_data_start_row(options: TableImportParseOptions) -> int {
    match options.data_start_row {
        Some(row) => row as int,
        None => match spec_title_row(options) {
            Some(t) => t + 1,
            None => 1,
        },
    }
}

/// The last data row: as given when positive, else none.
pub open spec fn spec_last_data_row(options: TableImportParseOptions) -> Option<usize> {
    match options.last_data_row {
        Some(row) => if row > 0 { Some(row) } else { None },
        None => None,
    }
}

/// The options cannot make `title row + 1` overflow.
pub open spec fn row_options_in_range(options: TableImportParseOptions) -> bool {
    options.data_start_row is None ==> options.title_row != Some(usize::MAX)
}

pub fn effective_import_row_range(options: &TableImportParseOptions) -> (r: Result<ImportRowRange, String>)
    requires
        row_options_in_range(*options),
    ensures
        ({
            let title = spec_title_row(*options);
            let start = spec_data_start_row(*options);
            let last = spec_last_data_row(*options);
            match r {
                Ok(range) => {
                    &&& range.title_row == title
                    &&& range.data_start_row == start
                    &&& range.last_data_row == last
                    &&& range.wf()
                },
                Err(e) => if start == 0 {
                    e@ == "Data start row must be at least 1"@
                } else if title matches Some(t) && t >= start {
                    e@ == "Title row must be before the data start row"@
                } else {
                    &&& last matches Some(l) && l < start
                    &&& e@ == "Last data row must be 0 or not less than the data start row"@
                },
            }
        }),
        r is Ok <==> (spec_data_start_row(*options) >= 1 && !(spec_title_row(*options) matches Some(
            t,
        ) && t >= spec_data_start_row(*options)) && !(spec_last_data_row(*options) matches Some(
            l,
        ) && l < spec_data_start_row(*options))),
{
    let title_row = match options.title_row {
        Some(row) => if row == 0 { None } else { Some(row) },
        None => if options.has_header.unwrap_or(true) { Some(1) } else { None },
    };
    let data_start_row = match options.data_start_row {
        Some(row) => row,
        None => match title_row {
            Some(row) => row + 1,
            None => 1,
        },
    };
    let last_data_row = match options.last_data_row {
        Some(row) => if row > 0 { Some(row) } else { None },
        None => None,
    };
    if data_start_row == 0 {
        return Err("Data start row must be at least 1".to_owned());
    }
    if let Some(row) = title_row {
        if row >= data_start_row {
            return Err("Title row must be before the data start row".to_owned());
        }
    }
    if let Some(last) = last_data_row {
        if last < data_start_row {
            return Err("Last data row must be 0 or not less than the data start row".to_owned());
        }
    }
    Ok(ImportRowRange { title_row, data_start_row, last_data_row })
}


/// The delimiter that the options ask for: the format's default when none or an
/// empty one is given, a tab for `\t`, `tab` or `TAB`, else the one character given,
/// which must be a single byte (an ASCII character). `None` when it is not.
pub open spec fn spec_delimiter(format: TableImportSourceFormat, options: TableImportParseOptions) -> Option<u8> {
    let default: u8 = if format is Tsv { 9 } else { 44 };
    match options.delimiter {
        None => Some(default),
        Some(d) => if d@.len() == 0 {
            Some(default)
        } else if d@ == "\\t"@ || d@ == "tab"@ || d@ == "TAB"@ {
            Some(9u8)
        } else if d@.len() == 1 && (d@[0] as u32) < 128 {
            Some((d@[0] as u32) as u8)
        } else {
            None
        },
    }
}

pub fn effective_delimited_config(
    source_format: TableImportSourceFormat,
    options: &TableImportParseOptions,
) -> (r: Result<DelimitedParseConfig, String>)
    requires
        row_options_in_range(*options),
    ensures
        match r {
            Ok(config) => {
                &&& spec_delimiter(source_format, *options) == Some(config.delimiter)
                &&& config.trim_values == options.trim_values.unwrap_or(false)
                &&& config.empty_string_as_null == options.empty_string_as_null.unwrap_or(true)
                &&& effective_import_row_range_spec(*options) == Ok::<ImportRowRange, ()>(config.row_range)
            },
            Err(e) => if spec_delimiter(source_format, *options) is None {
                e@ == "Delimiter must be a single-byte character"@
            } else {
                e@ == row_range_error(*options)
            },
        },
        r is Ok <==> (spec_delimiter(source_format, *options) is Some && effective_import_row_range_spec(*options) is Ok),
{
    let default_delimiter: u8 = match source_format {
        TableImportSourceFormat::Tsv => 9,
        _ => 44,
    };
    let delimiter: u8 = match &options.delimiter {
        None => default_delimiter,
        Some(value) => {
            let v = chars_of(value.as_str());
            if v.len() == 0 {
                default_delimiter
            } else if str_eq(value.as_str(), "\\t") || str_eq(value.as_str(), "tab") || str_eq(value.as_str(), "TAB") {
                9
            } else if v.len() == 1 && (v[0] as u32) < 128 {
                (v[0] as u32) as u8
            } else {
                return Err("Delimiter must be a single-byte character".to_owned());
            }
        },
    };
    let row_range = match effective_import_row_range(options) {
        Ok(range) => range,
        Err(e) => return Err(e),
    };
    Ok(DelimitedParseConfig {
        delimiter,
        trim_values: options.trim_values.unwrap_or(false),
        empty_string_as_null: options.empty_string_as_null.unwrap_or(true),
        row_range,
    })
}

/// The row range the options select, or `Err` when `effective_import_row_range`
/// rejects them.
pub open spec fn effective_import_row_range_spec(options: TableImportParseOptions) -> Result<ImportRowRange, ()> {
    let title = spec_title_row(options);
    let start = spec_data_start_row(options);
    let last = spec_last_data_row(options);
    if start >= 1 && !(title matches Some(t) && t >= start) && !(last matches Some(l) && l < start) {
        Ok(ImportRowRange { title_row: title, data_start_row: start as usize, last_data_row: last })
    } else {
        Err(())
    }
}

/// Why `effective_import_row_range` rejects options whose range is not valid.
pub open spec fn row_range_error(options: TableImportParseOptions) -> Seq<char> {
    let start = spec_data_start_row(options);
    if start == 0 {
        "Data start row must be at least 1"@
    } else if spec_title_row(options) matches Some(t) && t >= start {
        "Title row must be before the data start row"@
    } else {
        "Last data row must be 0 or not less than the data start row"@
    }
}

/// The kind of file that a path names, by its extension in any ASCII case.
pub open spec fn spec_import_file_kind(path: Seq<char>) -> Option<ImportFileKind> {
    let l = lower(path);
    if ends_with(l, ".csv"@) {
        Some(ImportFileKind::Csv)
    } else if ends_with(l, ".tsv"@) {
        Some(ImportFileKind::Tsv)
    } else if ends_with(l, ".txt"@) {
        Some(ImportFileKind::Txt)
    } else if ends_with(l, ".json"@) {
        Some(ImportFileKind::Json)
    } else if ends_with(l, ".xlsx"@) || ends_with(l, ".xlsm"@) || ends_with(l, ".xls"@) {
        Some(ImportFileKind::Xlsx)
    } else {
        None
    }
}

/// The extensions checked are ASCII, so comparing the ASCII-lowercased path gives
/// the same answer as comparing its full Unicode lowercase.
pub fn import_file_kind(path: &str) -> (r: Result<ImportFileKind, String>)
    ensures
        match r {
            Ok(kind) => spec_import_file_kind(path@) == Some(kind),
            Err(e) => spec_import_file_kind(path@) is None && e@ == "Unsupported import file type"@,
        },
{
    let lower_path = lower_chars(&chars_of(path));
    let l = lower_path.as_slice();
    if chars_ends_with(l, chars_of(".csv").as_slice()) {
        Ok(ImportFileKind::Csv)
    } else if chars_ends_with(l, chars_of(".tsv").as_slice()) {
        Ok(ImportFileKind::Tsv)
    } else if chars_ends_with(l, chars_of(".txt").as_slice()) {
        Ok(ImportFileKind::Txt)
    } else if chars_ends_with(l, chars_of(".json").as_slice()) {
        Ok(ImportFileKind::Json)
    } else if chars_ends_with(l, chars_of(".xlsx").as_slice()) || chars_ends_with(l, chars_of(".xlsm").as_slice())
        || chars_ends_with(l, chars_of(".xls").as_slice()) {
        Ok(ImportFileKind::Xlsx)
    } else {
        Err("Unsupported import file type".to_owned())
    }
}

/// A path that ends with a kind's label in capitals after a point names that kind,
/// whatever comes before: `data.CSV` is a CSV file, `Book.XLSX` a workbook.
pub proof fn lemma_kind_of_uppercase_extension(stem: Seq<char>, kind: ImportFileKind)
    ensures
        spec_import_file_kind(stem + "."@ + upper(kind.spec_label())) == Some(kind),
{
    reveal_strlit(".");
    reveal_strlit(".csv");
    reveal_strlit(".tsv");
    reveal_strlit(".txt");
    reveal_strlit(".json");
    reveal_strlit(".xlsx");
    reveal_strlit(".xlsm");
    reveal_strlit(".xls");
    reveal_strlit("csv");
    reveal_strlit("tsv");
    reveal_strlit("txt");
    reveal_strlit("json");
    reveal_strlit("xlsx");
    let ext = "."@ + upper(kind.spec_label());
    let path = stem + ext;
    assert(path =~= stem + "."@ + upper(kind.spec_label()));
    let l = lower(path);
    assert(l =~= lower(stem) + lower(ext));
    let le = "."@ + kind.spec_label();
    assert(lower(ext) =~= le);
    assert(l.subrange(l.len() - le.len(), l.len() as int) =~= le);
    let n = l.len() as int;
    let t4 = l.subrange(n - 4, n);
    assert(ends_with(l, le));
    if le.len() == 4 {
        assert(t4 =~= le);
    } else {
        assert(t4 =~= le.subrange(1, 5));
    }
    assert(".csv"@[1] == 'c' && ".tsv"@[1] == 't' && ".txt"@[1] == 't' && ".txt"@[2] == 'x');
    assert(".tsv"@[2] == 's' && ".csv"@[2] == 's' && ".json"@[4] == 'n' && ".xlsx"@[4] == 'x');
    match kind {
        ImportFileKind::Csv => {
            assert(t4 =~= ".csv"@);
            assert(ends_with(l, ".csv"@));
        },
        ImportFileKind::Tsv => {
            assert(t4[1] == 't');
            assert(t4 =~= ".tsv"@);
        },
        ImportFileKind::Txt => {
            assert(t4[1] == 't' && t4[2] == 'x');
            assert(t4 =~= ".txt"@);
        },
        ImportFileKind::Json => {
            assert(t4[3] == 'n');
            assert(l.subrange(n - 5, n) =~= ".json"@);
        },
        ImportFileKind::Xlsx => {
            assert(t4[3] == 'x');
            assert(l.subrange(n - 5, n) =~= ".xlsx"@);
        },
    }
}

pub open spec fn format_of_kind(kind: ImportFileKind) -> TableImportSourceFormat {
    match kind {
        ImportFileKind::Csv => TableImportSourceFormat::Csv,
        ImportFileKind::Tsv => TableImportSourceFormat::Tsv,
        ImportFileKind::Txt => TableImportSourceFormat::Delimited,
        ImportFileKind::Json => TableImportSourceFormat::Json,
        ImportFileKind::Xlsx => TableImportSourceFormat::Excel,
    }
}

pub fn source_format_for_path(path: &str) -> (r: Result<TableImportSourceFormat, String>)
    ensures
        match r {
            Ok(format) => spec_import_file_kind(path@) matches Some(kind) && format == format_of_kind(kind),
            Err(e) => spec_import_file_kind(path@) is None && e@ == "Unsupported import file type"@,
        },
{
    let kind = import_file_kind(path)?;
    Ok(match kind {
        ImportFileKind::Csv => TableImportSourceFormat::Csv,
        ImportFileKind::Tsv => TableImportSourceFormat::Tsv,
        ImportFileKind::Txt => TableImportSourceFormat::Delimited,
        ImportFileKind::Json => TableImportSourceFormat::Json,
        ImportFileKind::Xlsx => TableImportSourceFormat::Excel,
    })
}

/// The format given, else the one the path's extension names.
pub fn effective_source_format(
    path: &str,
    source_format: Option<TableImportSourceFormat>,
) -> (r: Result<TableImportSourceFormat, String>)
    ensures
        match source_format {
            Some(f) => r == Ok::<TableImportSourceFormat, String>(f),
            None => match spec_import_file_kind(path@) {
                Some(kind) => r == Ok::<TableImportSourceFormat, String>(format_of_kind(kind)),
                None => r matches Err(e) && e@ == "Unsupported import file type"@,
            },
        },
{
    match source_format {
        Some(f) => Ok(f),
        None => match source_format_for_path(path) {
            Ok(f) => Ok(f),
            Err(_) => Err("Unsupported import file type".to_owned()),
        },
    }
}

} // verus!

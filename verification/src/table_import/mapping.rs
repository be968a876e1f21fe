//! Which source column feeds which target column, and the SQL around an import.
use vstd::prelude::*;
use crate::dialect::{DatabaseType, qualified_table, quote_identifier, spec_qualified_table, spec_quote_identifier};
use crate::table_import::rows::ParsedImportFile;
use crate::text::{chars_of, push_str, str_eq, string_of, trim, trim_bounds, trim_string};

verus! {

/// One source column copied into one target column, with an optional column type for
/// a table that the import creates.
#[derive(Debug, Clone)]
pub struct TableImportColumnMapping {
    pub source_column: String,
    pub target_column: String,
    pub target_data_type: Option<String>,
}

/// The texts of a list of strings.
pub open spec fn texts(v: Seq<String>) -> Seq<Seq<char>> {
    v.map_values(|s: String| s@)
}

/// The error that mapping number `k` raises, given that those before it passed.
pub open spec fn mapping_step_error(
    columns: Seq<Seq<char>>,
    mappings: Seq<TableImportColumnMapping>,
    k: int,
) -> Option<Seq<char>> {
    let m = mappings[k];
    if !columns.contains(m.source_column@) {
        Some("Source column not found: "@ + m.source_column@)
    } else if trim(m.target_column@).len() == 0 {
        Some("Target column cannot be empty"@)
    } else if exists|j: int| 0 <= j < k && (#[trigger] mappings[j]).target_column@ == m.target_column@ {
        Some("Target column mapped more than once: "@ + m.target_column@)
    } else {
        None
    }
}

/// Index of the first column named `name`.
pub open spec fn is_first_index(columns: Seq<Seq<char>>, name: Seq<char>, i: int) -> bool {
    0 <= i < columns.len() && columns[i] == name && forall|j: int| 0 <= j < i ==> columns[j] != name
}

/// The outcome of checking `mappings` against `columns`: `Ok` when there is at least
/// one mapping and none raises an error, else the error of the first one that does.
pub open spec fn mapping_outcome_ok(columns: Seq<Seq<char>>, mappings: Seq<TableImportColumnMapping>) -> bool {
    mappings.len() > 0 && forall|k: int| 0 <= k < mappings.len() ==> mapping_step_error(columns, mappings, k) is None
}

pub open spec fn mapping_error(
    columns: Seq<Seq<char>>,
    mappings: Seq<TableImportColumnMapping>,
    e: Seq<char>,
) -> bool {
    if mappings.len() == 0 {
        e == "No columns mapped for import"@
    } else {
        exists|k: int|
            0 <= k < mappings.len() && mapping_step_error(columns, mappings, k) == Some(e) && forall|j: int|
                0 <= j < k ==> mapping_step_error(columns, mappings, j) is None
    }
}

fn first_index_of(columns: &Vec<String>, name: &String) -> (r: Option<usize>)
    ensures
        match r {
            Some(i) => is_first_index(texts(columns@), name@, i as int),
            None => !texts(columns@).contains(name@),
        },
{
    for i in 0..columns.len()
        invariant
            forall|j: int| 0 <= j < i ==> texts(columns@)[j] != name@,
    {
        if columns[i] == *name {
            return Some(i);
        }
    }
    proof {
        if texts(columns@).contains(name@) {
            let j = choose|j: int| 0 <= j < texts(columns@).len() && texts(columns@)[j] == name@;
            assert(texts(columns@)[j] != name@);
        }
    }
    None
}

/// For each mapping in order, the index of the first source column with its name.
pub fn mapping_source_indexes(columns: &Vec<String>, mappings: &Vec<TableImportColumnMapping>) -> (r: Result<
    Vec<usize>,
    String,
>)
    ensures
        match r {
            Ok(indexes) => {
                &&& mapping_outcome_ok(texts(columns@), mappings@)
                &&& indexes@.len() == mappings@.len()
                &&& forall|k: int|
                    0 <= k < mappings@.len() ==> is_first_index(
                        texts(columns@),
                        mappings@[k].source_column@,
                        #[trigger] indexes@[k] as int,
                    )
            },
            Err(e) => !mapping_outcome_ok(texts(columns@), mappings@) && mapping_error(
                texts(columns@),
                mappings@,
                e@,
            ),
        },
{
    if mappings.len() == 0 {
        return Err("No columns mapped for import".to_owned());
    }
    let ghost cols = texts(columns@);
    let mut indexes: Vec<usize> = Vec::new();
    for k in 0..mappings.len()
        invariant
            cols == texts(columns@),
            mappings@.len() > 0,
            indexes@.len() == k,
            forall|j: int| 0 <= j < k ==> mapping_step_error(cols, mappings@, j) is None,
            forall|j: int|
                0 <= j < k ==> is_first_index(cols, mappings@[j].source_column@, #[trigger] indexes@[j] as int),
    {
        let mapping = &mappings[k];
        let source_index = match first_index_of(columns, &mapping.source_column) {
            Some(i) => i,
            None => {
                let mut e = "Source column not found: ".to_owned();
                push_str(&mut e, mapping.source_column.as_str());
                assert(mapping_step_error(cols, mappings@, k as int) == Some(e@));
                return Err(e);
            },
        };
        let target = trim_string(mapping.target_column.as_str());
        if chars_of(target.as_str()).len() == 0 {
            let e = "Target column cannot be empty".to_owned();
            assert(mapping_step_error(cols, mappings@, k as int) == Some(e@));
            return Err(e);
        }
        #[verifier::loop_isolation(false)]
        for j in 0..k
            invariant
                k < mappings@.len(),
                *mapping == mappings@[k as int],
                forall|i: int| 0 <= i < j ==> mappings@[i].target_column@ != mappings@[k as int].target_column@,
        {
            if mappings[j].target_column == mapping.target_column {
                let mut e = "Target column mapped more than once: ".to_owned();
                push_str(&mut e, mapping.target_column.as_str());
                assert(mapping_step_error(cols, mappings@, k as int) == Some(e@));
                return Err(e);
            }
        }
        assert(mapping_step_error(cols, mappings@, k as int) is None);
        indexes.push(source_index);
    }
    Ok(indexes)
}

/// For each mapping in order, the first source column with its name and the target.
pub fn mapping_indexes_for_columns(columns: &Vec<String>, mappings: &Vec<TableImportColumnMapping>) -> (r: Result<
    Vec<(usize, String)>,
    String,
>)
    ensures
        match r {
            Ok(mapped) => {
                &&& mapping_outcome_ok(texts(columns@), mappings@)
                &&& mapped@.len() == mappings@.len()
                &&& forall|k: int|
                    0 <= k < mappings@.len() ==> is_first_index(
                        texts(columns@),
                        mappings@[k].source_column@,
                        (#[trigger] mapped@[k]).0 as int,
                    ) && mapped@[k].1@ == mappings@[k].target_column@
            },
            Err(e) => !mapping_outcome_ok(texts(columns@), mappings@) && mapping_error(
                texts(columns@),
                mappings@,
                e@,
            ),
        },
{
    let indexes = match mapping_source_indexes(columns, mappings) {
        Ok(indexes) => indexes,
        Err(e) => return Err(e),
    };
    let mut mapped: Vec<(usize, String)> = Vec::new();
    for k in 0..indexes.len()
        invariant
            indexes@.len() == mappings@.len(),
            mapped@.len() == k,
            forall|j: int|
                0 <= j < k ==> (#[trigger] mapped@[j]).0 == indexes@[j] && mapped@[j].1@
                    == mappings@[j].target_column@,
    {
        mapped.push((indexes[k], mappings[k].target_column.clone()));
    }
    proof {
        assert forall|k: int| 0 <= k < mappings@.len() implies is_first_index(
            texts(columns@),
            mappings@[k].source_column@,
            (#[trigger] mapped@[k]).0 as int,
        ) && mapped@[k].1@ == mappings@[k].target_column@ by {
            assert(mapped@[k].0 == indexes@[k]);
        }
    }
    Ok(mapped)
}

/// The mapping of a parsed file: the same as over its column names.
pub fn mapping_indexes(data: &ParsedImportFile, mappings: &Vec<TableImportColumnMapping>) -> (r: Result<
    Vec<(usize, String)>,
    String,
>)
    ensures
        match r {
            Ok(mapped) => {
                &&& mapping_outcome_ok(texts(data.columns@), mappings@)
                &&& mapped@.len() == mappings@.len()
                &&& forall|k: int|
                    0 <= k < mappings@.len() ==> is_first_index(
                        texts(data.columns@),
                        mappings@[k].source_column@,
                        (#[trigger] mapped@[k]).0 as int,
                    ) && mapped@[k].1@ == mappings@[k].target_column@
            },
            Err(e) => !mapping_outcome_ok(texts(data.columns@), mappings@) && mapping_error(
                texts(data.columns@),
                mappings@,
                e@,
            ),
        },
{
    mapping_indexes_for_columns(&data.columns, mappings)
}


/// Unicode control characters (general category `Cc`), which `char::is_control` tests.
pub open spec fn is_control(c: char) -> bool {
    (c as u32) <= 0x1f || (0x7f <= (c as u32) && (c as u32) <= 0x9f)
}

/// Parenthesis depth after the first `n` characters of a type expression, or `None`
/// once a `)` has no partner or a `,` stands outside all parentheses.
pub open spec fn paren_scan(s: Seq<char>, n: nat) -> Option<nat>
    decreases n,
{
    if n == 0 {
        Some(0)
    } else {
        match paren_scan(s, (n - 1) as nat) {
            None => None,
            Some(d) => {
                let c = s[n - 1];
                if c == '(' {
                    Some(d + 1)
                } else if c == ')' {
                    if d == 0 { None } else { Some((d - 1) as nat) }
                } else if c == ',' {
                    if d == 0 { None } else { Some(d) }
                } else {
                    Some(d)
                }
            },
        }
    }
}

/// A user-entered column type is one type expression: no `;`, no comment markers,
/// no control characters, balanced parentheses and no top-level comma.
pub open spec fn spec_valid_target_data_type(s: Seq<char>) -> bool {
    &&& !s.contains(';')
    &&& !crate::text::contains_seq(s, "--"@)
    &&& !crate::text::contains_seq(s, "/*"@)
    &&& !crate::text::contains_seq(s, "*/"@)
    &&& forall|i: int| 0 <= i < s.len() ==> !is_control(#[trigger] s[i])
    &&& paren_scan(s, s.len()) == Some(0nat)
}

fn has_control(v: &[char]) -> (r: bool)
    ensures
        r == exists|i: int| 0 <= i < v@.len() && is_control(#[trigger] v@[i]),
{
    for i in 0..v.len()
        invariant
            forall|j: int| 0 <= j < i ==> !is_control(#[trigger] v@[j]),
    {
        let u = v[i] as u32;
        if u <= 0x1f || (0x7f <= u && u <= 0x9f) {
            assert(is_control(v@[i as int]));
            return true;
        }
    }
    false
}

/// The comment markers are ASCII without letters, so looking for them in the text
/// or in its lowercase gives the same answer.
pub fn validate_import_target_data_type(data_type: &str) -> (r: Result<(), String>)
    ensures
        match r {
            Ok(()) => spec_valid_target_data_type(data_type@),
            Err(e) => !spec_valid_target_data_type(data_type@) && e@ == "Unsupported target data type syntax: "@
                + data_type@,
        },
{
    let v = chars_of(data_type);
    let s = v.as_slice();
    let mut e = "Unsupported target data type syntax: ".to_owned();
    push_str(&mut e, data_type);
    if crate::text::chars_contain(s, ';') || crate::text::chars_contain_seq(s, chars_of("--").as_slice())
        || crate::text::chars_contain_seq(s, chars_of("/*").as_slice()) || crate::text::chars_contain_seq(
        s,
        chars_of("*/").as_slice(),
    ) || has_control(s) {
        return Err(e);
    }
    let mut depth: usize = 0;
    for i in 0..v.len()
        invariant
            depth <= i,
            v@ == data_type@,
            e@ == "Unsupported target data type syntax: "@ + data_type@,
            paren_scan(v@, i as nat) == Some(depth as nat),
    {
        let c = v[i];
        if c == '(' {
            depth = depth + 1;
        } else if c == ')' {
            if depth == 0 {
                proof { lemma_paren_scan_fails(v@, (i + 1) as nat, v@.len()); }
                return Err(e);
            }
            depth = depth - 1;
        } else if c == ',' && depth == 0 {
            proof { lemma_paren_scan_fails(v@, (i + 1) as nat, v@.len()); }
            return Err(e);
        }
    }
    if depth != 0 {
        return Err(e);
    }
    Ok(())
}

proof fn lemma_paren_scan_fails(s: Seq<char>, n: nat, m: nat)
    requires
        n <= m,
        paren_scan(s, n) is None,
    ensures
        paren_scan(s, m) is None,
    decreases m - n,
{
    if n < m {
        lemma_paren_scan_fails(s, n, (m - 1) as nat);
    }
}

/// The column type the mapping asks for: none when it gives none; else its trimmed
/// text, which must be non-empty and a valid type expression.
pub fn normalize_import_target_data_type(mapping: &TableImportColumnMapping) -> (r: Result<Option<String>, String>)
    ensures
        match mapping.target_data_type {
            None => r == Ok::<Option<String>, String>(None),
            Some(raw) => {
                let t = trim(raw@);
                match r {
                    Ok(Some(s)) => s@ == t && t.len() > 0 && spec_valid_target_data_type(t),
                    Ok(None) => false,
                    Err(e) => if t.len() == 0 {
                        e@ == "Target data type cannot be empty: "@ + mapping.target_column@
                    } else {
                        !spec_valid_target_data_type(t) && e@ == "Unsupported target data type syntax: "@ + t
                    },
                }
            },
        },
{
    let raw = match &mapping.target_data_type {
        None => return Ok(None),
        Some(raw) => raw,
    };
    let data_type = trim_string(raw.as_str());
    if chars_of(data_type.as_str()).len() == 0 {
        let mut e = "Target data type cannot be empty: ".to_owned();
        push_str(&mut e, mapping.target_column.as_str());
        return Err(e);
    }
    match validate_import_target_data_type(data_type.as_str()) {
        Ok(()) => Ok(Some(data_type)),
        Err(e) => Err(e),
    }
}

/// Whether a batch may hold several rows in one `INSERT ... VALUES`.
pub open spec fn spec_supports_multi_row_insert_values(db: DatabaseType) -> bool {
    !(db is Oracle || db is OceanbaseOracle || db is Iris)
}

pub fn supports_multi_row_insert_values(db_type: &DatabaseType) -> (r: bool)
    ensures
        r == spec_supports_multi_row_insert_values(*db_type),
{
    !matches!(db_type, DatabaseType::Oracle | DatabaseType::OceanbaseOracle | DatabaseType::Iris)
}

/// The statement that empties the target table before a truncating import.
pub open spec fn spec_truncate_sql(table: Seq<char>, schema: Seq<char>, db: DatabaseType) -> Seq<char> {
    if db is Sqlite || db is CloudflareD1 {
        "DELETE FROM "@ + spec_qualified_table(table, schema, db)
    } else {
        "TRUNCATE TABLE "@ + spec_qualified_table(table, schema, db)
    }
}

pub fn truncate_sql(table: &str, schema: &str, db_type: &DatabaseType) -> (r: String)
    ensures
        r@ == spec_truncate_sql(table@, schema@, *db_type),
{
    let full_table = qualified_table(table, schema, db_type);
    let mut out = match db_type {
        DatabaseType::Sqlite | DatabaseType::CloudflareD1 => "DELETE FROM ".to_owned(),
        _ => "TRUNCATE TABLE ".to_owned(),
    };
    push_str(&mut out, full_table.as_str());
    out
}


/// Number of `c` characters at the front of `s`.
pub open spec fn lead_count(s: Seq<char>, c: char) -> nat
    decreases s.len(),
{
    if s.len() > 0 && s[0] == c {
        1 + lead_count(s.drop_first(), c)
    } else {
        0
    }
}

/// Number of `c` characters at the back of `s`.
pub open spec fn trail_count(s: Seq<char>, c: char) -> nat
    decreases s.len(),
{
    if s.len() > 0 && s.last() == c {
        1 + trail_count(s.drop_last(), c)
    } else {
        0
    }
}

pub proof fn lemma_counts_bounded(s: Seq<char>, c: char)
    ensures
        lead_count(s, c) <= s.len(),
        trail_count(s, c) <= s.len(),
    decreases s.len(),
{
    if s.len() > 0 {
        lemma_counts_bounded(s.drop_first(), c);
        lemma_counts_bounded(s.drop_last(), c);
    }
}

/// `str::trim_matches(c)`: `c` removed from both ends.
pub open spec fn strip_char(s: Seq<char>, c: char) -> Seq<char> {
    let a = s.subrange(lead_count(s, c) as int, s.len() as int);
    a.subrange(0, a.len() - trail_count(a, c))
}

fn strip_char_exec(v: &Vec<char>, c: char) -> (r: Vec<char>)
    ensures
        r@ == strip_char(v@, c),
{
    proof { lemma_counts_bounded(v@, c); }
    let mut a: usize = 0;
    assert(v@.subrange(0, v@.len() as int) =~= v@);
    while a < v.len() && v[a] == c
        invariant
            a <= v.len(),
            lead_count(v@, c) == a + lead_count(v@.subrange(a as int, v@.len() as int), c),
        decreases v.len() - a,
    {
        assert(v@.subrange(a as int, v@.len() as int).drop_first() =~= v@.subrange(a + 1, v@.len() as int));
        a = a + 1;
    }
    proof {
        let t = v@.subrange(a as int, v@.len() as int);
        if t.len() > 0 {
            assert(t[0] == v@[a as int]);
        }
    }
    let ghost rest = v@.subrange(a as int, v@.len() as int);
    let mut b: usize = v.len();
    assert(v@.subrange(a as int, v@.len() as int) =~= rest);
    while b > a && v[b - 1] == c
        invariant
            a <= b <= v.len(),
            rest == v@.subrange(a as int, v@.len() as int),
            trail_count(rest, c) == (v.len() - b) + trail_count(v@.subrange(a as int, b as int), c),
        decreases b,
    {
        assert(v@.subrange(a as int, b as int).drop_last() =~= v@.subrange(a as int, b - 1));
        b = b - 1;
    }
    proof {
        let u = v@.subrange(a as int, b as int);
        if u.len() > 0 {
            assert(u.last() == v@[b - 1]);
        }
        assert(strip_char(v@, c) =~= v@.subrange(a as int, b as int));
    }
    let mut out: Vec<char> = Vec::new();
    for i in a..b
        invariant
            a <= b <= v.len(),
            out@ =~= v@.subrange(a as int, i as int),
    {
        out.push(v[i]);
    }
    out
}

pub proof fn lemma_trim_shorter(s: Seq<char>)
    ensures
        trim(s).len() <= s.len(),
{
    crate::text::lemma_lead_ws_bound(s);
    crate::text::lemma_trail_ws_bound(crate::text::trim_start(s));
}

/// `Nullable(...)` and `LowCardinality(...)` wrappers removed (in lowercase), with
/// the inside trimmed, as often as they occur.
pub open spec fn unwrap_type_wrappers(s: Seq<char>) -> Seq<char>
    decreases s.len(),
{
    if s.len() >= 10 && crate::text::starts_with(s, "nullable("@) && s.last() == ')' {
        proof { lemma_trim_shorter(s.subrange(9, s.len() - 1)); }
        unwrap_type_wrappers(trim(s.subrange(9, s.len() - 1)))
    } else if s.len() >= 16 && crate::text::starts_with(s, "lowcardinality("@) && s.last() == ')' {
        proof { lemma_trim_shorter(s.subrange(15, s.len() - 1)); }
        unwrap_type_wrappers(trim(s.subrange(15, s.len() - 1)))
    } else {
        s
    }
}

/// Length of the text before the first `(`, `:` or space.
pub open spec fn first_segment_len(s: Seq<char>) -> nat
    decreases s.len(),
{
    if s.len() == 0 || s[0] == '(' || s[0] == ':' || s[0] == ' ' {
        0
    } else {
        1 + first_segment_len(s.drop_first())
    }
}

/// The name of a type, lowercased, quotes and wrappers removed.
pub open spec fn type_core(data_type: Seq<char>) -> Seq<char> {
    unwrap_type_wrappers(crate::text::lower(strip_char(trim(data_type), '"')))
}

/// Text column types: character and string types, `long` (not `long raw`), text
/// and LOB types, enums and sets, and `character varying`.
pub open spec fn spec_is_textual_import_target_type(data_type: Seq<char>) -> bool {
    let l = type_core(data_type);
    if l == "long raw"@ || crate::text::starts_with(l, "long raw("@) {
        false
    } else {
        let b = trim(l.subrange(0, first_segment_len(l) as int));
        (b == "char"@ || b == "character"@ || b == "varchar"@ || b == "varchar2"@ || b == "nvarchar"@ || b == "nvarchar2"@ || b == "nchar"@ || b == "string"@ || b == "fixedstring"@ || b == "sysname"@ || b == "long"@ || b == "text"@ || b == "tinytext"@ || b == "mediumtext"@ || b == "longtext"@ || b == "ntext"@ || b == "clob"@ || b == "nclob"@ || b == "enum"@ || b == "set"@) || crate::text::starts_with(l, "character varying"@)
    }
}

fn chars_subrange(v: &Vec<char>, a: usize, b: usize) -> (r: Vec<char>)
    requires
        a <= b <= v.len(),
    ensures
        r@ == v@.subrange(a as int, b as int),
{
    let mut out: Vec<char> = Vec::new();
    for i in a..b
        invariant
            a <= b <= v.len(),
            out@ =~= v@.subrange(a as int, i as int),
    {
        out.push(v[i]);
    }
    out
}

fn trim_chars(v: &Vec<char>) -> (r: Vec<char>)
    ensures
        r@ == trim(v@),
{
    let (a, b) = trim_bounds(v);
    chars_subrange(v, a, b)
}

pub fn is_textual_import_target_type(data_type: &str) -> (r: bool)
    ensures
        r == spec_is_textual_import_target_type(data_type@),
{
    let t = trim_chars(&chars_of(data_type));
    let stripped = strip_char_exec(&t, '"');
    let mut l = crate::text::lower_chars(&stripped);
    loop
        invariant
            unwrap_type_wrappers(l@) == type_core(data_type@),
        ensures
            l@ == type_core(data_type@),
        decreases l@.len(),
    {
        let ls = l.as_slice();
        if l.len() >= 10 && crate::text::chars_starts_with(ls, chars_of("nullable(").as_slice()) && l[l.len() - 1] == ')' {
            proof { lemma_trim_shorter(l@.subrange(9, l@.len() - 1)); }
            let inner = chars_subrange(&l, 9, l.len() - 1);
            l = trim_chars(&inner);
        } else if l.len() >= 16 && crate::text::chars_starts_with(ls, chars_of("lowcardinality(").as_slice())
            && l[l.len() - 1] == ')' {
            proof { lemma_trim_shorter(l@.subrange(15, l@.len() - 1)); }
            let inner = chars_subrange(&l, 15, l.len() - 1);
            l = trim_chars(&inner);
        } else {
            break;
        }
    }
    let ls = l.as_slice();
    if crate::text::chars_eq(ls, chars_of("long raw").as_slice()) || crate::text::chars_starts_with(
        ls,
        chars_of("long raw(").as_slice(),
    ) {
        return false;
    }
    let mut n: usize = 0;
    assert(l@.subrange(0, l@.len() as int) =~= l@);
    while n < l.len() && l[n] != '(' && l[n] != ':' && l[n] != ' '
        invariant
            n <= l.len(),
            first_segment_len(l@) == n + first_segment_len(l@.subrange(n as int, l@.len() as int)),
        decreases l.len() - n,
    {
        assert(l@.subrange(n as int, l@.len() as int).drop_first() =~= l@.subrange(n + 1, l@.len() as int));
        n = n + 1;
    }
    proof {
        let t = l@.subrange(n as int, l@.len() as int);
        if t.len() > 0 {
            assert(t[0] == l@[n as int]);
        }
    }
    let seg = chars_subrange(&l, 0, n);
    let base = string_of(trim_chars(&seg).as_slice());
    let b = base.as_str();
    (str_eq(b, "char") || str_eq(b, "character") || str_eq(b, "varchar") || str_eq(b, "varchar2") || str_eq(b, "nvarchar") || str_eq(b, "nvarchar2") || str_eq(b, "nchar") || str_eq(b, "string") || str_eq(b, "fixedstring") || str_eq(b, "sysname") || str_eq(b, "long") || str_eq(b, "text") || str_eq(b, "tinytext") || str_eq(b, "mediumtext") || str_eq(b, "longtext") || str_eq(b, "ntext") || str_eq(b, "clob") || str_eq(b, "nclob") || str_eq(b, "enum") || str_eq(b, "set")) || crate::text::chars_starts_with(ls, chars_of("character varying").as_slice())
}


/// The column type known for a target column: the first entry of the table's column
/// types whose name matches in any ASCII case, else the type the mapping gives.
pub open spec fn known_target_type(
    mapping: TableImportColumnMapping,
    types: Seq<(String, String)>,
) -> Option<Seq<char>> {
    if exists|i: int| 0 <= i < types.len() && crate::text::eq_ic((#[trigger] types[i]).0@, mapping.target_column@) {
        let i = choose|i: int|
            0 <= i < types.len() && crate::text::eq_ic((#[trigger] types[i]).0@, mapping.target_column@)
                && forall|j: int| 0 <= j < i ==> !crate::text::eq_ic(types[j].0@, mapping.target_column@);
        Some(types[i].1@)
    } else {
        match mapping.target_data_type {
            Some(t) => Some(t@),
            None => None,
        }
    }
}

/// Source columns whose target column has a text type.
pub open spec fn is_textual_mapping(mapping: TableImportColumnMapping, types: Seq<(String, String)>) -> bool {
    match known_target_type(mapping, types) {
        Some(t) => spec_is_textual_import_target_type(t),
        None => false,
    }
}

fn find_type_ic(types: &Vec<(String, String)>, name: &str) -> (r: Option<usize>)
    ensures
        match r {
            Some(i) => i < types@.len() && crate::text::eq_ic(types@[i as int].0@, name@) && forall|j: int|
                0 <= j < i ==> !crate::text::eq_ic(types@[j].0@, name@),
            None => forall|j: int| 0 <= j < types@.len() ==> !crate::text::eq_ic(#[trigger] types@[j].0@, name@),
        },
{
    for i in 0..types.len()
        invariant
            forall|j: int| 0 <= j < i ==> !crate::text::eq_ic(#[trigger] types@[j].0@, name@),
    {
        if crate::text::str_eq_ic(types[i].0.as_str(), name) {
            return Some(i);
        }
    }
    None
}

fn is_textual_mapping_exec(mapping: &TableImportColumnMapping, types: &Vec<(String, String)>) -> (r: bool)
    ensures
        r == is_textual_mapping(*mapping, types@),
{
    match find_type_ic(types, mapping.target_column.as_str()) {
        Some(i) => {
            proof {
                let k = choose|k: int|
                    0 <= k < types@.len() && crate::text::eq_ic((#[trigger] types@[k]).0@, mapping.target_column@)
                        && forall|j: int| 0 <= j < k ==> !crate::text::eq_ic(types@[j].0@, mapping.target_column@);
                if k < i {
                    assert(!crate::text::eq_ic(types@[k].0@, mapping.target_column@));
                }
                if i < k {
                    assert(!crate::text::eq_ic(types@[i as int].0@, mapping.target_column@));
                }
            }
            is_textual_import_target_type(types[i].1.as_str())
        },
        None => match &mapping.target_data_type {
            Some(t) => is_textual_import_target_type(t.as_str()),
            None => false,
        },
    }
}

/// The source columns (each named once, in mapping order) whose values go into
/// columns of a text type.
pub fn textual_source_columns_for_import(
    mappings: &Vec<TableImportColumnMapping>,
    target_column_types: &Vec<(String, String)>,
) -> (r: Vec<String>)
    ensures
        forall|s: Seq<char>|
            texts(r@).contains(s) <==> exists|k: int|
                0 <= k < mappings@.len() && (#[trigger] mappings@[k]).source_column@ == s && is_textual_mapping(
                    mappings@[k],
                    target_column_types@,
                ),
        texts(r@).no_duplicates(),
{
    let mut out: Vec<String> = Vec::new();
    for k in 0..mappings.len()
        invariant
            texts(out@).no_duplicates(),
            forall|s: Seq<char>|
                texts(out@).contains(s) <==> exists|i: int|
                    0 <= i < k && (#[trigger] mappings@[i]).source_column@ == s && is_textual_mapping(
                        mappings@[i],
                        target_column_types@,
                    ),
    {
        let m = &mappings[k];
        let ghost before = out@;
        if is_textual_mapping_exec(m, target_column_types) {
            if first_index_of(&out, &m.source_column).is_none() {
                out.push(m.source_column.clone());
                assert(texts(out@) =~= texts(before).push(m.source_column@));
                assert(texts(out@).len() > texts(before).len());
            } else {
                assert(texts(out@).contains(m.source_column@));
            }
        }
        proof {
            if is_textual_mapping(mappings@[k as int], target_column_types@) {
                assert forall|s: Seq<char>| texts(out@).contains(s) <==> (texts(before).contains(s) || s == mappings@[k as int].source_column@) by {
                    if texts(out@).len() > texts(before).len() {
                        assert(texts(out@) =~= texts(before).push(mappings@[k as int].source_column@));
                        if texts(out@).contains(s) {
                            let j = choose|j: int| 0 <= j < texts(out@).len() && texts(out@)[j] == s;
                            if j < texts(before).len() {
                                assert(texts(before)[j] == s);
                            }
                        }
                        if texts(before).contains(s) {
                            let j = choose|j: int| 0 <= j < texts(before).len() && texts(before)[j] == s;
                            assert(texts(out@)[j] == s);
                        }
                        if s == mappings@[k as int].source_column@ {
                            assert(texts(out@)[texts(before).len() as int] == s);
                        }
                    } else {
                        assert(out@ == before);
                    }
                }
            } else {
                assert(out@ == before);
            }
            assert forall|s: Seq<char>|
                texts(out@).contains(s) <==> exists|i: int|
                    0 <= i < k + 1 && (#[trigger] mappings@[i]).source_column@ == s && is_textual_mapping(
                        mappings@[i],
                        target_column_types@,
                    ) by {
                if texts(before).contains(s) {
                    let i = choose|i: int|
                        0 <= i < k && (#[trigger] mappings@[i]).source_column@ == s && is_textual_mapping(
                            mappings@[i],
                            target_column_types@,
                        );
                    assert(0 <= i < k + 1);
                }
                if exists|i: int|
                    0 <= i < k + 1 && (#[trigger] mappings@[i]).source_column@ == s && is_textual_mapping(
                        mappings@[i],
                        target_column_types@,
                    ) {
                    let i = choose|i: int|
                        0 <= i < k + 1 && (#[trigger] mappings@[i]).source_column@ == s && is_textual_mapping(
                            mappings@[i],
                            target_column_types@,
                        );
                    if i < k {
                        assert(texts(before).contains(s));
                    }
                }
            }
        }
    }
    out
}

} // verus!

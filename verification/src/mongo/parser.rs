//! Reading a MongoDB shell command: `db.<collection>.<method>(..)` or
//! `db.getCollection("..").<method>(..)`, with `find()` chains.
use vstd::prelude::*;
use crate::json::{json_parse_text, parse_json_str, JsonModel, JsonValue};
use crate::mongo::scale::{is_finite_number_literal, is_finite_number_literal_exec};
use crate::mongo::command::{MongoCommand, MongoCommandModel};
use crate::mongo::scan::{matching_paren, spec_matching_paren, spec_split_top_level, split_top_level};
use crate::mongo::values::{lemma_trim_len, normalized_json, parse_string_arg, spec_normalized_json, spec_string_arg};
use crate::text::{
    all_digits, char_is_ws, chars_eq_ic, chars_of, digits_value, eq_ic, find_char, find_char_exec, is_ws,
    lead_ws, parse_unsigned, parse_unsigned_chars, push_str, starts_with, string_of, strip_trailing, trim,
    trim_bounds, trim_start, views,
};

verus! {

/// The command text: trimmed, trailing semicolons dropped, trimmed again.
pub open spec fn spec_source(input: Seq<char>) -> Seq<char> {
    trim(strip_trailing(trim(input), ';'))
}

/// Index of the first `.` or whitespace character at or after `i`, or the length.
pub open spec fn dot_or_ws(s: Seq<char>, i: int) -> int
    decreases s.len() - i,
{
    if i < 0 || i >= s.len() {
        s.len() as int
    } else if s[i] == '.' || is_ws(s[i]) {
        i
    } else {
        dot_or_ws(s, i + 1)
    }
}

pub open spec fn method_required() -> Seq<char> {
    "MongoDB collection method is required."@
}

pub open spec fn invalid_collection() -> Seq<char> {
    "Invalid MongoDB collection name."@
}

/// The collection a command names, and where the method part begins.
pub open spec fn spec_collection_prefix(source: Seq<char>) -> Result<(Seq<char>, int), Seq<char>> {
    if !(source.len() >= 3 && eq_ic(source.subrange(0, 3), "db."@)) {
        Err("MongoDB command must start with db.<collection>."@)
    } else {
        let rest = source.subrange(3, source.len() as int);
        if starts_with(rest, "getCollection"@) {
            let open = find_char(rest, 0, '(');
            if open >= rest.len() {
                Err("Invalid db.getCollection() command."@)
            } else {
                match spec_matching_paren(rest, open) {
                    None => Err("Invalid db.getCollection() command."@),
                    Some(close) => {
                        let args = spec_split_top_level(rest.subrange(open + 1, close));
                        if args.len() != 1 {
                            Err("db.getCollection() requires one collection name."@)
                        } else {
                            match spec_string_arg(args[0]) {
                                Err(e) => Err(e),
                                Ok(collection) => {
                                    let end = 3 + close + 1;
                                    let suffix = source.subrange(end, source.len() as int);
                                    let trimmed = trim_start(suffix);
                                    if !(trimmed.len() > 0 && trimmed[0] == '.') {
                                        Err(method_required())
                                    } else {
                                        Ok((collection, end + lead_ws(suffix)))
                                    }
                                },
                            }
                        }
                    },
                }
            }
        } else {
            let ce = dot_or_ws(rest, 0);
            if ce >= rest.len() {
                Err(method_required())
            } else if ce == 0 {
                Err(invalid_collection())
            } else {
                let suffix = rest.subrange(ce, rest.len() as int);
                let dot = find_char(suffix, 0, '.');
                if dot >= suffix.len() {
                    Err(method_required())
                } else if trim(suffix.subrange(0, dot)).len() > 0 {
                    Err(invalid_collection())
                } else {
                    Ok((rest.subrange(0, ce), 3 + ce + dot))
                }
            }
        }
    }
}

/// A call of `method` where the method part begins: its arguments and the trimmed
/// text after its closing parenthesis.
pub open spec fn spec_method_call(source: Seq<char>, prefix_end: int, method: Seq<char>) -> Option<
    (Seq<Seq<char>>, Seq<char>),
> {
    let raw = source.subrange(prefix_end, source.len() as int);
    let ws = lead_ws(raw);
    let suffix = raw.subrange(ws as int, raw.len() as int);
    let expected = seq!['.'] + method;
    if !(starts_with(suffix, expected) && suffix.len() > expected.len() && suffix[expected.len() as int] == '(') {
        None
    } else {
        let open = prefix_end + ws + expected.len();
        match spec_matching_paren(source, open) {
            None => None,
            Some(close) => Some(
                (
                    spec_split_top_level(source.subrange(open + 1, close)),
                    trim(source.subrange(close + 1, source.len() as int)),
                ),
            ),
        }
    }
}

pub open spec fn chain_error() -> Seq<char> {
    "Invalid MongoDB method chain."@
}

/// The calls of a trimmed chain `.name(args).name(args)..`: each name (trimmed) and
/// its arguments.
pub open spec fn spec_chain(rest: Seq<char>) -> Result<Seq<(Seq<char>, Seq<Seq<char>>)>, Seq<char>>
    decreases rest.len(),
{
    if rest.len() == 0 {
        Ok(Seq::empty())
    } else if rest[0] != '.' {
        Err(chain_error())
    } else {
        let after = rest.subrange(1, rest.len() as int);
        let open = find_char(after, 0, '(');
        if open >= after.len() {
            Err(chain_error())
        } else {
            match spec_matching_paren(after, open) {
                None => Err(chain_error()),
                Some(close) => if 0 <= close < after.len() {
                    let next = trim(after.subrange(close + 1, after.len() as int));
                    proof {
                        lemma_trim_len(after.subrange(close + 1, after.len() as int));
                    }
                    match spec_chain(next) {
                        Err(e) => Err(e),
                        Ok(tail) => Ok(
                            seq![(trim(after.subrange(0, open)), spec_split_top_level(after.subrange(open + 1, close)))]
                                + tail,
                        ),
                    }
                } else {
                    Err(chain_error())
                },
            }
        }
    }
}

/// What `str::parse::<i64>` gives: an optional sign, then decimal digits in range.
pub open spec fn spec_parse_i64(s: Seq<char>) -> Option<int> {
    if s.len() > 0 && s[0] == '-' {
        let b = s.drop_first();
        if b.len() > 0 && all_digits(b) && digits_value(b) <= 9223372036854775808 {
            Some(-digits_value(b))
        } else {
            None
        }
    } else {
        parse_unsigned(s, 9223372036854775807)
    }
}

/// The one non-negative integer argument of `skip()` or `limit()`.
pub open spec fn spec_parse_integer(args: Seq<Seq<char>>, name: Seq<char>) -> Result<int, Seq<char>> {
    if args.len() != 1 {
        Err("MongoDB "@ + name + "() requires one integer."@)
    } else {
        match spec_parse_i64(trim(args[0])) {
            Some(v) => if v >= 0 {
                Ok(v)
            } else {
                Err("MongoDB "@ + name + "() requires a non-negative integer."@)
            },
            None => Err("MongoDB "@ + name + "() requires a non-negative integer."@),
        }
    }
}

pub open spec fn first_or_empty(args: Seq<Seq<char>>) -> Seq<char> {
    if args.len() > 0 {
        args[0]
    } else {
        "{}"@
    }
}

/// An optional JSON argument: normalized when present and not blank.
pub open spec fn spec_opt_arg(args: Seq<Seq<char>>, k: int) -> Result<Option<Seq<char>>, Seq<char>> {
    if args.len() > k && trim(args[k]).len() > 0 {
        match spec_normalized_json(args[k]) {
            Ok(j) => Ok(Some(j)),
            Err(e) => Err(e),
        }
    } else {
        Ok(None)
    }
}

pub open spec fn is_json_array(text: Seq<char>) -> bool {
    json_parse_text(text) matches Ok(JsonModel::Array(_))
}

/// The rest of a `find()` chain from call `k` on.
pub open spec fn spec_find_calls(
    collection: Seq<char>,
    filter: Seq<char>,
    projection: Option<Seq<char>>,
    calls: Seq<(Seq<char>, Seq<Seq<char>>)>,
    k: int,
    sort: Option<Seq<char>>,
    skip: int,
    limit: int,
) -> Result<MongoCommandModel, Seq<char>>
    decreases calls.len() - k,
{
    if k < 0 || k >= calls.len() {
        Ok(MongoCommandModel::Find { collection, filter, projection, sort, skip, limit })
    } else {
        let name = calls[k].0;
        let args = calls[k].1;
        if name == "sort"@ {
            match spec_normalized_json(first_or_empty(args)) {
                Err(e) => Err(e),
                Ok(s) => spec_find_calls(collection, filter, projection, calls, k + 1, Some(s), skip, limit),
            }
        } else if name == "skip"@ {
            match spec_parse_integer(args, "skip"@) {
                Err(e) => Err(e),
                Ok(v) => spec_find_calls(collection, filter, projection, calls, k + 1, sort, v, limit),
            }
        } else if name == "limit"@ {
            match spec_parse_integer(args, "limit"@) {
                Err(e) => Err(e),
                Ok(v) => spec_find_calls(collection, filter, projection, calls, k + 1, sort, skip, v),
            }
        } else if name == "count"@ && args.len() == 0 {
            Ok(MongoCommandModel::Count { collection, filter, accurate: false })
        } else {
            Err("Unsupported MongoDB find() chain: "@ + name + "()"@)
        }
    }
}

pub open spec fn spec_find(collection: Seq<char>, args: Seq<Seq<char>>, tail: Seq<char>) -> Result<
    MongoCommandModel,
    Seq<char>,
> {
    match spec_normalized_json(first_or_empty(args)) {
        Err(e) => Err(e),
        Ok(filter) => match spec_opt_arg(args, 1) {
            Err(e) => Err(e),
            Ok(projection) => if args.len() > 2 {
                Err("MongoDB find() accepts at most filter and projection arguments."@)
            } else {
                match spec_chain(trim(tail)) {
                    Err(e) => Err(e),
                    Ok(calls) => spec_find_calls(collection, filter, projection, calls, 0, None, 0, 100),
                }
            },
        },
    }
}

pub open spec fn invalid_command(method: Seq<char>) -> Seq<char> {
    "Invalid MongoDB "@ + method + "() command."@
}

/// A command for method `k` of [`method_names`] (the methods other than `find`):
/// the argument checks, then the arguments normalized in order.
pub open spec fn spec_other(collection: Seq<char>, k: int, args: Seq<Seq<char>>, tail: Seq<char>) -> Result<
    MongoCommandModel,
    Seq<char>,
> {
    let n = args.len();
    let m = method_names()[k];
    if k == 0 || k == 1 {
        if tail.len() > 0 || n > 1 {
            Err(invalid_command(m))
        } else {
            match spec_normalized_json(first_or_empty(args)) {
                Err(e) => Err(e),
                Ok(filter) => Ok(MongoCommandModel::Count { collection, filter, accurate: k == 0 }),
            }
        }
    } else if k == 2 {
        if tail.len() > 0 || !(1 <= n <= 2) {
            Err(invalid_command(m))
        } else {
            match spec_normalized_json(args[0]) {
                Err(e) => Err(e),
                Ok(pipeline) => if !is_json_array(pipeline) {
                    Err("MongoDB aggregate() requires a pipeline array."@)
                } else {
                    match spec_opt_arg(args, 1) {
                        Err(e) => Err(e),
                        Ok(options) => Ok(MongoCommandModel::Aggregate { collection, pipeline, options }),
                    }
                },
            }
        }
    } else if k == 3 {
        if tail.len() > 0 || !(1 <= n <= 2) {
            Err(invalid_command(m))
        } else {
            match spec_string_arg(args[0]) {
                Err(e) => Err(e),
                Ok(field) => match spec_opt_arg(args, 1) {
                    Err(e) => Err(e),
                    Ok(filter) => Ok(MongoCommandModel::Distinct { collection, field, filter }),
                },
            }
        }
    } else if k == 4 {
        if tail.len() > 0 || n > 0 {
            Err(invalid_command(m))
        } else {
            Ok(MongoCommandModel::GetIndexes { collection })
        }
    } else if 5 <= k <= 8 {
        if tail.len() > 0 || n > 1 {
            Err(invalid_command(m))
        } else {
            if n > 0 && trim(args[0]).len() > 0 {
                if is_finite_number_literal(trim(args[0])) {
                    Ok(MongoCommandModel::CollectionStats { collection, metric: m, scale: Some(trim(args[0])) })
                } else {
                    Err("Invalid "@ + m + " scale."@)
                }
            } else {
                Ok(MongoCommandModel::CollectionStats { collection, metric: m, scale: None })
            }
        }
    } else if k == 9 || k == 10 {
        if tail.len() > 0 || n != 1 {
            Err(invalid_command(m))
        } else {
            match spec_normalized_json(args[0]) {
                Err(e) => Err(e),
                Ok(documents) => if k == 10 && !is_json_array(documents) {
                    Err("MongoDB insertMany() requires an array."@)
                } else {
                    Ok(MongoCommandModel::Insert { collection, documents })
                },
            }
        }
    } else if k == 11 || k == 12 {
        if tail.len() > 0 || !(2 <= n <= 3) {
            Err(invalid_command(m))
        } else {
            match spec_normalized_json(args[0]) {
                Err(e) => Err(e),
                Ok(filter) => match spec_normalized_json(args[1]) {
                    Err(e) => Err(e),
                    Ok(update) => match spec_opt_arg(args, 2) {
                        Err(e) => Err(e),
                        Ok(options) => Ok(
                            MongoCommandModel::Update { collection, filter, update, options, many: k == 12 },
                        ),
                    },
                },
            }
        }
    } else if k == 13 || k == 14 {
        if tail.len() > 0 || n != 1 {
            Err(invalid_command(m))
        } else {
            match spec_normalized_json(args[0]) {
                Err(e) => Err(e),
                Ok(filter) => Ok(MongoCommandModel::Delete { collection, filter, many: k == 14 }),
            }
        }
    } else if k == 15 {
        if tail.len() > 0 || !(1 <= n <= 2) {
            Err(invalid_command(m))
        } else {
            match spec_normalized_json(args[0]) {
                Err(e) => Err(e),
                Ok(keys) => match spec_opt_arg(args, 1) {
                    Err(e) => Err(e),
                    Ok(options) => Ok(MongoCommandModel::CreateIndex { collection, keys, options }),
                },
            }
        }
    } else if k == 16 {
        if tail.len() > 0 || n != 1 {
            Err(invalid_command(m))
        } else {
            match spec_normalized_json(args[0]) {
                Err(e) => Err(e),
                Ok(index) => Ok(MongoCommandModel::DropIndexes { collection, indexes: Some(index), single: true }),
            }
        }
    } else if k == 17 {
        if tail.len() > 0 || n > 1 {
            Err(invalid_command(m))
        } else {
            match spec_opt_arg(args, 0) {
                Err(e) => Err(e),
                Ok(indexes) => Ok(MongoCommandModel::DropIndexes { collection, indexes, single: false }),
            }
        }
    } else {
        if tail.len() > 0 || n > 0 {
            Err(invalid_command(m))
        } else {
            Ok(MongoCommandModel::DropCollection { collection })
        }
    }
}

/// The methods after `find`, in the order in which they are tried.
pub open spec fn method_names() -> Seq<Seq<char>> {
    seq![
        "countDocuments"@,
        "count"@,
        "aggregate"@,
        "distinct"@,
        "getIndexes"@,
        "stats"@,
        "dataSize"@,
        "storageSize"@,
        "totalIndexSize"@,
        "insertOne"@,
        "insertMany"@,
        "updateOne"@,
        "updateMany"@,
        "deleteOne"@,
        "deleteMany"@,
        "createIndex"@,
        "dropIndex"@,
        "dropIndexes"@,
        "drop"@,
    ]
}

/// The command for the first method from `k` on that the text calls.
pub open spec fn spec_dispatch(source: Seq<char>, collection: Seq<char>, prefix_end: int, k: int) -> Result<
    MongoCommandModel,
    Seq<char>,
>
    decreases method_names().len() - k,
{
    if k < 0 || k >= method_names().len() {
        Err("Unsupported MongoDB shell command."@)
    } else {
        match spec_method_call(source, prefix_end, method_names()[k]) {
            Some((args, tail)) => spec_other(collection, k, args, tail),
            None => spec_dispatch(source, collection, prefix_end, k + 1),
        }
    }
}

/// What a MongoDB shell command text means: `db.version()`, or a call on a
/// collection, with its JSON arguments normalized.
pub open spec fn spec_parse(input: Seq<char>) -> Result<MongoCommandModel, Seq<char>> {
    let source = spec_source(input);
    if eq_ic(source, "db.version()"@) {
        Ok(MongoCommandModel::Version)
    } else {
        match spec_collection_prefix(source) {
            Err(e) => Err(e),
            Ok((collection, prefix_end)) => match spec_method_call(source, prefix_end, "find"@) {
                Some((args, tail)) => spec_find(collection, args, tail),
                None => spec_dispatch(source, collection, prefix_end, 0),
            },
        }
    }
}


fn owned(s: &str) -> (r: String)
    ensures
        r@ == s@,
{
    let mut out = String::new();
    push_str(&mut out, s);
    out
}

/// The characters `s[a..b]`.
fn subvec(s: &Vec<char>, a: usize, b: usize) -> (r: Vec<char>)
    requires
        a <= b <= s.len(),
    ensures
        r@ == s@.subrange(a as int, b as int),
{
    let mut out: Vec<char> = Vec::new();
    let mut k = a;
    while k < b
        invariant
            a <= k <= b <= s.len(),
            out@ == s@.subrange(a as int, k as int),
        decreases b - k,
    {
        out.push(s[k]);
        assert(out@ =~= s@.subrange(a as int, k + 1));
        k = k + 1;
    }
    out
}

/// The characters of `s` without surrounding whitespace.
fn trimmed(s: &Vec<char>) -> (r: Vec<char>)
    ensures
        r@ == trim(s@),
{
    let (x, y) = trim_bounds(s);
    subvec(s, x, y)
}

/// Number of leading whitespace characters of `s[from..]`.
fn lead_ws_from(s: &Vec<char>, from: usize) -> (r: usize)
    requires
        from <= s.len(),
    ensures
        r == lead_ws(s@.subrange(from as int, s.len() as int)),
        from + r <= s.len(),
{
    let ghost t = s@.subrange(from as int, s.len() as int);
    let mut i = from;
    while i < s.len() && char_is_ws(s[i])
        invariant
            from <= i <= s.len(),
            t == s@.subrange(from as int, s.len() as int),
            lead_ws(t) == (i - from) + lead_ws(s@.subrange(i as int, s.len() as int)),
        decreases s.len() - i,
    {
        assert(s@.subrange(i as int, s.len() as int).drop_first() =~= s@.subrange(i + 1, s.len() as int));
        i = i + 1;
    }
    i - from
}

/// The command text of the input: trimmed, trailing `;` removed, trimmed again.
fn source_chars(input: &str) -> (r: Vec<char>)
    ensures
        r@ == spec_source(input@),
{
    let v = chars_of(input);
    let t = trimmed(&v);
    let mut n = t.len();
    assert(t@.subrange(0, n as int) =~= t@);
    while n > 0 && t[n - 1] == ';'
        invariant
            n <= t.len(),
            strip_trailing(t@, ';') == strip_trailing(t@.subrange(0, n as int), ';'),
        decreases n,
    {
        assert(t@.subrange(0, n as int).drop_last() =~= t@.subrange(0, n - 1));
        n = n - 1;
    }
    assert(t@.subrange(0, n as int) == strip_trailing(t@, ';'));
    let stripped = subvec(&t, 0, n);
    trimmed(&stripped)
}

fn dot_or_ws_exec(s: &Vec<char>) -> (r: usize)
    ensures
        r == dot_or_ws(s@, 0),
        r <= s.len(),
{
    let mut i: usize = 0;
    while i < s.len() && !(s[i] == '.' || char_is_ws(s[i]))
        invariant
            i <= s.len(),
            dot_or_ws(s@, 0) == dot_or_ws(s@, i as int),
        decreases s.len() - i,
    {
        i = i + 1;
    }
    i
}

/// The collection a command names and where its method part begins.
pub fn parse_collection_prefix(source: &Vec<char>) -> (r: Result<(String, usize), String>)
    ensures
        match r {
            Ok((c, e)) => spec_collection_prefix(source@) == Ok::<(Seq<char>, int), Seq<char>>((c@, e as int))
                && e <= source.len(),
            Err(m) => spec_collection_prefix(source@) == Err::<(Seq<char>, int), Seq<char>>(m@),
        },
{
    let db = chars_of("db.");
    if !(source.len() >= 3 && chars_eq_ic(&source.as_slice()[0..3], db.as_slice())) {
        return Err(owned("MongoDB command must start with db.<collection>."));
    }
    let rest = subvec(source, 3, source.len());
    let gc = chars_of("getCollection");
    if crate::text::chars_starts_with(rest.as_slice(), gc.as_slice()) {
        let open = find_char_exec(&rest, 0, '(');
        if open >= rest.len() {
            return Err(owned("Invalid db.getCollection() command."));
        }
        let close = match matching_paren(&rest, open) {
            Some(k) => k,
            None => {
                return Err(owned("Invalid db.getCollection() command."));
            },
        };
        let inner = subvec(&rest, open + 1, close);
        let args = split_top_level(&inner);
        if args.len() != 1 {
            return Err(owned("db.getCollection() requires one collection name."));
        }
        assert(views(args@)[0] == args@[0]@);
        let collection = match parse_string_arg(args[0].as_str()) {
            Ok(c) => c,
            Err(e) => {
                return Err(e);
            },
        };
        let end = 3 + close + 1;
        let ws = lead_ws_from(source, end);
        proof {
            crate::text::lemma_lead_ws_bound(source@.subrange(end as int, source.len() as int));
        }
        if !(end + ws < source.len() && source[end + ws] == '.') {
            return Err(owned("MongoDB collection method is required."));
        }
        return Ok((collection, end + ws));
    }
    let ce = dot_or_ws_exec(&rest);
    if ce >= rest.len() {
        return Err(owned("MongoDB collection method is required."));
    }
    if ce == 0 {
        return Err(owned("Invalid MongoDB collection name."));
    }
    let suffix = subvec(&rest, ce, rest.len());
    let dot = find_char_exec(&suffix, 0, '.');
    if dot >= suffix.len() {
        return Err(owned("MongoDB collection method is required."));
    }
    let before_dot = subvec(&suffix, 0, dot);
    let (x, y) = trim_bounds(&before_dot);
    if x < y {
        return Err(owned("Invalid MongoDB collection name."));
    }
    let name = subvec(&rest, 0, ce);
    Ok((string_of(name.as_slice()), 3 + ce + dot))
}

/// A call of `method` at the method part of the command: its arguments and the
/// trimmed text after it.
pub fn method_call(source: &Vec<char>, prefix_end: usize, method: &str) -> (r: Option<(Vec<String>, Vec<char>)>)
    requires
        prefix_end <= source.len(),
    ensures
        match r {
            Some((args, tail)) => spec_method_call(source@, prefix_end as int, method@) == Some((views(args@), tail@)),
            None => spec_method_call(source@, prefix_end as int, method@) is None,
        },
{
    let ws = lead_ws_from(source, prefix_end);
    let m = chars_of(method);
    let mut expected: Vec<char> = Vec::new();
    expected.push('.');
    let mut k: usize = 0;
    while k < m.len()
        invariant
            k <= m.len(),
            expected@ == seq!['.'] + m@.subrange(0, k as int),
        decreases m.len() - k,
    {
        expected.push(m[k]);
        assert(expected@ =~= seq!['.'] + m@.subrange(0, k + 1));
        k = k + 1;
    }
    assert(m@.subrange(0, m@.len() as int) =~= m@);
    let start = prefix_end + ws;
    let ghost raw = source@.subrange(prefix_end as int, source.len() as int);
    let ghost suffix = raw.subrange(ws as int, raw.len() as int);
    assert(suffix =~= source@.subrange(start as int, source.len() as int));
    if !crate::text::has_at(source.as_slice(), start, expected.as_slice()) {
        assert(!crate::text::starts_with(suffix, expected@)) by {
            if expected@.len() <= suffix.len() {
                assert(suffix.subrange(0, expected@.len() as int) =~= source@.subrange(
                    start as int,
                    start + expected@.len(),
                ));
            }
        }
        return None;
    }
    assert(suffix.subrange(0, expected@.len() as int) =~= source@.subrange(start as int, start + expected@.len()));
    let open = start + expected.len();
    if !(open < source.len() && source[open] == '(') {
        return None;
    }
    let close = match matching_paren(source, open) {
        Some(c) => c,
        None => {
            return None;
        },
    };
    let inner = subvec(source, open + 1, close);
    let args = split_top_level(&inner);
    let after = subvec(source, close + 1, source.len());
    let tail = trimmed(&after);
    Some((args, tail))
}

pub open spec fn call_views(calls: Seq<(String, Vec<String>)>) -> Seq<(Seq<char>, Seq<Seq<char>>)> {
    calls.map_values(|c: (String, Vec<String>)| (c.0@, views(c.1@)))
}

/// The calls of a trimmed `find()` chain.
pub fn chained_calls(chain: &Vec<char>) -> (r: Result<Vec<(String, Vec<String>)>, String>)
    ensures
        match r {
            Ok(calls) => spec_chain(chain@) == Ok::<Seq<(Seq<char>, Seq<Seq<char>>)>, Seq<char>>(
                call_views(calls@),
            ),
            Err(e) => spec_chain(chain@) == Err::<Seq<(Seq<char>, Seq<Seq<char>>)>, Seq<char>>(e@),
        },
{
    let mut calls: Vec<(String, Vec<String>)> = Vec::new();
    let mut rest: Vec<char> = subvec(chain, 0, chain.len());
    assert(chain@.subrange(0, chain@.len() as int) =~= chain@);
    while rest.len() > 0
        invariant
            spec_chain(chain@) == match spec_chain(rest@) {
                Ok(t) => Ok::<Seq<(Seq<char>, Seq<Seq<char>>)>, Seq<char>>(call_views(calls@) + t),
                Err(e) => Err::<Seq<(Seq<char>, Seq<Seq<char>>)>, Seq<char>>(e),
            },
        decreases rest@.len(),
    {
        if rest[0] != '.' {
            return Err(owned("Invalid MongoDB method chain."));
        }
        let after = subvec(&rest, 1, rest.len());
        let open = find_char_exec(&after, 0, '(');
        if open >= after.len() {
            return Err(owned("Invalid MongoDB method chain."));
        }
        let close = match matching_paren(&after, open) {
            Some(c) => c,
            None => {
                return Err(owned("Invalid MongoDB method chain."));
            },
        };
        let name_chars = subvec(&after, 0, open);
        let name = trimmed(&name_chars);
        let inner = subvec(&after, open + 1, close);
        let args = split_top_level(&inner);
        let next_raw = subvec(&after, close + 1, after.len());
        let next = trimmed(&next_raw);
        proof {
            lemma_trim_len(next_raw@);
        }
        let ghost before = calls@;
        calls.push((string_of(name.as_slice()), args));
        proof {
            let item = (trim(after@.subrange(0, open as int)), spec_split_top_level(after@.subrange(open + 1, close as int)));
            assert(call_views(calls@) =~= call_views(before).push(item));
            match spec_chain(next@) {
                Ok(t) => {
                    assert(call_views(before) + (seq![item] + t) =~= call_views(calls@) + t);
                },
                Err(e) => {},
            }
        }
        rest = next;
    }
    assert(call_views(calls@) + Seq::empty() =~= call_views(calls@));
    Ok(calls)
}

/// `str::parse::<i64>` on characters.
fn parse_i64(v: &Vec<char>) -> (r: Option<i64>)
    ensures
        match r {
            Some(n) => spec_parse_i64(v@) == Some(n as int),
            None => spec_parse_i64(v@) is None,
        },
{
    if v.len() > 0 && v[0] == '-' {
        let body = subvec(v, 1, v.len());
        assert(body@ =~= v@.drop_first());
        if body.len() > 0 && body[0] == '+' {
            assert(!crate::text::is_digit(body@[0]));
            return None;
        }
        match parse_unsigned_chars(body.as_slice(), 9223372036854775808) {
            Some(n) => {
                if n == 9223372036854775808 {
                    Some(-9223372036854775807 - 1)
                } else {
                    let m = n as i64;
                    Some(-m)
                }
            },
            None => None,
        }
    } else {
        match parse_unsigned_chars(v.as_slice(), 9223372036854775807) {
            Some(n) => Some(n as i64),
            None => None,
        }
    }
}

fn call_message(before: &str, name: &str, after: &str) -> (r: String)
    ensures
        r@ == before@ + name@ + after@,
{
    let mut out = String::new();
    push_str(&mut out, before);
    push_str(&mut out, name);
    push_str(&mut out, after);
    out
}

/// The one non-negative integer argument of `skip()` or `limit()`.
pub fn parse_integer(args: &Vec<String>, name: &str) -> (r: Result<i64, String>)
    ensures
        match r {
            Ok(n) => spec_parse_integer(views(args@), name@) == Ok::<int, Seq<char>>(n as int),
            Err(e) => spec_parse_integer(views(args@), name@) == Err::<int, Seq<char>>(e@),
        },
{
    if args.len() != 1 {
        return Err(call_message("MongoDB ", name, "() requires one integer."));
    }
    assert(views(args@)[0] == args@[0]@);
    let v = chars_of(args[0].as_str());
    let t = trimmed(&v);
    match parse_i64(&t) {
        Some(n) => {
            if n >= 0 {
                Ok(n)
            } else {
                Err(call_message("MongoDB ", name, "() requires a non-negative integer."))
            }
        },
        None => Err(call_message("MongoDB ", name, "() requires a non-negative integer.")),
    }
}

fn is_blank(s: &String) -> (r: bool)
    ensures
        r == (trim(s@).len() == 0),
{
    let v = chars_of(s.as_str());
    let (x, y) = trim_bounds(&v);
    x == y
}

/// An optional JSON argument at `k`: normalized when present and not blank.
fn opt_arg(args: &Vec<String>, k: usize) -> (r: Result<Option<String>, String>)
    ensures
        match r {
            Ok(o) => spec_opt_arg(views(args@), k as int) == Ok::<Option<Seq<char>>, Seq<char>>(
                match o {
                    Some(t) => Some(t@),
                    None => None,
                },
            ),
            Err(e) => spec_opt_arg(views(args@), k as int) == Err::<Option<Seq<char>>, Seq<char>>(e@),
        },
{
    if k < args.len() && !is_blank(&args[k]) {
        assert(views(args@)[k as int] == args@[k as int]@);
        match normalized_json(args[k].as_str()) {
            Ok(j) => Ok(Some(j)),
            Err(e) => Err(e),
        }
    } else {
        proof {
            if k < args.len() {
                assert(views(args@)[k as int] == args@[k as int]@);
            }
        }
        Ok(None)
    }
}

fn first_or_empty_exec(args: &Vec<String>) -> (r: String)
    ensures
        r@ == first_or_empty(views(args@)),
{
    if args.len() > 0 {
        assert(views(args@)[0] == args@[0]@);
        args[0].clone()
    } else {
        owned("{}")
    }
}

fn json_is_array(text: &String) -> (r: bool)
    ensures
        r == is_json_array(text@),
{
    match parse_json_str(text.as_str()) {
        Ok(JsonValue::Array(_)) => true,
        _ => false,
    }
}


/// A parse outcome with the command taken by its model.
pub open spec fn parsed(r: Result<MongoCommand, String>) -> Result<MongoCommandModel, Seq<char>> {
    match r {
        Ok(c) => Ok(c@),
        Err(e) => Err(e@),
    }
}

pub open spec fn oview(o: Option<String>) -> Option<Seq<char>> {
    match o {
        Some(t) => Some(t@),
        None => None,
    }
}

/// The name of method `k` of [`method_names`].
fn method_name(k: usize) -> (r: &'static str)
    requires
    k < 19,
    ensures
        r@ == method_names()[k as int],
{
    if k == 0 {
    "countDocuments"
    } else if k == 1 {
        "count"
    } else if k == 2 {
        "aggregate"
    } else if k == 3 {
        "distinct"
    } else if k == 4 {
        "getIndexes"
    } else if k == 5 {
        "stats"
    } else if k == 6 {
        "dataSize"
    } else if k == 7 {
        "storageSize"
    } else if k == 8 {
        "totalIndexSize"
    } else if k == 9 {
        "insertOne"
    } else if k == 10 {
        "insertMany"
    } else if k == 11 {
        "updateOne"
    } else if k == 12 {
        "updateMany"
    } else if k == 13 {
        "deleteOne"
    } else if k == 14 {
        "deleteMany"
    } else if k == 15 {
        "createIndex"
    } else if k == 16 {
        "dropIndex"
    } else if k == 17 {
        "dropIndexes"
    } else if k == 18 {
        "drop"
    } else {
        "drop"
    }
}


/// The `find()` command and its chain.
fn find_command(collection: String, args: &Vec<String>, tail: &Vec<char>) -> (r: Result<MongoCommand, String>)
    ensures
        parsed(r) == spec_find(collection@, views(args@), tail@),
{
    let filter = match normalized_json(first_or_empty_exec(args).as_str()) {
        Ok(f) => f,
        Err(e) => {
            return Err(e);
        },
    };
    let projection = match opt_arg(args, 1) {
        Ok(p) => p,
        Err(e) => {
            return Err(e);
        },
    };
    if args.len() > 2 {
        return Err(owned("MongoDB find() accepts at most filter and projection arguments."));
    }
    let chain = trimmed(tail);
    let calls = match chained_calls(&chain) {
        Ok(c) => c,
        Err(e) => {
            return Err(e);
        },
    };
    let ghost cv = call_views(calls@);
    let mut sort: Option<String> = None;
    let mut skip: u64 = 0;
    let mut limit: i64 = 100;
    let mut k: usize = 0;
    while k < calls.len()
        invariant
            k <= calls.len(),
            cv == call_views(calls@),
            spec_find(collection@, views(args@), tail@) == spec_find_calls(
                collection@,
                filter@,
                oview(projection),
                cv,
                k as int,
                oview(sort),
                skip as int,
                limit as int,
            ),
        decreases calls.len() - k,
    {
        let name = &calls[k].0;
        let call_args = &calls[k].1;
        assert(cv[k as int] == (name@, views(call_args@)));
        if crate::text::str_eq(name.as_str(), "sort") {
            match normalized_json(first_or_empty_exec(call_args).as_str()) {
                Ok(v) => {
                    sort = Some(v);
                },
                Err(e) => {
                    return Err(e);
                },
            }
        } else if crate::text::str_eq(name.as_str(), "skip") {
            match parse_integer(call_args, "skip") {
                Ok(v) => {
                    skip = v as u64;
                },
                Err(e) => {
                    return Err(e);
                },
            }
        } else if crate::text::str_eq(name.as_str(), "limit") {
            match parse_integer(call_args, "limit") {
                Ok(v) => {
                    limit = v;
                },
                Err(e) => {
                    return Err(e);
                },
            }
        } else if crate::text::str_eq(name.as_str(), "count") && call_args.len() == 0 {
            return Ok(MongoCommand::Count { collection, filter, accurate: false });
        } else {
            return Err(call_message("Unsupported MongoDB find() chain: ", name.as_str(), "()"));
        }
        k = k + 1;
    }
    Ok(MongoCommand::Find { collection, filter, projection, sort, skip, limit })
}

fn invalid_command_exec(k: usize) -> (r: String)
    requires
        k < 19,
    ensures
        r@ == invalid_command(method_names()[k as int]),
{
    call_message("Invalid MongoDB ", method_name(k), "() command.")
}

fn normalized_at(args: &Vec<String>, k: usize) -> (r: Result<String, String>)
    requires
        k < args.len(),
    ensures
        match r {
            Ok(t) => spec_normalized_json(views(args@)[k as int]) == Ok::<Seq<char>, Seq<char>>(t@),
            Err(e) => spec_normalized_json(views(args@)[k as int]) == Err::<Seq<char>, Seq<char>>(e@),
        },
{
    assert(views(args@)[k as int] == args@[k as int]@);
    normalized_json(args[k].as_str())
}

/// The command for method `k` of [`method_names`].
fn other_command(collection: String, k: usize, args: &Vec<String>, tail: &Vec<char>) -> (r: Result<
    MongoCommand,
    String,
>)
    requires
        k < 19,
    ensures
        parsed(r) == spec_other(collection@, k as int, views(args@), tail@),
{
    let n = args.len();
    let has_tail = tail.len() > 0;
    if k == 0 || k == 1 {
        if has_tail || n > 1 {
            return Err(invalid_command_exec(k));
        }
        return match normalized_json(first_or_empty_exec(args).as_str()) {
            Ok(filter) => Ok(MongoCommand::Count { collection, filter, accurate: k == 0 }),
            Err(e) => Err(e),
        };
    }
    if k == 2 {
        if has_tail || !(1 <= n && n <= 2) {
            return Err(invalid_command_exec(k));
        }
        let pipeline = match normalized_at(args, 0) {
            Ok(p) => p,
            Err(e) => {
                return Err(e);
            },
        };
        if !json_is_array(&pipeline) {
            return Err(owned("MongoDB aggregate() requires a pipeline array."));
        }
        return match opt_arg(args, 1) {
            Ok(options) => Ok(MongoCommand::Aggregate { collection, pipeline, options }),
            Err(e) => Err(e),
        };
    }
    if k == 3 {
        if has_tail || !(1 <= n && n <= 2) {
            return Err(invalid_command_exec(k));
        }
        assert(views(args@)[0] == args@[0]@);
        let field = match parse_string_arg(args[0].as_str()) {
            Ok(f) => f,
            Err(e) => {
                return Err(e);
            },
        };
        return match opt_arg(args, 1) {
            Ok(filter) => Ok(MongoCommand::Distinct { collection, field, filter }),
            Err(e) => Err(e),
        };
    }
    if k == 4 {
        if has_tail || n > 0 {
            return Err(invalid_command_exec(k));
        }
        return Ok(MongoCommand::GetIndexes { collection });
    }
    if 5 <= k && k <= 8 {
        if has_tail || n > 1 {
            return Err(invalid_command_exec(k));
        }
        let scale = if n > 0 && !is_blank(&args[0]) {
            assert(views(args@)[0] == args@[0]@);
            let v = chars_of(args[0].as_str());
            let t = trimmed(&v);
            if !is_finite_number_literal_exec(&t) {
                return Err(call_message("Invalid ", method_name(k), " scale."));
            }
            Some(string_of(t.as_slice()))
        } else {
            proof {
                if n > 0 {
                    assert(views(args@)[0] == args@[0]@);
                }
            }
            None
        };
        return Ok(MongoCommand::CollectionStats { collection, metric: owned(method_name(k)), scale });
    }
    if k == 9 || k == 10 {
        if has_tail || n != 1 {
            return Err(invalid_command_exec(k));
        }
        let documents = match normalized_at(args, 0) {
            Ok(d) => d,
            Err(e) => {
                return Err(e);
            },
        };
        if k == 10 && !json_is_array(&documents) {
            return Err(owned("MongoDB insertMany() requires an array."));
        }
        return Ok(MongoCommand::Insert { collection, documents });
    }
    if k == 11 || k == 12 {
        if has_tail || !(2 <= n && n <= 3) {
            return Err(invalid_command_exec(k));
        }
        let filter = match normalized_at(args, 0) {
            Ok(f) => f,
            Err(e) => {
                return Err(e);
            },
        };
        let update = match normalized_at(args, 1) {
            Ok(u) => u,
            Err(e) => {
                return Err(e);
            },
        };
        return match opt_arg(args, 2) {
            Ok(options) => Ok(MongoCommand::Update { collection, filter, update, options, many: k == 12 }),
            Err(e) => Err(e),
        };
    }
    if k == 13 || k == 14 {
        if has_tail || n != 1 {
            return Err(invalid_command_exec(k));
        }
        return match normalized_at(args, 0) {
            Ok(filter) => Ok(MongoCommand::Delete { collection, filter, many: k == 14 }),
            Err(e) => Err(e),
        };
    }
    if k == 15 {
        if has_tail || !(1 <= n && n <= 2) {
            return Err(invalid_command_exec(k));
        }
        let keys = match normalized_at(args, 0) {
            Ok(x) => x,
            Err(e) => {
                return Err(e);
            },
        };
        return match opt_arg(args, 1) {
            Ok(options) => Ok(MongoCommand::CreateIndex { collection, keys, options }),
            Err(e) => Err(e),
        };
    }
    if k == 16 {
        if has_tail || n != 1 {
            return Err(invalid_command_exec(k));
        }
        return match normalized_at(args, 0) {
            Ok(index) => Ok(MongoCommand::DropIndexes { collection, indexes: Some(index), single: true }),
            Err(e) => Err(e),
        };
    }
    if k == 17 {
        if has_tail || n > 1 {
            return Err(invalid_command_exec(k));
        }
        return match opt_arg(args, 0) {
            Ok(indexes) => Ok(MongoCommand::DropIndexes { collection, indexes, single: false }),
            Err(e) => Err(e),
        };
    }
    if has_tail || n > 0 {
        return Err(invalid_command_exec(k));
    }
    Ok(MongoCommand::DropCollection { collection })
}

/// Reads a MongoDB shell command: `db.version()`, or `db.<collection>.<method>(..)`
/// (also `db.getCollection("<name>").<method>(..)`) for `find` with an optional
/// `sort`/`skip`/`limit`/`count` chain, `countDocuments`, `count`, `aggregate`,
/// `distinct`, `getIndexes`, the size statistics, inserts, updates, deletes and index
/// and collection drops. JSON arguments may use JSON5 and `ObjectId(..)` /
/// `ISODate(..)`, and come back as compact JSON.
pub fn parse(input: &str) -> (r: Result<MongoCommand, String>)
    ensures
        parsed(r) == spec_parse(input@),
{
    let source = source_chars(input);
    let version = chars_of("db.version()");
    if chars_eq_ic(source.as_slice(), version.as_slice()) {
        return Ok(MongoCommand::Version);
    }
    let (collection, prefix_end) = match parse_collection_prefix(&source) {
        Ok(p) => p,
        Err(e) => {
            return Err(e);
        },
    };
    if let Some((args, tail)) = method_call(&source, prefix_end, "find") {
        return find_command(collection, &args, &tail);
    }
    let mut k: usize = 0;
    while k < 19
        invariant
            k <= 19,
            prefix_end <= source.len(),
            method_names().len() == 19,
            spec_parse(input@) == spec_dispatch(source@, collection@, prefix_end as int, k as int),
        decreases 19 - k,
    {
        if let Some((args, tail)) = method_call(&source, prefix_end, method_name(k)) {
            return other_command(collection, k, &args, &tail);
        }
        k = k + 1;
    }
    Err(owned("Unsupported MongoDB shell command."))
}

} // verus!

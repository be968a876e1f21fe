//! Arguments of MongoDB shell calls: JSON5 text with `ObjectId(..)` and
//! `ISODate(..)` constructors, normalized to compact JSON.
use vstd::prelude::*;
use crate::json::{
    json5_normalized, json_compact_text, json_parse_text, json_to_compact_string, normalize_json5,
    parse_json_str, JsonModel, JsonValue,
};
use crate::mongo::scan::{matching_paren, spec_matching_paren};
use crate::text::{chars_of, has_at, push_char, push_str, string_of, trim, trim_bounds};

verus! {

/// Whether `s[i..]` begins with `p`.
pub open spec fn starts_at(s: Seq<char>, i: int, p: Seq<char>) -> bool {
    0 <= i && i + p.len() <= s.len() && s.subrange(i, i + p.len()) == p
}

/// The shell constructor that begins at `i`, if any.
pub open spec fn constructor_at(s: Seq<char>, i: int) -> Option<Seq<char>> {
    if starts_at(s, i, "ObjectId("@) {
        Some("ObjectId("@)
    } else if starts_at(s, i, "ISODate("@) {
        Some("ISODate("@)
    } else {
        None
    }
}

/// The Extended JSON key a constructor stands for.
pub open spec fn constructor_key(c: Seq<char>) -> Seq<char> {
    if c == "ObjectId("@ {
        "$oid"@
    } else {
        "$date"@
    }
}

/// `s[i..]` with each `ObjectId("..")` / `ISODate("..")` replaced by `{"$oid":".."}` /
/// `{"$date":".."}`, appended to `out`.
pub open spec fn spec_transform_shell_constructors(s: Seq<char>, i: int, out: Seq<char>) -> Result<Seq<char>, Seq<char>>
    decreases s.len(), 1int, s.len() - i,
{
    if i < 0 || i >= s.len() {
        Ok(out)
    } else {
        match constructor_at(s, i) {
            None => spec_transform_shell_constructors(s, i + 1, out.push(s[i])),
            Some(c) => {
                let open = i + c.len() - 1;
                match spec_matching_paren(s, open) {
                    None => Err("Unclosed MongoDB value constructor."@),
                    Some(close) => {
                        if open < close < s.len() {
                            proof {
                                lemma_trim_len(s.subrange(open + 1, close));
                            }
                            match spec_string_arg(trim(s.subrange(open + 1, close))) {
                                Err(e) => Err(e),
                                Ok(v) => spec_transform_shell_constructors(
                                    s,
                                    close + 1,
                                    out + "{\""@ + constructor_key(c) + "\":"@ + json_compact_text(JsonModel::Str(v))
                                        + "}"@,
                                ),
                            }
                        } else {
                            Err("Unclosed MongoDB value constructor."@)
                        }
                    },
                }
            },
        }
    }
}

/// A shell argument as compact JSON: constructors replaced, then read as JSON5.
pub open spec fn spec_normalized_json(input: Seq<char>) -> Result<Seq<char>, Seq<char>>
    decreases input.len(), 2int, 0int,
{
    let t = trim(input);
    if t.len() <= input.len() {
        match spec_transform_shell_constructors(t, 0, Seq::empty()) {
            Err(e) => Err(e),
            Ok(x) => match json5_normalized(x) {
                Ok(j) => Ok(j),
                Err(e) => Err("Invalid MongoDB JSON argument: "@ + e),
            },
        }
    } else {
        Err(Seq::empty())
    }
}

/// A shell argument that must be a string: its text.
pub open spec fn spec_string_arg(arg: Seq<char>) -> Result<Seq<char>, Seq<char>>
    decreases arg.len(), 3int, 0int,
{
    match spec_normalized_json(arg) {
        Err(e) => Err(e),
        Ok(n) => match json_parse_text(n) {
            Err(_) => Err("Invalid MongoDB string argument."@),
            Ok(JsonModel::Str(v)) => Ok(v),
            Ok(_) => Err("MongoDB argument must be a string."@),
        },
    }
}

pub proof fn lemma_trim_len(s: Seq<char>)
    ensures
        trim(s).len() <= s.len(),
{
    crate::text::lemma_lead_ws_bound(s);
    crate::text::lemma_trail_ws_bound(crate::text::trim_start(s));
}

fn owned(s: &str) -> (r: String)
    ensures
        r@ == s@,
{
    let mut out = String::new();
    push_str(&mut out, s);
    out
}

/// Replaces the shell constructors of `s` from `i` on, appending to `out`.
fn transform_shell_constructors(s: &Vec<char>, out: &mut String) -> (r: Result<(), String>)
    ensures
        match r {
            Ok(()) => spec_transform_shell_constructors(s@, 0, old(out)@) == Ok::<Seq<char>, Seq<char>>(final(out)@),
            Err(e) => spec_transform_shell_constructors(s@, 0, old(out)@) == Err::<Seq<char>, Seq<char>>(e@),
        },
    decreases s@.len(), 1int, s@.len(),
{
    let ghost start = out@;
    let oid = chars_of("ObjectId(");
    let iso = chars_of("ISODate(");
    let mut i: usize = 0;
    while i < s.len()
        invariant
            i <= s.len(),
            oid@ == "ObjectId("@,
            iso@ == "ISODate("@,
            start == old(out)@,
            spec_transform_shell_constructors(s@, 0, start) == spec_transform_shell_constructors(s@, i as int, out@),
        decreases s.len() - i,
    {
        let is_oid = has_at(s.as_slice(), i, oid.as_slice());
        let is_iso = !is_oid && has_at(s.as_slice(), i, iso.as_slice());
        if !is_oid && !is_iso {
            push_char(out, s[i]);
            i = i + 1;
        } else {
            let clen: usize = if is_oid {
                9
            } else {
                8
            };
            proof {
                reveal_strlit("ObjectId(");
                reveal_strlit("ISODate(");
            }
            let open = i + clen - 1;
            let ghost c: Seq<char> = if is_oid {
                "ObjectId("@
            } else {
                "ISODate("@
            };
            assert(constructor_at(s@, i as int) == Some(c));
            assert(c.len() == clen);
            assert(s@.subrange(i as int, i + clen) == c);
            assert(c[clen - 1] == '(');
            assert(s@[open as int] == s@.subrange(i as int, i + clen)[clen - 1]);
            let close = match matching_paren(s, open) {
                Some(k) => k,
                None => {
                    return Err(owned("Unclosed MongoDB value constructor."));
                },
            };
            let mut inner_chars: Vec<char> = Vec::new();
            let mut k = open + 1;
            while k < close
                invariant
                    open < k <= close < s.len(),
                    inner_chars@ == s@.subrange(open + 1, k as int),
                decreases close - k,
            {
                inner_chars.push(s[k]);
                assert(inner_chars@ =~= s@.subrange(open + 1, k + 1));
                k = k + 1;
            }
            let (x, y) = trim_bounds(&inner_chars);
            let inner = string_of(&inner_chars.as_slice()[x..y]);
            proof {
                lemma_trim_len(s@.subrange(open + 1, close as int));
            }
            let value = match parse_string_arg(inner.as_str()) {
                Ok(v) => v,
                Err(e) => {
                    return Err(e);
                },
            };
            let literal = json_to_compact_string(&JsonValue::String(value));
            push_str(out, "{\"");
            push_str(out, if is_oid { "$oid" } else { "$date" });
            push_str(out, "\":");
            push_str(out, literal.as_str());
            push_str(out, "}");
            i = close + 1;
        }
    }
    Ok(())
}

/// A shell argument as compact JSON: `ObjectId`/`ISODate` constructors replaced by
/// Extended JSON objects, then the text read as JSON5 and printed as compact JSON.
pub fn normalized_json(input: &str) -> (r: Result<String, String>)
    ensures
        match r {
            Ok(t) => spec_normalized_json(input@) == Ok::<Seq<char>, Seq<char>>(t@),
            Err(e) => spec_normalized_json(input@) == Err::<Seq<char>, Seq<char>>(e@),
        },
    decreases input@.len(), 2int, 0int,
{
    let v = chars_of(input);
    let (x, y) = trim_bounds(&v);
    let mut t: Vec<char> = Vec::new();
    let mut k = x;
    while k < y
        invariant
            x <= k <= y <= v.len(),
            t@ == v@.subrange(x as int, k as int),
        decreases y - k,
    {
        t.push(v[k]);
        assert(t@ =~= v@.subrange(x as int, k + 1));
        k = k + 1;
    }
    proof {
        lemma_trim_len(input@);
    }
    let mut transformed = String::new();
    match transform_shell_constructors(&t, &mut transformed) {
        Ok(()) => {},
        Err(e) => {
            return Err(e);
        },
    }
    match normalize_json5(transformed.as_str()) {
        Ok(j) => Ok(j),
        Err(e) => {
            let mut m = owned("Invalid MongoDB JSON argument: ");
            push_str(&mut m, e.as_str());
            Err(m)
        },
    }
}

/// A shell argument that must be a string, such as a collection name.
pub fn parse_string_arg(arg: &str) -> (r: Result<String, String>)
    ensures
        match r {
            Ok(t) => spec_string_arg(arg@) == Ok::<Seq<char>, Seq<char>>(t@),
            Err(e) => spec_string_arg(arg@) == Err::<Seq<char>, Seq<char>>(e@),
        },
    decreases arg@.len(), 3int, 0int,
{
    let n = match normalized_json(arg) {
        Ok(n) => n,
        Err(e) => {
            return Err(e);
        },
    };
    match parse_json_str(n.as_str()) {
        Ok(JsonValue::String(s)) => Ok(s),
        Ok(_) => Err(owned("MongoDB argument must be a string.")),
        Err(_) => Err(owned("Invalid MongoDB string argument.")),
    }
}

} // verus!

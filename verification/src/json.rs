//! A plain model of JSON documents, filled by `serde_json`.
use vstd::prelude::*;

verus! {

/// The mathematical content of a [`JsonValue`].
pub ghost enum JsonModel {
    Null,
    Bool(bool),
    /// The number's text and whether it is an integer.
    Number(Seq<char>, bool),
    Str(Seq<char>),
    Array(Seq<JsonModel>),
    Object(Seq<(Seq<char>, JsonModel)>),
}

/// A JSON number: its text as `serde_json` prints it, and whether it is an integer
/// (`is_i64() || is_u64()`).
#[derive(Debug, PartialEq, Eq)]
pub struct JsonNumber {
    pub text: String,
    pub is_integer: bool,
}

/// A JSON value. Object members keep the order in which `serde_json` iterates them.
#[derive(Debug, PartialEq, Eq)]
pub enum JsonValue {
    Null,
    Bool(bool),
    Number(JsonNumber),
    String(String),
    Array(Vec<JsonValue>),
    Object(Vec<(String, JsonValue)>),
}

impl JsonValue {
    pub open spec fn model(self) -> JsonModel
        decreases self,
    {
        match self {
            JsonValue::Null => JsonModel::Null,
            JsonValue::Bool(b) => JsonModel::Bool(b),
            JsonValue::Number(n) => JsonModel::Number(n.text@, n.is_integer),
            JsonValue::String(s) => JsonModel::Str(s@),
            JsonValue::Array(items) => JsonModel::Array(
                Seq::new(
                    items@.len(),
                    |i: int|
                        if 0 <= i < items@.len() {
                            items@[i].model()
                        } else {
                            JsonModel::Null
                        },
                ),
            ),
            JsonValue::Object(members) => JsonModel::Object(
                Seq::new(
                    members@.len(),
                    |i: int|
                        if 0 <= i < members@.len() {
                            (members@[i].0@, members@[i].1.model())
                        } else {
                            (Seq::empty(), JsonModel::Null)
                        },
                ),
            ),
        }
    }

    /// A copy of this value.
    pub fn deep_clone(&self) -> (r: JsonValue)
        ensures
            r@ == self@,
        decreases self,
    {
        broadcast use vstd::std_specs::vec::group_vec_axioms;

        match self {
            JsonValue::Null => JsonValue::Null,
            JsonValue::Bool(b) => JsonValue::Bool(*b),
            JsonValue::Number(n) => JsonValue::Number(
                JsonNumber { text: n.text.clone(), is_integer: n.is_integer },
            ),
            JsonValue::String(s) => JsonValue::String(s.clone()),
            JsonValue::Array(items) => {
                let mut out: Vec<JsonValue> = Vec::new();
                for i in 0..items.len()
                    invariant
                        *self == JsonValue::Array(*items),
                        out@.len() == i,
                        forall|j: int| 0 <= j < i ==> out@[j]@ == items@[j]@,
                {
                    assert(decreases_to!(*self => (*self)->Array_0));
                    assert(decreases_to!(*items => items@));
                    assert(decreases_to!(*self => items@[i as int]));
                    out.push(items[i].deep_clone());
                }
                let r = JsonValue::Array(out);
                assert(r@->Array_0 =~= self@->Array_0);
                r
            },
            JsonValue::Object(members) => {
                let mut out: Vec<(String, JsonValue)> = Vec::new();
                for i in 0..members.len()
                    invariant
                        *self == JsonValue::Object(*members),
                        out@.len() == i,
                        forall|j: int|
                            0 <= j < i ==> out@[j].0@ == members@[j].0@ && out@[j].1@
                                == members@[j].1@,
                {
                    assert(decreases_to!(*self => (*self)->Object_0));
                    assert(decreases_to!(*members => members@));
                    assert(decreases_to!(*self => members@[i as int]));
                    assert(decreases_to!(*self => members@[i as int].1));
                    out.push((members[i].0.clone(), members[i].1.deep_clone()));
                }
                let r = JsonValue::Object(out);
                assert(r@->Object_0 =~= self@->Object_0);
                r
            },
        }
    }
}

impl View for JsonValue {
    type V = JsonModel;

    open spec fn view(&self) -> JsonModel {
        self.model()
    }
}


#[verifier::external_type_specification]
#[verifier::external_body]
pub struct ExSerdeJsonValue(serde_json::Value);

/// Moves a `serde_json::Value` into the library's model, variant by variant.
#[verifier::external_body]
fn from_serde(value: serde_json::Value) -> JsonValue {
    match value {
        serde_json::Value::Null => JsonValue::Null,
        serde_json::Value::Bool(b) => JsonValue::Bool(b),
        serde_json::Value::Number(n) => JsonValue::Number(JsonNumber { text: n.to_string(), is_integer: n.is_i64() || n.is_u64() }),
        serde_json::Value::String(s) => JsonValue::String(s),
        serde_json::Value::Array(items) => JsonValue::Array(items.into_iter().map(from_serde).collect()),
        serde_json::Value::Object(map) => JsonValue::Object(map.into_iter().map(|(k, v)| (k, from_serde(v))).collect()),
    }
}

/// Moves the library's model back into a `serde_json::Value`, variant by variant.
#[verifier::external_body]
fn to_serde(value: &JsonValue) -> serde_json::Value {
    match value {
        JsonValue::Null => serde_json::Value::Null,
        JsonValue::Bool(b) => serde_json::Value::Bool(*b),
        JsonValue::Number(n) => serde_json::from_str(&n.text).unwrap_or(serde_json::Value::Null),
        JsonValue::String(s) => serde_json::Value::String(s.clone()),
        JsonValue::Array(items) => serde_json::Value::Array(items.iter().map(to_serde).collect()),
        JsonValue::Object(members) => serde_json::Value::Object(members.iter().map(|(k, v)| (k.clone(), to_serde(v))).collect()),
    }
}

/// What `serde_json::from_str::<serde_json::Value>` gives for a text: the document,
/// or the text of its error.
pub uninterp spec fn json_parse_text(text: Seq<char>) -> Result<JsonModel, Seq<char>>;

/// What `serde_json::from_slice::<serde_json::Value>` gives for bytes: the document,
/// or the text of its error.
pub uninterp spec fn json_parse_bytes(bytes: Seq<u8>) -> Result<JsonModel, Seq<char>>;

/// What `serde_json::to_string` prints for a document (compact form).
pub uninterp spec fn json_compact_text(value: JsonModel) -> Seq<char>;

/// Calls `serde_json::from_str` for a `serde_json::Value`. The contract claims only
/// that the outcome (document or error text) is a function of the text.
#[verifier::external_body]
pub(crate) fn parse_json_str(text: &str) -> (r: Result<JsonValue, String>)
    ensures
        json_parse_text(text@) == match r {
            Ok(v) => Ok::<JsonModel, Seq<char>>(v@),
            Err(e) => Err::<JsonModel, Seq<char>>(e@),
        },
{
    serde_json::from_str::<serde_json::Value>(text).map(from_serde).map_err(|e| e.to_string())
}

/// Calls `serde_json::from_slice` for a `serde_json::Value`. The contract claims only
/// that the outcome (document or error text) is a function of the bytes.
#[verifier::external_body]
pub(crate) fn parse_json_bytes_raw(bytes: &[u8]) -> (r: Result<JsonValue, String>)
    ensures
        json_parse_bytes(bytes@) == match r {
            Ok(v) => Ok::<JsonModel, Seq<char>>(v@),
            Err(e) => Err::<JsonModel, Seq<char>>(e@),
        },
{
    serde_json::from_slice::<serde_json::Value>(bytes).map(from_serde).map_err(|e| e.to_string())
}

/// Calls `serde_json::to_string` on the document. The contract claims only that the
/// text is a function of the document.
#[verifier::external_body]
pub(crate) fn json_to_compact_string(value: &JsonValue) -> (r: String)
    ensures
        r@ == json_compact_text(value@),
{
    serde_json::to_string(&to_serde(value)).unwrap_or_default()
}


/// What `json5::from_str::<serde_json::Value>` followed by `serde_json::to_string`
/// gives for a text: the compact JSON text, or the text of the JSON5 error.
pub uninterp spec fn json5_normalized(input: Seq<char>) -> Result<Seq<char>, Seq<char>>;

/// Reads the text as JSON5 (`json5::from_str`) and prints it as compact JSON
/// (`serde_json::to_string`). The contract claims only that the outcome is a
/// function of the text.
#[verifier::external_body]
pub(crate) fn normalize_json5(input: &str) -> (r: Result<String, String>)
    ensures
        json5_normalized(input@) == match r {
            Ok(t) => Ok::<Seq<char>, Seq<char>>(t@),
            Err(e) => Err::<Seq<char>, Seq<char>>(e@),
        },
{
    match json5::from_str::<serde_json::Value>(input) {
        Ok(value) => serde_json::to_string(&value).map_err(|e| e.to_string()),
        Err(error) => Err(error.to_string()),
    }
}


/// What `serde_json::to_string_pretty` prints for a document.
pub uninterp spec fn json_pretty_text(value: JsonModel) -> Seq<char>;

/// Calls `serde_json::to_string_pretty` on the document. The contract claims only
/// that the text is a function of the document.
#[verifier::external_body]
pub(crate) fn json_to_pretty_string(value: &JsonValue) -> (r: String)
    ensures
        r@ == json_pretty_text(value@),
{
    serde_json::to_string_pretty(&to_serde(value)).unwrap_or_default()
}


/// The model of a list of members.
pub open spec fn members_view(v: Seq<(String, JsonValue)>) -> Seq<(Seq<char>, JsonModel)> {
    v.map_values(|m: (String, JsonValue)| (m.0@, m.1@))
}

/// A JSON string, or null for none.
pub open spec fn opt_str_model(o: Option<Seq<char>>) -> JsonModel {
    match o {
        Some(s) => JsonModel::Str(s),
        None => JsonModel::Null,
    }
}

/// A JSON integer.
pub open spec fn int_model(n: int) -> JsonModel {
    JsonModel::Number(crate::text::signed_dec(n), true)
}

/// An object with the given members, in order.
pub fn json_object(members: Vec<(String, JsonValue)>) -> (r: JsonValue)
    ensures
        r@ == JsonModel::Object(members_view(members@)),
{
    let r = JsonValue::Object(members);
    assert(r@->Object_0 =~= members_view(members@));
    r
}

/// Appends a member to a list of members.
pub fn push_member(members: &mut Vec<(String, JsonValue)>, key: &str, value: JsonValue)
    ensures
        members_view(final(members)@) == members_view(old(members)@).push((key@, value@)),
{
    let mut k = String::new();
    crate::text::push_str(&mut k, key);
    let ghost before = members@;
    members.push((k, value));
    assert(members_view(members@) =~= members_view(before).push((key@, value@)));
}

/// A JSON string.
pub fn json_str(s: &str) -> (r: JsonValue)
    ensures
        r@ == JsonModel::Str(s@),
{
    let mut t = String::new();
    crate::text::push_str(&mut t, s);
    JsonValue::String(t)
}

/// A JSON string, or null for none.
pub fn json_opt_str(o: &Option<String>) -> (r: JsonValue)
    ensures
        r@ == opt_str_model(match o {
            Some(s) => Some(s@),
            None => None,
        }),
{
    match o {
        Some(s) => json_str(s.as_str()),
        None => JsonValue::Null,
    }
}

/// A JSON integer.
pub fn json_int(n: i64) -> (r: JsonValue)
    ensures
        r@ == int_model(n as int),
{
    JsonValue::Number(JsonNumber { text: crate::text::i64_to_string(n), is_integer: true })
}

/// A JSON integer from an unsigned one.
pub fn json_uint(n: u64) -> (r: JsonValue)
    ensures
        r@ == int_model(n as int),
{
    JsonValue::Number(JsonNumber { text: crate::text::u64_to_string(n), is_integer: true })
}

} // verus!

//! The commands themselves, and what they do to a database.
use vstd::prelude::*;
use crate::json::{json_parse_text, parse_json_str, JsonModel, JsonValue};

verus! {

/// A MongoDB shell command, with its JSON arguments as compact JSON text.
#[derive(Debug, PartialEq, Eq)]
pub enum MongoCommand {
    Version,
    Find {
        collection: String,
        filter: String,
        projection: Option<String>,
        sort: Option<String>,
        skip: u64,
        limit: i64,
    },
    Count { collection: String, filter: String, accurate: bool },
    Aggregate { collection: String, pipeline: String, options: Option<String> },
    Distinct { collection: String, field: String, filter: Option<String> },
    GetIndexes { collection: String },
    /// `scale` is the scale argument's text, a finite decimal number; the caller
    /// prints it as a JSON number.
    CollectionStats { collection: String, metric: String, scale: Option<String> },
    Insert { collection: String, documents: String },
    Update { collection: String, filter: String, update: String, options: Option<String>, many: bool },
    Delete { collection: String, filter: String, many: bool },
    CreateIndex { collection: String, keys: String, options: Option<String> },
    DropIndexes { collection: String, indexes: Option<String>, single: bool },
    DropCollection { collection: String },
}

/// The mathematical content of a [`MongoCommand`].
pub ghost enum MongoCommandModel {
    Version,
    Find {
        collection: Seq<char>,
        filter: Seq<char>,
        projection: Option<Seq<char>>,
        sort: Option<Seq<char>>,
        skip: int,
        limit: int,
    },
    Count { collection: Seq<char>, filter: Seq<char>, accurate: bool },
    Aggregate { collection: Seq<char>, pipeline: Seq<char>, options: Option<Seq<char>> },
    Distinct { collection: Seq<char>, field: Seq<char>, filter: Option<Seq<char>> },
    GetIndexes { collection: Seq<char> },
    CollectionStats { collection: Seq<char>, metric: Seq<char>, scale: Option<Seq<char>> },
    Insert { collection: Seq<char>, documents: Seq<char> },
    Update {
        collection: Seq<char>,
        filter: Seq<char>,
        update: Seq<char>,
        options: Option<Seq<char>>,
        many: bool,
    },
    Delete { collection: Seq<char>, filter: Seq<char>, many: bool },
    CreateIndex { collection: Seq<char>, keys: Seq<char>, options: Option<Seq<char>> },
    DropIndexes { collection: Seq<char>, indexes: Option<Seq<char>>, single: bool },
    DropCollection { collection: Seq<char> },
}

pub open spec fn ov(o: Option<String>) -> Option<Seq<char>> {
    match o {
        Some(s) => Some(s@),
        None => None,
    }
}

impl View for MongoCommand {
    type V = MongoCommandModel;

    open spec fn view(&self) -> MongoCommandModel {
        match *self {
            MongoCommand::Version => MongoCommandModel::Version,
            MongoCommand::Find { collection, filter, projection, sort, skip, limit } => MongoCommandModel::Find {
                collection: collection@,
                filter: filter@,
                projection: ov(projection),
                sort: ov(sort),
                skip: skip as int,
                limit: limit as int,
            },
            MongoCommand::Count { collection, filter, accurate } => MongoCommandModel::Count {
                collection: collection@,
                filter: filter@,
                accurate,
            },
            MongoCommand::Aggregate { collection, pipeline, options } => MongoCommandModel::Aggregate {
                collection: collection@,
                pipeline: pipeline@,
                options: ov(options),
            },
            MongoCommand::Distinct { collection, field, filter } => MongoCommandModel::Distinct {
                collection: collection@,
                field: field@,
                filter: ov(filter),
            },
            MongoCommand::GetIndexes { collection } => MongoCommandModel::GetIndexes { collection: collection@ },
            MongoCommand::CollectionStats { collection, metric, scale } => MongoCommandModel::CollectionStats {
                collection: collection@,
                metric: metric@,
                scale: ov(scale),
            },
            MongoCommand::Insert { collection, documents } => MongoCommandModel::Insert {
                collection: collection@,
                documents: documents@,
            },
            MongoCommand::Update { collection, filter, update, options, many } => MongoCommandModel::Update {
                collection: collection@,
                filter: filter@,
                update: update@,
                options: ov(options),
                many,
            },
            MongoCommand::Delete { collection, filter, many } => MongoCommandModel::Delete {
                collection: collection@,
                filter: filter@,
                many,
            },
            MongoCommand::CreateIndex { collection, keys, options } => MongoCommandModel::CreateIndex {
                collection: collection@,
                keys: keys@,
                options: ov(options),
            },
            MongoCommand::DropIndexes { collection, indexes, single } => MongoCommandModel::DropIndexes {
                collection: collection@,
                indexes: ov(indexes),
                single,
            },
            MongoCommand::DropCollection { collection } => MongoCommandModel::DropCollection {
                collection: collection@,
            },
        }
    }
}

/// Whether a JSON document is an object with no members.
pub open spec fn spec_is_empty_object(text: Seq<char>) -> bool {
    match json_parse_text(text) {
        Ok(JsonModel::Object(members)) => members.len() == 0,
        _ => false,
    }
}

/// Whether a stage of a pipeline writes its output (`$out` or `$merge`).
pub open spec fn stage_writes(stage: JsonModel) -> bool {
    match stage {
        JsonModel::Object(members) => exists|k: int|
            0 <= k < members.len() && (#[trigger] members[k].0 == "$out"@ || members[k].0 == "$merge"@),
        _ => false,
    }
}

/// Whether an aggregation pipeline writes to a collection: some stage has an `$out`
/// or `$merge` key.
pub open spec fn spec_aggregate_writes(pipeline: Seq<char>) -> bool {
    match json_parse_text(pipeline) {
        Ok(JsonModel::Array(stages)) => exists|i: int| 0 <= i < stages.len() && stage_writes(#[trigger] stages[i]),
        _ => false,
    }
}

fn text_is(s: &String, lit: &str) -> (r: bool)
    ensures
        r == (s@ == lit@),
{
    crate::text::str_eq(s.as_str(), lit)
}

fn stage_has_write_key(stage: &JsonValue) -> (r: bool)
    ensures
        r == stage_writes(stage@),
{
    match stage {
        JsonValue::Object(members) => {
            let ghost m = stage@->Object_0;
            let mut k: usize = 0;
            while k < members.len()
                invariant
                    k <= members.len(),
                    *stage == JsonValue::Object(*members),
                    m == JsonValue::Object(*members)@->Object_0,
                    m.len() == members@.len(),
                    forall|j: int| 0 <= j < k ==> !(m[j].0 == "$out"@ || m[j].0 == "$merge"@),
                decreases members.len() - k,
            {
                assert(m[k as int].0 == members@[k as int].0@);
                if text_is(&members[k].0, "$out") || text_is(&members[k].0, "$merge") {
                    assert(0 <= k < m.len() && (m[k as int].0 == "$out"@ || m[k as int].0 == "$merge"@));
                    return true;
                }
                k = k + 1;
            }
            false
        },
        _ => false,
    }
}

/// Whether a pipeline's JSON text has a stage that writes (`$out` or `$merge`).
pub fn aggregate_writes(pipeline: &str) -> (r: bool)
    ensures
        r == spec_aggregate_writes(pipeline@),
{
    match parse_json_str(pipeline) {
        Ok(JsonValue::Array(stages)) => {
            let ghost s = JsonValue::Array(stages)@->Array_0;
            let mut i: usize = 0;
            while i < stages.len()
                invariant
                    i <= stages.len(),
                    s == JsonValue::Array(stages)@->Array_0,
                    json_parse_text(pipeline@) == Ok::<JsonModel, Seq<char>>(JsonModel::Array(s)),
                    s.len() == stages@.len(),
                    forall|j: int| 0 <= j < i ==> !stage_writes(#[trigger] s[j]),
                decreases stages.len() - i,
            {
                assert(s[i as int] == stages@[i as int]@);
                if stage_has_write_key(&stages[i]) {
                    assert(stage_writes(s[i as int]));
                    return true;
                }
                i = i + 1;
            }
            false
        },
        _ => false,
    }
}

/// Whether a JSON text is the empty object.
pub fn is_empty_object(value: &str) -> (r: bool)
    ensures
        r == spec_is_empty_object(value@),
{
    match parse_json_str(value) {
        Ok(JsonValue::Object(members)) => members.len() == 0,
        _ => false,
    }
}

impl MongoCommandModel {
    pub open spec fn spec_is_mutating(self) -> bool {
        match self {
            MongoCommandModel::Insert { .. } | MongoCommandModel::Update { .. } | MongoCommandModel::Delete { .. }
            | MongoCommandModel::CreateIndex { .. } | MongoCommandModel::DropIndexes { .. }
            | MongoCommandModel::DropCollection { .. } => true,
            MongoCommandModel::Aggregate { pipeline, .. } => spec_aggregate_writes(pipeline),
            _ => false,
        }
    }

    pub open spec fn spec_is_dangerous(self) -> bool {
        match self {
            MongoCommandModel::DropCollection { .. } => true,
            MongoCommandModel::DropIndexes { indexes, single, .. } => indexes is None && !single,
            MongoCommandModel::Aggregate { pipeline, .. } => spec_aggregate_writes(pipeline),
            _ => false,
        }
    }

    pub open spec fn spec_has_empty_filter(self) -> bool {
        match self {
            MongoCommandModel::Update { filter, .. } | MongoCommandModel::Delete { filter, .. } =>
                spec_is_empty_object(filter),
            _ => false,
        }
    }
}

impl MongoCommand {
    /// Whether the command changes data or indexes: inserts, updates, deletes, index
    /// and collection drops, and pipelines that write.
    pub fn is_mutating(&self) -> (r: bool)
        ensures
            r == self@.spec_is_mutating(),
    {
        match self {
            MongoCommand::Insert { .. } | MongoCommand::Update { .. } | MongoCommand::Delete { .. }
            | MongoCommand::CreateIndex { .. } | MongoCommand::DropIndexes { .. }
            | MongoCommand::DropCollection { .. } => true,
            MongoCommand::Aggregate { pipeline, .. } => aggregate_writes(pipeline.as_str()),
            _ => false,
        }
    }

    /// Whether the command is destructive beyond ordinary writes: dropping a
    /// collection, dropping every index, or a pipeline that writes.
    pub fn is_dangerous(&self) -> (r: bool)
        ensures
            r == self@.spec_is_dangerous(),
    {
        match self {
            MongoCommand::DropCollection { .. } => true,
            MongoCommand::DropIndexes { indexes, single, .. } => indexes.is_none() && !*single,
            MongoCommand::Aggregate { pipeline, .. } => aggregate_writes(pipeline.as_str()),
            _ => false,
        }
    }

    /// Whether an update or delete has the empty filter `{}`, and so touches every
    /// document.
    pub fn has_empty_filter(&self) -> (r: bool)
        ensures
            r == self@.spec_has_empty_filter(),
    {
        match self {
            MongoCommand::Update { filter, .. } | MongoCommand::Delete { filter, .. } => is_empty_object(
                filter.as_str(),
            ),
            _ => false,
        }
    }
}


/// Every command that writes documents or indexes, or drops a collection, counts as
/// mutating; the read commands never do, and are never dangerous.
pub proof fn lemma_writes_are_mutating(c: MongoCommandModel)
    ensures
        (c is Insert || c is Update || c is Delete || c is CreateIndex || c is DropIndexes || c is DropCollection)
            ==> c.spec_is_mutating(),
        (c is Version || c is Find || c is Count || c is Distinct || c is GetIndexes || c is CollectionStats) ==> !c.spec_is_mutating()
            && !c.spec_is_dangerous() && !c.spec_has_empty_filter(),
{
}

} // verus!

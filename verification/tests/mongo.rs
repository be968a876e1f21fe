use dbx::mongo::command::MongoCommand;
use dbx::mongo::parser::parse;

fn s(v: &str) -> String {
    v.to_string()
}

#[test]
fn parses_find_with_compass_syntax_and_chain() {
    assert_eq!(
        parse("db.products.find({_id: ObjectId('507f1f77bcf86cd799439011')}, {title: 1, _id: 0}).sort({title: 1}).limit(1)").unwrap(),
        MongoCommand::Find {
            collection: s("products"),
            filter: s(r#"{"_id":{"$oid":"507f1f77bcf86cd799439011"}}"#),
            projection: Some(s(r#"{"title":1,"_id":0}"#)),
            sort: Some(s(r#"{"title":1}"#)),
            skip: 0,
            limit: 1,
        }
    );
}

#[test]
fn parses_get_collection_and_count() {
    assert_eq!(
        parse("db.getCollection('audit.logs').count()").unwrap(),
        MongoCommand::Count { collection: s("audit.logs"), filter: s("{}"), accurate: false }
    );
}

#[test]
fn identifies_dangerous_aggregate_and_empty_writes() {
    let aggregate = parse(r#"db.projects.aggregate([{"$out":"backup"}])"#).unwrap();
    assert!(aggregate.is_mutating());
    assert!(aggregate.is_dangerous());
    let update = parse("db.projects.updateMany({}, {$set: {active: false}})").unwrap();
    assert!(update.has_empty_filter());
}

#[test]
fn accepts_multiline_chains_and_update_options() {
    let command = parse(
        r#"db.getCollection("operation_logs")
              .find({_id: ObjectId("68ad51ca84c8127bc7d44cb3")})
              .sort({ts: -1})
              .skip(5)
              .limit(10)"#,
    )
    .unwrap();
    assert!(matches!(command, MongoCommand::Find { skip: 5, limit: 10, .. }));

    let update = parse(
        r#"db.orders.updateMany({status: "open"}, {$set: {"items.$[item].status": "done"}}, {arrayFilters: [{"item.id": 7}]})"#,
    )
    .unwrap();
    assert!(matches!(update, MongoCommand::Update { many: true, options: Some(_), .. }));
}

#[test]
fn accepts_stats_and_rejects_negative_pagination() {
    assert!(matches!(
        parse("db.users.stats(1024)").unwrap(),
        MongoCommand::CollectionStats { metric, scale: Some(_), .. } if metric == "stats"
    ));
    assert!(parse("db.users.find({}).skip(-1)").is_err());
}

#[test]
fn version_ignores_case_whitespace_and_semicolons() {
    assert_eq!(parse("  DB.Version() ;; ").unwrap(), MongoCommand::Version);
}

#[test]
fn find_defaults_and_count_documents() {
    assert_eq!(
        parse("db.users.find()").unwrap(),
        MongoCommand::Find { collection: s("users"), filter: s("{}"), projection: None, sort: None, skip: 0, limit: 100 }
    );
    assert_eq!(
        parse("db.users.countDocuments({age: {$gt: 3}})").unwrap(),
        MongoCommand::Count { collection: s("users"), filter: s(r#"{"age":{"$gt":3}}"#), accurate: true }
    );
    assert_eq!(
        parse("db.users.find({a: 1}).count()").unwrap(),
        MongoCommand::Count { collection: s("users"), filter: s(r#"{"a":1}"#), accurate: false }
    );
}

#[test]
fn iso_dates_become_extended_json() {
    assert_eq!(
        parse("db.events.deleteOne({at: ISODate('2024-01-02T03:04:05Z')})").unwrap(),
        MongoCommand::Delete { collection: s("events"), filter: s(r#"{"at":{"$date":"2024-01-02T03:04:05Z"}}"#), many: false }
    );
}

#[test]
fn rejects_malformed_commands_with_their_messages() {
    assert_eq!(parse("users.find()").unwrap_err(), "MongoDB command must start with db.<collection>.");
    assert_eq!(parse("db.users").unwrap_err(), "MongoDB collection method is required.");
    assert_eq!(parse("db..find()").unwrap_err(), "Invalid MongoDB collection name.");
    assert_eq!(parse("db.users.find({}, {}, {})").unwrap_err(), "MongoDB find() accepts at most filter and projection arguments.");
    assert_eq!(parse("db.users.find().explain()").unwrap_err(), "Unsupported MongoDB find() chain: explain()");
    assert_eq!(parse("db.users.find().limit(1, 2)").unwrap_err(), "MongoDB limit() requires one integer.");
    assert_eq!(parse("db.users.aggregate({})").unwrap_err(), "MongoDB aggregate() requires a pipeline array.");
    assert_eq!(parse("db.users.insertMany({a: 1})").unwrap_err(), "MongoDB insertMany() requires an array.");
    assert_eq!(parse("db.users.getIndexes(1)").unwrap_err(), "Invalid MongoDB getIndexes() command.");
    assert_eq!(parse("db.users.rename('x')").unwrap_err(), "Unsupported MongoDB shell command.");
    assert_eq!(parse("db.getCollection(1).find()").unwrap_err(), "MongoDB argument must be a string.");
    assert_eq!(parse(r#"db.users.find("ObjectId(")"#).unwrap_err(), "Unclosed MongoDB value constructor.");
    assert_eq!(parse("db.users.find({_id: ObjectId('x'}").unwrap_err(), "Unsupported MongoDB shell command.");
    assert!(parse("db.users.find({a:})").unwrap_err().starts_with("Invalid MongoDB JSON argument: "));
}

#[test]
fn index_commands_and_drops() {
    assert_eq!(
        parse("db.users.dropIndex('name_1')").unwrap(),
        MongoCommand::DropIndexes { collection: s("users"), indexes: Some(s("\"name_1\"")), single: true }
    );
    let all = parse("db.users.dropIndexes()").unwrap();
    assert_eq!(all, MongoCommand::DropIndexes { collection: s("users"), indexes: None, single: false });
    assert!(all.is_dangerous());
    let drop = parse("db.users.drop()").unwrap();
    assert!(drop.is_mutating() && drop.is_dangerous());
    let read = parse("db.users.distinct('city', {active: true})").unwrap();
    assert_eq!(read, MongoCommand::Distinct { collection: s("users"), field: s("city"), filter: Some(s(r#"{"active":true}"#)) });
    assert!(!read.is_mutating() && !read.is_dangerous() && !read.has_empty_filter());
}

fn stats_scale(source: &str) -> Result<Option<String>, String> {
    match parse(source)? {
        MongoCommand::CollectionStats { scale, .. } => Ok(scale),
        other => panic!("not a statistics command: {:?}", other),
    }
}

#[test]
fn statistics_scale_must_be_a_finite_number() {
    assert_eq!(stats_scale("db.users.stats( 1024 )"), Ok(Some(s("1024"))));
    assert_eq!(stats_scale("db.users.stats()"), Ok(None));
    assert_eq!(stats_scale("db.users.dataSize(007)"), Ok(Some(s("007"))));
    assert_eq!(stats_scale("db.users.storageSize(.5)"), Ok(Some(s(".5"))));
    assert_eq!(stats_scale("db.users.storageSize(5.)"), Ok(Some(s("5."))));
    assert_eq!(stats_scale("db.users.stats(+1E3)"), Ok(Some(s("+1E3"))));
    assert_eq!(stats_scale("db.users.stats(1e-400)"), Ok(Some(s("1e-400"))));
    assert_eq!(
        stats_scale("db.users.stats(123456789012345678901234567890)"),
        Ok(Some(s("123456789012345678901234567890")))
    );
    assert_eq!(stats_scale("db.users.stats('kb')"), Err(s("Invalid stats scale.")));
    assert_eq!(stats_scale("db.users.totalIndexSize(1e400)"), Err(s("Invalid totalIndexSize scale.")));
    assert_eq!(stats_scale("db.users.stats(NaN)"), Err(s("Invalid stats scale.")));
    assert_eq!(stats_scale("db.users.dataSize(inf)"), Err(s("Invalid dataSize scale.")));
    assert_eq!(stats_scale("db.users.stats(.)"), Err(s("Invalid stats scale.")));
    assert_eq!(stats_scale("db.users.stats(1e)"), Err(s("Invalid stats scale.")));
    assert_eq!(stats_scale("db.users.stats(0x10)"), Err(s("Invalid stats scale.")));
}

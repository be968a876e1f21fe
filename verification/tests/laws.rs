use dbx::table_import::options::{import_file_kind, ImportFileKind};
use dbx::dialect::DatabaseType;
use dbx::json::{JsonNumber, JsonValue};
use dbx::mcp::connections::{parse_database_type, protocol_name};
use dbx::table_import::inference::{infer_column_type, merge_inferred_type, ImportInferredType};

const ALL_TYPES: [DatabaseType; 36] = [
    DatabaseType::Mysql,
    DatabaseType::Postgres,
    DatabaseType::Sqlite,
    DatabaseType::SqlServer,
    DatabaseType::Oracle,
    DatabaseType::OceanbaseOracle,
    DatabaseType::Iris,
    DatabaseType::Dameng,
    DatabaseType::ClickHouse,
    DatabaseType::Hive,
    DatabaseType::Trino,
    DatabaseType::PrestoSql,
    DatabaseType::Databricks,
    DatabaseType::Rqlite,
    DatabaseType::Turso,
    DatabaseType::CloudflareD1,
    DatabaseType::Gaussdb,
    DatabaseType::OpenGauss,
    DatabaseType::Redshift,
    DatabaseType::Kingbase,
    DatabaseType::Highgo,
    DatabaseType::Kwdb,
    DatabaseType::Vastbase,
    DatabaseType::Doris,
    DatabaseType::StarRocks,
    DatabaseType::Goldendb,
    DatabaseType::Sundb,
    DatabaseType::Databend,
    DatabaseType::ManticoreSearch,
    DatabaseType::Redis,
    DatabaseType::MongoDb,
    DatabaseType::TDengine,
    DatabaseType::IoTDB,
    DatabaseType::Xugu,
    DatabaseType::DuckDb,
    DatabaseType::Access,
];

#[test]
fn every_protocol_name_reads_back_as_its_type() {
    for db_type in ALL_TYPES {
        assert_eq!(parse_database_type(protocol_name(db_type)).unwrap(), db_type);
        let padded = format!("  {}\t", protocol_name(db_type).to_uppercase());
        assert_eq!(parse_database_type(&padded).unwrap(), db_type);
    }
}

#[test]
fn merging_inferred_types_ignores_order() {
    let types: [ImportInferredType; 7] = [
        ImportInferredType::Boolean,
        ImportInferredType::Integer,
        ImportInferredType::Decimal,
        ImportInferredType::Date,
        ImportInferredType::Timestamp,
        ImportInferredType::Json,
        ImportInferredType::Text,
    ];
    for a in types {
        for b in types {
            assert_eq!(merge_inferred_type(Some(a), b), merge_inferred_type(Some(b), a));
            for c in types {
                let left = merge_inferred_type(Some(merge_inferred_type(Some(a), b)), c);
                let right = merge_inferred_type(Some(a), merge_inferred_type(Some(b), c));
                assert_eq!(left, right);
            }
        }
    }
}

#[test]
fn column_type_does_not_depend_on_row_order() {
    let number = |text: &str, is_integer: bool| JsonValue::Number(JsonNumber { text: text.to_string(), is_integer });
    let rows = vec![vec![number("1", true)], vec![number("2.5", false)], vec![JsonValue::Null]];
    let reversed: Vec<_> = vec![vec![JsonValue::Null], vec![number("2.5", false)], vec![number("1", true)]];
    assert_eq!(infer_column_type(&rows, 0), ImportInferredType::Decimal);
    assert_eq!(infer_column_type(&reversed, 0), ImportInferredType::Decimal);
}

#[test]
fn uppercase_extensions_name_their_kind() {
    for kind in [ImportFileKind::Csv, ImportFileKind::Tsv, ImportFileKind::Txt, ImportFileKind::Json, ImportFileKind::Xlsx] {
        let path = format!("data.{}", kind.label().to_uppercase());
        assert_eq!(import_file_kind(&path), Ok(kind));
    }
}

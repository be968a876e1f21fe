//! Saved connections, their names on the wire, and how an MCP request picks one.
use vstd::prelude::*;
use crate::dialect::DatabaseType;
use crate::text::{is_ascii_upper, is_ws, lemma_plain_text_normalized, ascii_lowercase, dec, eq_ic, join, lower, push_dec, push_str, str_eq, str_eq_ic, trim, trim_string, views, join_strings};

verus! {

/// A saved connection, as far as the MCP tools read it.
#[derive(Debug)]
pub struct ConnectionConfig {
    pub id: String,
    pub name: String,
    pub db_type: DatabaseType,
    pub host: String,
    pub port: u16,
    pub username: String,
    pub password: String,
    pub database: Option<String>,
    pub ssl: bool,
    pub driver_profile: Option<String>,
}

/// A copy of an optional string.
pub fn clone_opt_string(o: &Option<String>) -> (r: Option<String>)
    ensures
        r == *o,
{
    match o {
        Some(s) => Some(s.clone()),
        None => None,
    }
}

impl ConnectionConfig {
    /// A field-for-field copy.
    pub fn duplicate(&self) -> (r: Self)
        ensures
            r == *self,
    {
        ConnectionConfig {
            id: self.id.clone(),
            name: self.name.clone(),
            db_type: self.db_type,
            host: self.host.clone(),
            port: self.port,
            username: self.username.clone(),
            password: self.password.clone(),
            database: clone_opt_string(&self.database),
            ssl: self.ssl,
            driver_profile: clone_opt_string(&self.driver_profile),
        }
    }
}

/// Builds the configuration of a new connection from the fields a user supplies.
pub fn new_connection_config(
    id: String,
    name: String,
    db_type: DatabaseType,
    host: String,
    port: u16,
    username: String,
    password: String,
    database: Option<String>,
    ssl: bool,
    driver_profile: Option<String>,
) -> (r: ConnectionConfig)
    ensures
        r == (ConnectionConfig { id, name, db_type, host, port, username, password, database, ssl, driver_profile }),
{
    ConnectionConfig { id, name, db_type, host, port, username, password, database, ssl, driver_profile }
}

/// The name DBX uses for a database type in its protocol and configuration files.
pub open spec fn spec_protocol_name(db: DatabaseType) -> Seq<char> {
    match db {
        DatabaseType::Mysql => "mysql"@,
        DatabaseType::Postgres => "postgres"@,
        DatabaseType::Sqlite => "sqlite"@,
        DatabaseType::SqlServer => "sqlserver"@,
        DatabaseType::Oracle => "oracle"@,
        DatabaseType::OceanbaseOracle => "oceanbaseoracle"@,
        DatabaseType::Iris => "iris"@,
        DatabaseType::Dameng => "dameng"@,
        DatabaseType::ClickHouse => "clickhouse"@,
        DatabaseType::Hive => "hive"@,
        DatabaseType::Trino => "trino"@,
        DatabaseType::PrestoSql => "prestosql"@,
        DatabaseType::Databricks => "databricks"@,
        DatabaseType::Rqlite => "rqlite"@,
        DatabaseType::Turso => "turso"@,
        DatabaseType::CloudflareD1 => "cloudflare-d1"@,
        DatabaseType::Gaussdb => "gaussdb"@,
        DatabaseType::OpenGauss => "opengauss"@,
        DatabaseType::Redshift => "redshift"@,
        DatabaseType::Kingbase => "kingbase"@,
        DatabaseType::Highgo => "highgo"@,
        DatabaseType::Kwdb => "kwdb"@,
        DatabaseType::Vastbase => "vastbase"@,
        DatabaseType::Doris => "doris"@,
        DatabaseType::StarRocks => "starrocks"@,
        DatabaseType::Goldendb => "goldendb"@,
        DatabaseType::Sundb => "sundb"@,
        DatabaseType::Databend => "databend"@,
        DatabaseType::ManticoreSearch => "manticoresearch"@,
        DatabaseType::Redis => "redis"@,
        DatabaseType::MongoDb => "mongodb"@,
        DatabaseType::TDengine => "tdengine"@,
        DatabaseType::IoTDB => "iotdb"@,
        DatabaseType::Xugu => "xugu"@,
        DatabaseType::DuckDb => "duckdb"@,
        DatabaseType::Access => "access"@,
    }
}

/// No two database types share a protocol name.
#[verifier::rlimit(100)]
pub proof fn lemma_protocol_names_distinct(a: DatabaseType, b: DatabaseType)
    requires
        spec_protocol_name(a) == spec_protocol_name(b),
    ensures
        a == b,
{
    reveal_strlit("mysql");
    reveal_strlit("postgres");
    reveal_strlit("sqlite");
    reveal_strlit("sqlserver");
    reveal_strlit("oracle");
    reveal_strlit("oceanbaseoracle");
    reveal_strlit("iris");
    reveal_strlit("dameng");
    reveal_strlit("clickhouse");
    reveal_strlit("hive");
    reveal_strlit("trino");
    reveal_strlit("prestosql");
    reveal_strlit("databricks");
    reveal_strlit("rqlite");
    reveal_strlit("turso");
    reveal_strlit("cloudflare-d1");
    reveal_strlit("gaussdb");
    reveal_strlit("opengauss");
    reveal_strlit("redshift");
    reveal_strlit("kingbase");
    reveal_strlit("highgo");
    reveal_strlit("kwdb");
    reveal_strlit("vastbase");
    reveal_strlit("doris");
    reveal_strlit("starrocks");
    reveal_strlit("goldendb");
    reveal_strlit("sundb");
    reveal_strlit("databend");
    reveal_strlit("manticoresearch");
    reveal_strlit("redis");
    reveal_strlit("mongodb");
    reveal_strlit("tdengine");
    reveal_strlit("iotdb");
    reveal_strlit("xugu");
    reveal_strlit("duckdb");
    reveal_strlit("access");
    let x = spec_protocol_name(a);
    let y = spec_protocol_name(b);
    assert(x.len() == y.len());
    assert(x[0] == y[0] && x[1] == y[1] && x[2] == y[2] && x[3] == y[3]);
}

/// A type's protocol name reads back as that type and no other: it is already trimmed
/// and lowercase, and no other type has it.
pub proof fn lemma_protocol_name_round_trip(d: DatabaseType, e: DatabaseType)
    ensures
        spec_protocol_name(e) == lower(trim(spec_protocol_name(d))) <==> e == d,
{
    reveal_strlit("mysql");
    reveal_strlit("postgres");
    reveal_strlit("sqlite");
    reveal_strlit("sqlserver");
    reveal_strlit("oracle");
    reveal_strlit("oceanbaseoracle");
    reveal_strlit("iris");
    reveal_strlit("dameng");
    reveal_strlit("clickhouse");
    reveal_strlit("hive");
    reveal_strlit("trino");
    reveal_strlit("prestosql");
    reveal_strlit("databricks");
    reveal_strlit("rqlite");
    reveal_strlit("turso");
    reveal_strlit("cloudflare-d1");
    reveal_strlit("gaussdb");
    reveal_strlit("opengauss");
    reveal_strlit("redshift");
    reveal_strlit("kingbase");
    reveal_strlit("highgo");
    reveal_strlit("kwdb");
    reveal_strlit("vastbase");
    reveal_strlit("doris");
    reveal_strlit("starrocks");
    reveal_strlit("goldendb");
    reveal_strlit("sundb");
    reveal_strlit("databend");
    reveal_strlit("manticoresearch");
    reveal_strlit("redis");
    reveal_strlit("mongodb");
    reveal_strlit("tdengine");
    reveal_strlit("iotdb");
    reveal_strlit("xugu");
    reveal_strlit("duckdb");
    reveal_strlit("access");
    let n = spec_protocol_name(d);
    assert forall|i: int| 0 <= i < n.len() implies !is_ws(#[trigger] n[i]) && !is_ascii_upper(n[i]) by {
    }
    lemma_plain_text_normalized(n);
    if spec_protocol_name(e) == n {
        lemma_protocol_names_distinct(e, d);
    }
}

pub fn protocol_name(db: DatabaseType) -> (r: &'static str)
    ensures
        r@ == spec_protocol_name(db),
{
    match db {
        DatabaseType::Mysql => "mysql",
        DatabaseType::Postgres => "postgres",
        DatabaseType::Sqlite => "sqlite",
        DatabaseType::SqlServer => "sqlserver",
        DatabaseType::Oracle => "oracle",
        DatabaseType::OceanbaseOracle => "oceanbaseoracle",
        DatabaseType::Iris => "iris",
        DatabaseType::Dameng => "dameng",
        DatabaseType::ClickHouse => "clickhouse",
        DatabaseType::Hive => "hive",
        DatabaseType::Trino => "trino",
        DatabaseType::PrestoSql => "prestosql",
        DatabaseType::Databricks => "databricks",
        DatabaseType::Rqlite => "rqlite",
        DatabaseType::Turso => "turso",
        DatabaseType::CloudflareD1 => "cloudflare-d1",
        DatabaseType::Gaussdb => "gaussdb",
        DatabaseType::OpenGauss => "opengauss",
        DatabaseType::Redshift => "redshift",
        DatabaseType::Kingbase => "kingbase",
        DatabaseType::Highgo => "highgo",
        DatabaseType::Kwdb => "kwdb",
        DatabaseType::Vastbase => "vastbase",
        DatabaseType::Doris => "doris",
        DatabaseType::StarRocks => "starrocks",
        DatabaseType::Goldendb => "goldendb",
        DatabaseType::Sundb => "sundb",
        DatabaseType::Databend => "databend",
        DatabaseType::ManticoreSearch => "manticoresearch",
        DatabaseType::Redis => "redis",
        DatabaseType::MongoDb => "mongodb",
        DatabaseType::TDengine => "tdengine",
        DatabaseType::IoTDB => "iotdb",
        DatabaseType::Xugu => "xugu",
        DatabaseType::DuckDb => "duckdb",
        DatabaseType::Access => "access",
    }
}

/// The variant's name as `Debug` prints it.
pub open spec fn spec_debug_name(db: DatabaseType) -> Seq<char> {
    match db {
        DatabaseType::Mysql => "Mysql"@,
        DatabaseType::Postgres => "Postgres"@,
        DatabaseType::Sqlite => "Sqlite"@,
        DatabaseType::SqlServer => "SqlServer"@,
        DatabaseType::Oracle => "Oracle"@,
        DatabaseType::OceanbaseOracle => "OceanbaseOracle"@,
        DatabaseType::Iris => "Iris"@,
        DatabaseType::Dameng => "Dameng"@,
        DatabaseType::ClickHouse => "ClickHouse"@,
        DatabaseType::Hive => "Hive"@,
        DatabaseType::Trino => "Trino"@,
        DatabaseType::PrestoSql => "PrestoSql"@,
        DatabaseType::Databricks => "Databricks"@,
        DatabaseType::Rqlite => "Rqlite"@,
        DatabaseType::Turso => "Turso"@,
        DatabaseType::CloudflareD1 => "CloudflareD1"@,
        DatabaseType::Gaussdb => "Gaussdb"@,
        DatabaseType::OpenGauss => "OpenGauss"@,
        DatabaseType::Redshift => "Redshift"@,
        DatabaseType::Kingbase => "Kingbase"@,
        DatabaseType::Highgo => "Highgo"@,
        DatabaseType::Kwdb => "Kwdb"@,
        DatabaseType::Vastbase => "Vastbase"@,
        DatabaseType::Doris => "Doris"@,
        DatabaseType::StarRocks => "StarRocks"@,
        DatabaseType::Goldendb => "Goldendb"@,
        DatabaseType::Sundb => "Sundb"@,
        DatabaseType::Databend => "Databend"@,
        DatabaseType::ManticoreSearch => "ManticoreSearch"@,
        DatabaseType::Redis => "Redis"@,
        DatabaseType::MongoDb => "MongoDb"@,
        DatabaseType::TDengine => "TDengine"@,
        DatabaseType::IoTDB => "IoTDB"@,
        DatabaseType::Xugu => "Xugu"@,
        DatabaseType::DuckDb => "DuckDb"@,
        DatabaseType::Access => "Access"@,
    }
}

pub fn debug_name(db: DatabaseType) -> (r: &'static str)
    ensures
        r@ == spec_debug_name(db),
{
    match db {
        DatabaseType::Mysql => "Mysql",
        DatabaseType::Postgres => "Postgres",
        DatabaseType::Sqlite => "Sqlite",
        DatabaseType::SqlServer => "SqlServer",
        DatabaseType::Oracle => "Oracle",
        DatabaseType::OceanbaseOracle => "OceanbaseOracle",
        DatabaseType::Iris => "Iris",
        DatabaseType::Dameng => "Dameng",
        DatabaseType::ClickHouse => "ClickHouse",
        DatabaseType::Hive => "Hive",
        DatabaseType::Trino => "Trino",
        DatabaseType::PrestoSql => "PrestoSql",
        DatabaseType::Databricks => "Databricks",
        DatabaseType::Rqlite => "Rqlite",
        DatabaseType::Turso => "Turso",
        DatabaseType::CloudflareD1 => "CloudflareD1",
        DatabaseType::Gaussdb => "Gaussdb",
        DatabaseType::OpenGauss => "OpenGauss",
        DatabaseType::Redshift => "Redshift",
        DatabaseType::Kingbase => "Kingbase",
        DatabaseType::Highgo => "Highgo",
        DatabaseType::Kwdb => "Kwdb",
        DatabaseType::Vastbase => "Vastbase",
        DatabaseType::Doris => "Doris",
        DatabaseType::StarRocks => "StarRocks",
        DatabaseType::Goldendb => "Goldendb",
        DatabaseType::Sundb => "Sundb",
        DatabaseType::Databend => "Databend",
        DatabaseType::ManticoreSearch => "ManticoreSearch",
        DatabaseType::Redis => "Redis",
        DatabaseType::MongoDb => "MongoDb",
        DatabaseType::TDengine => "TDengine",
        DatabaseType::IoTDB => "IoTDB",
        DatabaseType::Xugu => "Xugu",
        DatabaseType::DuckDb => "DuckDb",
        DatabaseType::Access => "Access",
    }
}

/// Reads a database type from its protocol name, ignoring surrounding whitespace and
/// ASCII case.
pub fn parse_database_type(value: &str) -> (r: Result<DatabaseType, String>)
    ensures
        match r {
            Ok(d) => spec_protocol_name(d) == lower(trim(value@)),
            Err(e) => (forall|d: DatabaseType| spec_protocol_name(d) != lower(trim(value@)))
                && e@ == "Unsupported database type: "@ + value@,
        },
{
    let trimmed = trim_string(value);
    let t = ascii_lowercase(trimmed.as_str());
    if str_eq(t.as_str(), protocol_name(DatabaseType::Mysql)) {
        return Ok(DatabaseType::Mysql);
    }
    if str_eq(t.as_str(), protocol_name(DatabaseType::Postgres)) {
        return Ok(DatabaseType::Postgres);
    }
    if str_eq(t.as_str(), protocol_name(DatabaseType::Sqlite)) {
        return Ok(DatabaseType::Sqlite);
    }
    if str_eq(t.as_str(), protocol_name(DatabaseType::SqlServer)) {
        return Ok(DatabaseType::SqlServer);
    }
    if str_eq(t.as_str(), protocol_name(DatabaseType::Oracle)) {
        return Ok(DatabaseType::Oracle);
    }
    if str_eq(t.as_str(), protocol_name(DatabaseType::OceanbaseOracle)) {
        return Ok(DatabaseType::OceanbaseOracle);
    }
    if str_eq(t.as_str(), protocol_name(DatabaseType::Iris)) {
        return Ok(DatabaseType::Iris);
    }
    if str_eq(t.as_str(), protocol_name(DatabaseType::Dameng)) {
        return Ok(DatabaseType::Dameng);
    }
    if str_eq(t.as_str(), protocol_name(DatabaseType::ClickHouse)) {
        return Ok(DatabaseType::ClickHouse);
    }
    if str_eq(t.as_str(), protocol_name(DatabaseType::Hive)) {
        return Ok(DatabaseType::Hive);
    }
    if str_eq(t.as_str(), protocol_name(DatabaseType::Trino)) {
        return Ok(DatabaseType::Trino);
    }
    if str_eq(t.as_str(), protocol_name(DatabaseType::PrestoSql)) {
        return Ok(DatabaseType::PrestoSql);
    }
    if str_eq(t.as_str(), protocol_name(DatabaseType::Databricks)) {
        return Ok(DatabaseType::Databricks);
    }
    if str_eq(t.as_str(), protocol_name(DatabaseType::Rqlite)) {
        return Ok(DatabaseType::Rqlite);
    }
    if str_eq(t.as_str(), protocol_name(DatabaseType::Turso)) {
        return Ok(DatabaseType::Turso);
    }
    if str_eq(t.as_str(), protocol_name(DatabaseType::CloudflareD1)) {
        return Ok(DatabaseType::CloudflareD1);
    }
    if str_eq(t.as_str(), protocol_name(DatabaseType::Gaussdb)) {
        return Ok(DatabaseType::Gaussdb);
    }
    if str_eq(t.as_str(), protocol_name(DatabaseType::OpenGauss)) {
        return Ok(DatabaseType::OpenGauss);
    }
    if str_eq(t.as_str(), protocol_name(DatabaseType::Redshift)) {
        return Ok(DatabaseType::Redshift);
    }
    if str_eq(t.as_str(), protocol_name(DatabaseType::Kingbase)) {
        return Ok(DatabaseType::Kingbase);
    }
    if str_eq(t.as_str(), protocol_name(DatabaseType::Highgo)) {
        return Ok(DatabaseType::Highgo);
    }
    if str_eq(t.as_str(), protocol_name(DatabaseType::Kwdb)) {
        return Ok(DatabaseType::Kwdb);
    }
    if str_eq(t.as_str(), protocol_name(DatabaseType::Vastbase)) {
        return Ok(DatabaseType::Vastbase);
    }
    if str_eq(t.as_str(), protocol_name(DatabaseType::Doris)) {
        return Ok(DatabaseType::Doris);
    }
    if str_eq(t.as_str(), protocol_name(DatabaseType::StarRocks)) {
        return Ok(DatabaseType::StarRocks);
    }
    if str_eq(t.as_str(), protocol_name(DatabaseType::Goldendb)) {
        return Ok(DatabaseType::Goldendb);
    }
    if str_eq(t.as_str(), protocol_name(DatabaseType::Sundb)) {
        return Ok(DatabaseType::Sundb);
    }
    if str_eq(t.as_str(), protocol_name(DatabaseType::Databend)) {
        return Ok(DatabaseType::Databend);
    }
    if str_eq(t.as_str(), protocol_name(DatabaseType::ManticoreSearch)) {
        return Ok(DatabaseType::ManticoreSearch);
    }
    if str_eq(t.as_str(), protocol_name(DatabaseType::Redis)) {
        return Ok(DatabaseType::Redis);
    }
    if str_eq(t.as_str(), protocol_name(DatabaseType::MongoDb)) {
        return Ok(DatabaseType::MongoDb);
    }
    if str_eq(t.as_str(), protocol_name(DatabaseType::TDengine)) {
        return Ok(DatabaseType::TDengine);
    }
    if str_eq(t.as_str(), protocol_name(DatabaseType::IoTDB)) {
        return Ok(DatabaseType::IoTDB);
    }
    if str_eq(t.as_str(), protocol_name(DatabaseType::Xugu)) {
        return Ok(DatabaseType::Xugu);
    }
    if str_eq(t.as_str(), protocol_name(DatabaseType::DuckDb)) {
        return Ok(DatabaseType::DuckDb);
    }
    if str_eq(t.as_str(), protocol_name(DatabaseType::Access)) {
        return Ok(DatabaseType::Access);
    }
    let mut e = String::new();
    push_str(&mut e, "Unsupported database type: ");
    push_str(&mut e, value);
    Err(e)
}


/// The port a connection type usually listens on, by lowercase protocol name.
pub open spec fn spec_default_port(t: Seq<char>) -> Option<u16> {
    if t == "mysql"@ || t == "doris"@ || t == "starrocks"@ || t == "manticoresearch"@ {
        Some(3306)
    } else
    if t == "postgres"@ || t == "redshift"@ || t == "highgo"@ || t == "kingbase"@ || t == "opengauss"@ || t == "gaussdb"@ {
        Some(5432)
    } else
    if t == "redis"@ {
        Some(6379)
    } else
    if t == "mongodb"@ {
        Some(27017)
    } else
    if t == "rqlite"@ {
        Some(4001)
    } else
    if t == "kwdb"@ {
        Some(26257)
    } else
    if t == "cloudflare-d1"@ {
        Some(443)
    } else
    if t == "tdengine"@ {
        Some(6041)
    } else
    if t == "iotdb"@ {
        Some(6667)
    } else
    if t == "xugu"@ {
        Some(5138)
    } else
    if t == "sqlite"@ || t == "duckdb"@ || t == "access"@ {
        Some(0)
    } else {
        None
    }
}

/// The usual port of a database type named by its protocol name; `Some(0)` for
/// embedded databases, `None` for a name without one.
pub fn default_port(db_type: &str) -> (r: Option<u16>)
    ensures
        r == spec_default_port(lower(trim(db_type@))),
{
    let trimmed = trim_string(db_type);
    let t = ascii_lowercase(trimmed.as_str());
    if str_eq(t.as_str(), "mysql") {
        return Some(3306);
    }
    if str_eq(t.as_str(), "doris") {
        return Some(3306);
    }
    if str_eq(t.as_str(), "starrocks") {
        return Some(3306);
    }
    if str_eq(t.as_str(), "manticoresearch") {
        return Some(3306);
    }
    if str_eq(t.as_str(), "postgres") {
        return Some(5432);
    }
    if str_eq(t.as_str(), "redshift") {
        return Some(5432);
    }
    if str_eq(t.as_str(), "highgo") {
        return Some(5432);
    }
    if str_eq(t.as_str(), "kingbase") {
        return Some(5432);
    }
    if str_eq(t.as_str(), "opengauss") {
        return Some(5432);
    }
    if str_eq(t.as_str(), "gaussdb") {
        return Some(5432);
    }
    if str_eq(t.as_str(), "redis") {
        return Some(6379);
    }
    if str_eq(t.as_str(), "mongodb") {
        return Some(27017);
    }
    if str_eq(t.as_str(), "rqlite") {
        return Some(4001);
    }
    if str_eq(t.as_str(), "kwdb") {
        return Some(26257);
    }
    if str_eq(t.as_str(), "cloudflare-d1") {
        return Some(443);
    }
    if str_eq(t.as_str(), "tdengine") {
        return Some(6041);
    }
    if str_eq(t.as_str(), "iotdb") {
        return Some(6667);
    }
    if str_eq(t.as_str(), "xugu") {
        return Some(5138);
    }
    if str_eq(t.as_str(), "sqlite") {
        return Some(0);
    }
    if str_eq(t.as_str(), "duckdb") {
        return Some(0);
    }
    if str_eq(t.as_str(), "access") {
        return Some(0);
    }
    None
}

/// The connection as the connection list shows it.
#[derive(Debug, PartialEq, Eq)]
pub struct ConnectionSummary {
    pub id: String,
    pub name: String,
    pub db_type: String,
    pub host: String,
    pub port: u16,
    pub database: String,
}

pub open spec fn opt_view(o: Option<String>) -> Option<Seq<char>> {
    match o {
        Some(s) => Some(s@),
        None => None,
    }
}

/// The text of an optional string, or the empty text.
pub open spec fn or_empty(o: Option<String>) -> Seq<char> {
    match o {
        Some(s) => s@,
        None => Seq::empty(),
    }
}

impl ConnectionSummary {
    /// The summary of a saved connection: its fields, the database type by protocol
    /// name, and the empty text for no database.
    pub fn from_config(config: &ConnectionConfig) -> (r: Self)
        ensures
            r.id@ == config.id@,
            r.name@ == config.name@,
            r.db_type@ == spec_protocol_name(config.db_type),
            r.host@ == config.host@,
            r.port == config.port,
            r.database@ == or_empty(config.database),
    {
        let mut db_type = String::new();
        push_str(&mut db_type, protocol_name(config.db_type));
        ConnectionSummary {
            id: config.id.clone(),
            name: config.name.clone(),
            db_type,
            host: config.host.clone(),
            port: config.port,
            database: match &config.database {
                Some(d) => d.clone(),
                None => String::new(),
            },
        }
    }
}

/// The text with surrounding whitespace removed, unless nothing is left.
pub open spec fn non_empty_text(o: Option<Seq<char>>) -> Option<Seq<char>> {
    match o {
        Some(t) => if trim(t).len() > 0 {
            Some(trim(t))
        } else {
            None
        },
        None => None,
    }
}

/// `value.as_deref().map(str::trim).filter(|v| !v.is_empty())`, owned.
pub fn trimmed_non_empty(value: &Option<String>) -> (r: Option<String>)
    ensures
        opt_view(r) == non_empty_text(opt_view(*value)),
{
    match value {
        Some(v) => {
            let t = trim_string(v.as_str());
            if t.as_str().unicode_len() > 0 {
                Some(t)
            } else {
                None
            }
        },
        None => None,
    }
}

/// A request's choice of connection, by ID or by name.
#[derive(Debug)]
pub struct ConnectionSelector {
    pub connection_id: Option<String>,
    pub connection_name: Option<String>,
}

/// The connection (and database) an MCP session is confined to, if any.
#[derive(Debug)]
pub struct McpScope {
    pub connection_id: Option<String>,
    pub connection_name: Option<String>,
    pub database: Option<String>,
}

impl Default for McpScope {
    fn default() -> (r: Self)
        ensures
            r.connection_id is None && r.connection_name is None && r.database is None,
    {
        McpScope { connection_id: None, connection_name: None, database: None }
    }
}

impl McpScope {
    /// The scope from the values of the scope variables of the environment
    /// (`DBX_MCP_SCOPE_CONNECTION_ID`, `DBX_MCP_SCOPE_CONNECTION_NAME`,
    /// `DBX_MCP_SCOPE_DATABASE`); each is trimmed, and an empty one counts as unset.
    pub fn from_env(connection_id: Option<String>, connection_name: Option<String>, database: Option<String>) -> (r: Self)
        ensures
            opt_view(r.connection_id) == non_empty_text(opt_view(connection_id)),
            opt_view(r.connection_name) == non_empty_text(opt_view(connection_name)),
            opt_view(r.database) == non_empty_text(opt_view(database)),
    {
        McpScope {
            connection_id: trimmed_non_empty(&connection_id),
            connection_name: trimmed_non_empty(&connection_name),
            database: trimmed_non_empty(&database),
        }
    }

    pub open spec fn spec_enabled(self) -> bool {
        self.connection_id is Some || self.connection_name is Some
    }

    /// Whether the session is confined to one connection.
    pub fn enabled(&self) -> (r: bool)
        ensures
            r == self.spec_enabled(),
    {
        self.connection_id.is_some() || self.connection_name.is_some()
    }

    pub open spec fn spec_matches(self, c: ConnectionConfig) -> bool {
        (self.connection_id matches Some(id) && id@ == c.id@) || (self.connection_name matches Some(n) && n@
            == c.name@)
    }

    /// Whether the connection is the one the scope names, by ID or by name.
    pub fn matches(&self, connection: &ConnectionConfig) -> (r: bool)
        ensures
            r == self.spec_matches(*connection),
    {
        let by_id = match &self.connection_id {
            Some(id) => *id == connection.id,
            None => false,
        };
        let by_name = match &self.connection_name {
            Some(n) => *n == connection.name,
            None => false,
        };
        by_id || by_name
    }
}

/// The database a tool works in: the one requested, else the scope's, else the
/// connection's, else none (the empty text).
pub open spec fn spec_resolve_database(requested: Option<Seq<char>>, scope: McpScope, c: ConnectionConfig) -> Seq<char> {
    match requested {
        Some(r) => r,
        None => match scope.database {
            Some(d) => d@,
            None => or_empty(c.database),
        },
    }
}

pub fn resolve_database(requested: Option<String>, scope: &McpScope, connection: &ConnectionConfig) -> (r: String)
    ensures
        r@ == spec_resolve_database(opt_view(requested), *scope, *connection),
{
    match requested {
        Some(r) => r,
        None => match &scope.database {
            Some(d) => d.clone(),
            None => match &connection.database {
                Some(d) => d.clone(),
                None => String::new(),
            },
        },
    }
}

/// An error a tool reports: a code and a message.
#[derive(Debug)]
pub struct ToolError {
    pub code: String,
    pub message: String,
}

pub open spec fn spec_tool_error_text(code: Seq<char>, message: Seq<char>) -> Seq<char> {
    "Error ["@ + code + "]: "@ + message
}

impl ToolError {
    pub fn new(code: &str, message: String) -> (r: Self)
        ensures
            r.code@ == code@,
            r.message@ == message@,
    {
        let mut c = String::new();
        push_str(&mut c, code);
        ToolError { code: c, message }
    }

    /// The text the tool answers with: `Error [CODE]: message`.
    pub fn text(&self) -> (r: String)
        ensures
            r@ == spec_tool_error_text(self.code@, self.message@),
    {
        let mut out = String::new();
        push_str(&mut out, "Error [");
        push_str(&mut out, self.code.as_str());
        push_str(&mut out, "]: ");
        push_str(&mut out, self.message.as_str());
        out
    }
}

} // verus!

//! What an MCP session may do: which tools it offers, the permission flags, and the
//! checks that writes, dangerous commands and production databases pass through.
use vstd::prelude::*;
use crate::dialect::DatabaseType;
use crate::mcp::connections::{opt_view, ConnectionConfig, McpScope, ToolError};
use crate::mongo::command::MongoCommand;
use crate::mongo::parser::{parse, parsed, spec_parse};
use crate::text::{
    ascii_lowercase, chars_of, lower, parse_unsigned, parse_unsigned_chars, push_str, str_eq, trim, trim_string,
    upper_char, to_upper_char,
};

verus! {

/// The tools of the DBX MCP server, in the order they are declared.
pub open spec fn all_tools() -> Seq<Seq<char>> {
    seq![
        "dbx_list_connections"@,
        "dbx_list_tables"@,
        "dbx_describe_table"@,
        "dbx_execute_query"@,
        "dbx_execute_redis_command"@,
        "dbx_get_schema_context"@,
        "dbx_add_connection"@,
        "dbx_remove_connection"@,
        "dbx_open_table"@,
        "dbx_execute_and_show"@,
    ]
}

/// Whether tool `i` of [`all_tools`] is offered: adding and removing connections
/// only outside a scoped session, the desktop tools only for a local, unscoped one.
pub open spec fn tool_offered(i: int, scope_enabled: bool, web_mode: bool) -> bool {
    if i == 6 || i == 7 {
        !scope_enabled
    } else if i == 8 || i == 9 {
        !(web_mode || scope_enabled)
    } else {
        true
    }
}

fn tool_name(i: usize) -> (r: &'static str)
    requires
        i < 10,
    ensures
        r@ == all_tools()[i as int],
{
    if i == 0 {
        "dbx_list_connections"
    } else if i == 1 {
        "dbx_list_tables"
    } else if i == 2 {
        "dbx_describe_table"
    } else if i == 3 {
        "dbx_execute_query"
    } else if i == 4 {
        "dbx_execute_redis_command"
    } else if i == 5 {
        "dbx_get_schema_context"
    } else if i == 6 {
        "dbx_add_connection"
    } else if i == 7 {
        "dbx_remove_connection"
    } else if i == 8 {
        "dbx_open_table"
    } else {
        "dbx_execute_and_show"
    }
}

/// The tools a server offers, in declaration order.
pub fn enabled_tools(scope_enabled: bool, web_mode: bool) -> (r: Vec<&'static str>)
    ensures
        r@.map_values(|t: &'static str| t@) == Seq::new(10, |i: int| i).filter(
            |i: int| tool_offered(i, scope_enabled, web_mode),
        ).map_values(|i: int| all_tools()[i]),
{
    let mut out: Vec<&'static str> = Vec::new();
    let mut i: usize = 0;
    while i < 10
        invariant
            i <= 10,
            out@.map_values(|t: &'static str| t@) == Seq::new(i as nat, |k: int| k).filter(
                |k: int| tool_offered(k, scope_enabled, web_mode),
            ).map_values(|k: int| all_tools()[k]),
        decreases 10 - i,
    {
        proof {
            let a = Seq::new((i + 1) as nat, |k: int| k);
            assert(a.drop_last() =~= Seq::new(i as nat, |k: int| k));
            assert(a.last() == i);
            reveal(Seq::filter);
        }
        let offered = if i == 6 || i == 7 {
            !scope_enabled
        } else if i == 8 || i == 9 {
            !(web_mode || scope_enabled)
        } else {
            true
        };
        if offered {
            let ghost before = out@;
            let name = tool_name(i);
            out.push(name);
            proof {
                let f = Seq::new(i as nat, |k: int| k).filter(|k: int| tool_offered(k, scope_enabled, web_mode));
                assert(out@.map_values(|t: &'static str| t@) =~= before.map_values(|t: &'static str| t@).push(name@));
                assert(f.push(i as int).map_values(|k: int| all_tools()[k]) =~= f.map_values(
                    |k: int| all_tools()[k],
                ).push(all_tools()[i as int]));
            }
        }
        i = i + 1;
    }
    out
}

/// What an on/off setting means: `1`/`true` on, `0`/`false` off (trimmed, any ASCII
/// case), anything else unset.
pub open spec fn spec_flag(value: Option<Seq<char>>) -> Option<bool> {
    match value {
        None => None,
        Some(v) => {
            let t = lower(trim(v));
            if t == "1"@ || t == "true"@ {
                Some(true)
            } else if t == "0"@ || t == "false"@ {
                Some(false)
            } else {
                None
            }
        },
    }
}

/// Reads an on/off setting from the value of its environment variable.
pub fn boolean_flag(value: Option<String>) -> (r: Option<bool>)
    ensures
        r == spec_flag(opt_view(value)),
{
    match value {
        None => None,
        Some(v) => {
            let trimmed = trim_string(v.as_str());
            let t = ascii_lowercase(trimmed.as_str());
            if str_eq(t.as_str(), "1") || str_eq(t.as_str(), "true") {
                Some(true)
            } else if str_eq(t.as_str(), "0") || str_eq(t.as_str(), "false") {
                Some(false)
            } else {
                None
            }
        },
    }
}

/// What an MCP session may run.
#[derive(Debug, Clone, Copy, PartialEq, Eq, Structural)]
pub struct AgentSqlPermissions {
    pub allow_writes: bool,
    pub allow_dangerous: bool,
}

/// The session's permissions from `DBX_MCP_ALLOW_WRITES` (writes allowed unless
/// turned off) and `DBX_MCP_ALLOW_DANGEROUS_SQL` (dangerous statements refused unless
/// turned on).
pub fn default_permissions(allow_writes: Option<String>, allow_dangerous: Option<String>) -> (r: AgentSqlPermissions)
    ensures
        r.allow_writes == match spec_flag(opt_view(allow_writes)) {
            Some(b) => b,
            None => true,
        },
        r.allow_dangerous == match spec_flag(opt_view(allow_dangerous)) {
            Some(b) => b,
            None => false,
        },
{
    AgentSqlPermissions {
        allow_writes: match boolean_flag(allow_writes) {
            Some(b) => b,
            None => true,
        },
        allow_dangerous: match boolean_flag(allow_dangerous) {
            Some(b) => b,
            None => false,
        },
    }
}

fn message(text: &str) -> (r: String)
    ensures
        r@ == text@,
{
    let mut out = String::new();
    push_str(&mut out, text);
    out
}

pub open spec fn mongo_usage_hint() -> Seq<char> {
    " Use MongoDB shell-style commands such as db.collection.find({}), db.collection.aggregate([]), or db.collection.countDocuments({})."@
}

/// Which error, if any, a parsed MongoDB command meets: writes in a read-only
/// session, an update or delete of everything without the dangerous flag, a dangerous
/// command without it, a write to a production database.
pub open spec fn spec_mongo_gate(
    c: crate::mongo::command::MongoCommandModel,
    p: AgentSqlPermissions,
    is_production: bool,
) -> Option<(Seq<char>, Seq<char>)> {
    if c.spec_is_mutating() && !p.allow_writes {
        Some(
            (
                "SQL_BLOCKED"@,
                "MCP MongoDB execution is read-only for this session. Set DBX_MCP_ALLOW_WRITES=1 to allow write commands."@,
            ),
        )
    } else if c.spec_has_empty_filter() && !p.allow_dangerous {
        Some(
            (
                "SQL_BLOCKED"@,
                "MongoDB update/delete commands must include a non-empty filter unless DBX_MCP_ALLOW_DANGEROUS_SQL=1 is set."@,
            ),
        )
    } else if c.spec_is_dangerous() && !p.allow_dangerous {
        Some(("SQL_BLOCKED"@, "Dangerous MongoDB command is blocked. Set DBX_MCP_ALLOW_DANGEROUS_SQL=1 to allow it."@))
    } else if c.spec_is_mutating() && is_production {
        Some(("PRODUCTION_WRITE_BLOCKED"@, "MCP cannot execute writes against a production database."@))
    } else {
        None
    }
}

/// What the MongoDB check guarantees of every command it lets through: a write only
/// when the session allows writes and the database is not a production one; an
/// update or delete of everything, or a dangerous command, only when the session
/// allows dangerous commands.
pub proof fn lemma_mongo_gate_safety(
    c: crate::mongo::command::MongoCommandModel,
    p: AgentSqlPermissions,
    is_production: bool,
)
    requires
        spec_mongo_gate(c, p, is_production) is None,
    ensures
        c.spec_is_mutating() ==> p.allow_writes && !is_production,
        c.spec_has_empty_filter() ==> p.allow_dangerous,
        c.spec_is_dangerous() ==> p.allow_dangerous,
{
}

/// Reads a MongoDB command sent to a tool and checks it against the session's
/// permissions and whether the database is a production one.
pub fn validate_mongo_command(source: &str, permissions: AgentSqlPermissions, is_production: bool) -> (r: Result<
    MongoCommand,
    ToolError,
>)
    ensures
        match spec_parse(source@) {
            Err(e) => r matches Err(t) && t.code@ == "QUERY_ERROR"@ && t.message@ == e + mongo_usage_hint(),
            Ok(c) => match spec_mongo_gate(c, permissions, is_production) {
                Some((code, msg)) => r matches Err(t) && t.code@ == code && t.message@ == msg,
                None => r matches Ok(cmd) && cmd@ == c,
            },
        },
{
    let command = match parse(source) {
        Ok(c) => c,
        Err(e) => {
            let mut m = e;
            push_str(
                &mut m,
                " Use MongoDB shell-style commands such as db.collection.find({}), db.collection.aggregate([]), or db.collection.countDocuments({}).",
            );
            return Err(ToolError::new("QUERY_ERROR", m));
        },
    };
    if command.is_mutating() && !permissions.allow_writes {
        return Err(
            ToolError::new(
                "SQL_BLOCKED",
                message(
                    "MCP MongoDB execution is read-only for this session. Set DBX_MCP_ALLOW_WRITES=1 to allow write commands.",
                ),
            ),
        );
    }
    if command.has_empty_filter() && !permissions.allow_dangerous {
        return Err(
            ToolError::new(
                "SQL_BLOCKED",
                message(
                    "MongoDB update/delete commands must include a non-empty filter unless DBX_MCP_ALLOW_DANGEROUS_SQL=1 is set.",
                ),
            ),
        );
    }
    if command.is_dangerous() && !permissions.allow_dangerous {
        return Err(
            ToolError::new(
                "SQL_BLOCKED",
                message("Dangerous MongoDB command is blocked. Set DBX_MCP_ALLOW_DANGEROUS_SQL=1 to allow it."),
            ),
        );
    }
    if command.is_mutating() && is_production {
        return Err(
            ToolError::new(
                "PRODUCTION_WRITE_BLOCKED",
                message("MCP cannot execute writes against a production database."),
            ),
        );
    }
    Ok(command)
}

/// How risky a Redis command is.
#[derive(Debug, Clone, Copy, PartialEq, Eq, Structural)]
pub enum RedisCommandSafety {
    Allowed,
    Write,
    Blocked,
}

/// Whether the Redis check lets a command through.
pub open spec fn redis_gate_allows(safety: RedisCommandSafety, permissions: AgentSqlPermissions) -> bool {
    &&& !(safety == RedisCommandSafety::Blocked && !permissions.allow_dangerous)
    &&& !(safety != RedisCommandSafety::Allowed && !permissions.allow_writes)
}

/// What the Redis checks guarantee of every command they let through: a command that
/// is not read-only only when the session allows writes and the database is not a
/// production one, and a dangerous command only when the session allows dangerous
/// commands.
pub proof fn lemma_redis_gate_safety(safety: RedisCommandSafety, is_production: bool, permissions: AgentSqlPermissions)
    requires
        redis_gate_allows(safety, permissions),
        !(safety != RedisCommandSafety::Allowed && is_production),
    ensures
        safety != RedisCommandSafety::Allowed ==> permissions.allow_writes && !is_production,
        safety == RedisCommandSafety::Blocked ==> permissions.allow_dangerous,
{
}

/// The Redis check before anything is sent: dangerous commands need the dangerous
/// flag, and any command that is not read-only needs writes allowed.
pub fn redis_command_gate(safety: RedisCommandSafety, command_name: &str, permissions: AgentSqlPermissions) -> (r:
    Result<(), ToolError>)
    ensures
        r is Ok <==> redis_gate_allows(safety, permissions),
        safety == RedisCommandSafety::Blocked && !permissions.allow_dangerous ==> (r matches Err(t) && t.code@
            == "REDIS_COMMAND_BLOCKED"@ && t.message@ == "Dangerous Redis command \""@ + crate::text::upper(
            command_name@,
        ) + "\" is blocked. Set DBX_MCP_ALLOW_DANGEROUS_SQL=1 to allow it."@),
        !(safety == RedisCommandSafety::Blocked && !permissions.allow_dangerous) && safety
            != RedisCommandSafety::Allowed && !permissions.allow_writes ==> (r matches Err(t) && t.code@
            == "REDIS_COMMAND_BLOCKED"@ && t.message@
            == "MCP Redis command execution is read-only for this session. Set DBX_MCP_ALLOW_WRITES=1 to allow write or dangerous commands."@),
        !(safety == RedisCommandSafety::Blocked && !permissions.allow_dangerous) && !(safety
            != RedisCommandSafety::Allowed && !permissions.allow_writes) ==> r is Ok,
{
    if safety == RedisCommandSafety::Blocked && !permissions.allow_dangerous {
        let v = chars_of(command_name);
        let mut upper = String::new();
        let mut i: usize = 0;
        while i < v.len()
            invariant
                i <= v.len(),
                upper@ == crate::text::upper(v@.subrange(0, i as int)),
            decreases v.len() - i,
        {
            crate::text::push_char(&mut upper, to_upper_char(v[i]));
            assert(crate::text::upper(v@.subrange(0, i + 1)) =~= crate::text::upper(v@.subrange(0, i as int)).push(
                upper_char(v@[i as int]),
            ));
            i = i + 1;
        }
        assert(v@.subrange(0, v@.len() as int) =~= v@);
        let mut m = message("Dangerous Redis command \"");
        push_str(&mut m, upper.as_str());
        push_str(&mut m, "\" is blocked. Set DBX_MCP_ALLOW_DANGEROUS_SQL=1 to allow it.");
        return Err(ToolError::new("REDIS_COMMAND_BLOCKED", m));
    }
    if safety != RedisCommandSafety::Allowed && !permissions.allow_writes {
        return Err(
            ToolError::new(
                "REDIS_COMMAND_BLOCKED",
                message(
                    "MCP Redis command execution is read-only for this session. Set DBX_MCP_ALLOW_WRITES=1 to allow write or dangerous commands.",
                ),
            ),
        );
    }
    Ok(())
}

/// A Redis database number written as text (`str::parse::<u32>` after trimming).
pub fn parse_redis_database(value: &str) -> (r: Option<u32>)
    ensures
        match r {
            Some(n) => parse_unsigned(trim(value@), 4294967295) == Some(n as int),
            None => parse_unsigned(trim(value@), 4294967295) is None,
        },
{
    let t = trim_string(value);
    let v = chars_of(t.as_str());
    match parse_unsigned_chars(v.as_slice(), 4294967295) {
        Some(n) => Some(n as u32),
        None => None,
    }
}

pub open spec fn parsed_db(o: Option<String>) -> Option<int> {
    match o {
        Some(s) => parse_unsigned(trim(s@), 4294967295),
        None => None,
    }
}

/// The Redis database a command runs in: the one requested, else the scope's, else the
/// connection's (when they read as numbers), else 0.
pub open spec fn spec_redis_database(requested: Option<u32>, scope: McpScope, connection: ConnectionConfig) -> int {
    match requested {
        Some(d) => d as int,
        None => match parsed_db(scope.database) {
            Some(d) => d,
            None => match parsed_db(connection.database) {
                Some(d) => d,
                None => 0,
            },
        },
    }
}

pub fn redis_database(requested: Option<u32>, scope: &McpScope, connection: &ConnectionConfig) -> (r: u32)
    ensures
        r == spec_redis_database(requested, *scope, *connection),
{
    if let Some(d) = requested {
        return d;
    }
    if let Some(s) = &scope.database {
        if let Some(d) = parse_redis_database(s.as_str()) {
            return d;
        }
    }
    if let Some(s) = &connection.database {
        if let Some(d) = parse_redis_database(s.as_str()) {
            return d;
        }
    }
    0
}

/// The production check of a Redis command: commands that are not read-only are
/// refused on a production database. On success, whether the safety check is waived
/// (a dangerous command the session allows).
pub fn redis_production_gate(safety: RedisCommandSafety, is_production: bool, permissions: AgentSqlPermissions) -> (r:
    Result<bool, ToolError>)
    ensures
        (safety != RedisCommandSafety::Allowed && is_production) ==> (r matches Err(t) && t.code@
            == "PRODUCTION_WRITE_BLOCKED"@ && t.message@
            == "MCP cannot execute write or dangerous Redis commands against a production database."@),
        !(safety != RedisCommandSafety::Allowed && is_production) ==> r == Ok::<bool, ToolError>(
            safety == RedisCommandSafety::Blocked && permissions.allow_dangerous,
        ),
{
    if safety != RedisCommandSafety::Allowed && is_production {
        return Err(
            ToolError::new(
                "PRODUCTION_WRITE_BLOCKED",
                message("MCP cannot execute write or dangerous Redis commands against a production database."),
            ),
        );
    }
    Ok(safety == RedisCommandSafety::Blocked && permissions.allow_dangerous)
}

/// What the Redis tool sends once its checks pass: the database, and whether the
/// server skips its own safety check.
#[derive(Debug, Clone, Copy, PartialEq, Eq, Structural)]
pub struct RedisPlan {
    pub database: u32,
    pub skip_safety_check: bool,
}

/// The error of the Redis tool's first failing check, in the order it makes them: the
/// connection type, the command's words (`argv`, as read from the command), the
/// permission gate, then the production gate for the database it picks;
/// `is_production` tells whether that database is a production one.
pub open spec fn spec_redis_tool_error(
    connection: ConnectionConfig,
    argv: Result<Seq<Seq<char>>, Seq<char>>,
    safety: RedisCommandSafety,
    permissions: AgentSqlPermissions,
    is_production: bool,
) -> Option<(Seq<char>, Seq<char>)> {
    if connection.db_type != DatabaseType::Redis {
        Some(("INVALID_CONNECTION_TYPE"@, "Connection \""@ + connection.name@ + "\" is not Redis."@))
    } else {
        match argv {
            Err(e) => Some(("REDIS_COMMAND_BLOCKED"@, e)),
            Ok(words) => if safety == RedisCommandSafety::Blocked && !permissions.allow_dangerous {
                Some(
                    (
                        "REDIS_COMMAND_BLOCKED"@,
                        "Dangerous Redis command \""@ + crate::text::upper(words[0])
                            + "\" is blocked. Set DBX_MCP_ALLOW_DANGEROUS_SQL=1 to allow it."@,
                    ),
                )
            } else if safety != RedisCommandSafety::Allowed && !permissions.allow_writes {
                Some(
                    (
                        "REDIS_COMMAND_BLOCKED"@,
                        "MCP Redis command execution is read-only for this session. Set DBX_MCP_ALLOW_WRITES=1 to allow write or dangerous commands."@,
                    ),
                )
            } else if safety != RedisCommandSafety::Allowed && is_production {
                Some(
                    (
                        "PRODUCTION_WRITE_BLOCKED"@,
                        "MCP cannot execute write or dangerous Redis commands against a production database."@,
                    ),
                )
            } else {
                None
            },
        }
    }
}

/// The checks of the Redis tool, in order (see [`spec_redis_tool_error`]), and on
/// success the database and the safety-check waiver it runs the command with.
pub fn redis_tool_plan(
    connection: &ConnectionConfig,
    argv: &Result<Vec<String>, String>,
    safety: RedisCommandSafety,
    requested: Option<u32>,
    scope: &McpScope,
    permissions: AgentSqlPermissions,
    is_production: bool,
) -> (r: Result<RedisPlan, ToolError>)
    requires
        argv matches Ok(words) ==> words@.len() > 0,
    ensures
        ({
            let argv_view = match argv {
                Ok(words) => Ok::<Seq<Seq<char>>, Seq<char>>(crate::text::views(words@)),
                Err(e) => Err::<Seq<Seq<char>>, Seq<char>>(e@),
            };
            match spec_redis_tool_error(*connection, argv_view, safety, permissions, is_production) {
                Some((code, message)) => r matches Err(t) && t.code@ == code && t.message@ == message,
                None => r matches Ok(plan) && plan.database == spec_redis_database(requested, *scope, *connection)
                    && plan.skip_safety_check == (safety == RedisCommandSafety::Blocked && permissions.allow_dangerous),
            }
        }),
{
    if let Err(t) = redis_connection_gate(connection) {
        return Err(t);
    }
    let words = match argv {
        Ok(words) => words,
        Err(e) => return Err(ToolError::new("REDIS_COMMAND_BLOCKED", e.clone())),
    };
    proof {
        assert(crate::text::views(words@)[0] == words@[0]@);
    }
    if let Err(t) = redis_command_gate(safety, words[0].as_str(), permissions) {
        return Err(t);
    }
    let database = redis_database(requested, scope, connection);
    match redis_production_gate(safety, is_production, permissions) {
        Ok(skip_safety_check) => Ok(RedisPlan { database, skip_safety_check }),
        Err(t) => Err(t),
    }
}

/// SQL tools refuse Redis connections.
pub fn sql_connection_gate(connection: &ConnectionConfig) -> (r: Result<(), ToolError>)
    ensures
        r is Err <==> connection.db_type == DatabaseType::Redis,
        r matches Err(t) ==> t.code@ == "REDIS_COMMAND_REQUIRED"@ && t.message@
            == "Redis connections do not accept SQL through dbx_execute_query. Use dbx_execute_redis_command."@,
{
    if connection.db_type == DatabaseType::Redis {
        return Err(
            ToolError::new(
                "REDIS_COMMAND_REQUIRED",
                message(
                    "Redis connections do not accept SQL through dbx_execute_query. Use dbx_execute_redis_command.",
                ),
            ),
        );
    }
    Ok(())
}

/// The Redis tool refuses connections of other types.
pub fn redis_connection_gate(connection: &ConnectionConfig) -> (r: Result<(), ToolError>)
    ensures
        r is Err <==> connection.db_type != DatabaseType::Redis,
        r matches Err(t) ==> t.code@ == "INVALID_CONNECTION_TYPE"@ && t.message@ == "Connection \""@
            + connection.name@ + "\" is not Redis."@,
{
    if connection.db_type != DatabaseType::Redis {
        let mut m = message("Connection \"");
        push_str(&mut m, connection.name.as_str());
        push_str(&mut m, "\" is not Redis.");
        return Err(ToolError::new("INVALID_CONNECTION_TYPE", m));
    }
    Ok(())
}

/// How risky a SQL statement is.
#[derive(Debug, Clone, Copy, PartialEq, Eq, Structural)]
pub enum SqlRisk {
    ReadOnly,
    Write,
    Ddl,
    Transaction,
}

/// Whether the SQL check lets a statement through.
pub open spec fn sql_gate_allows(risk: SqlRisk, targets_production: bool, permissions: AgentSqlPermissions) -> bool {
    &&& !(risk != SqlRisk::ReadOnly && targets_production)
    &&& !(risk == SqlRisk::Transaction || (risk == SqlRisk::Ddl && !permissions.allow_dangerous))
    &&& !(risk == SqlRisk::Write && !permissions.allow_writes)
}

/// What the SQL check guarantees of every statement it lets through: a write only when
/// the session allows writes, DDL only when it allows dangerous statements, never a
/// transaction statement, and only reads against a production database.
pub proof fn lemma_sql_gate_safety(risk: SqlRisk, targets_production: bool, permissions: AgentSqlPermissions)
    requires
        sql_gate_allows(risk, targets_production, permissions),
    ensures
        risk == SqlRisk::Write ==> permissions.allow_writes,
        risk == SqlRisk::Ddl ==> permissions.allow_dangerous,
        risk != SqlRisk::Transaction,
        targets_production ==> risk == SqlRisk::ReadOnly,
{
}

/// The check before a statement is sent to the desktop app: no writes to production,
/// no transactions, DDL only with the dangerous flag, writes only when allowed.
/// `risk_label` is how the risk is named in the message.
pub fn sql_gate(risk: SqlRisk, risk_label: &str, targets_production: bool, permissions: AgentSqlPermissions) -> (r:
    Result<(), ToolError>)
    ensures
        r is Ok <==> sql_gate_allows(risk, targets_production, permissions),
        risk != SqlRisk::ReadOnly && targets_production ==> (r matches Err(t) && t.code@ == "PRODUCTION_WRITE_BLOCKED"@
            && t.message@ == "MCP cannot send writes against a production database to DBX."@),
        !(risk != SqlRisk::ReadOnly && targets_production) && (risk == SqlRisk::Transaction || (risk == SqlRisk::Ddl
            && !permissions.allow_dangerous)) ==> (r matches Err(t) && t.code@ == "SQL_BLOCKED"@ && t.message@
            == risk_label@ + " statement is blocked for this session."@),
        !(risk != SqlRisk::ReadOnly && targets_production) && !(risk == SqlRisk::Transaction || (risk == SqlRisk::Ddl
            && !permissions.allow_dangerous)) && risk == SqlRisk::Write && !permissions.allow_writes ==> (r matches Err(t)
            && t.code@ == "SQL_BLOCKED"@ && t.message@ == "MCP SQL execution is read-only for this session."@),
        !(risk != SqlRisk::ReadOnly && targets_production) && !(risk == SqlRisk::Transaction || (risk == SqlRisk::Ddl
            && !permissions.allow_dangerous)) && !(risk == SqlRisk::Write && !permissions.allow_writes) ==> r is Ok,
{
    if risk != SqlRisk::ReadOnly && targets_production {
        return Err(
            ToolError::new("PRODUCTION_WRITE_BLOCKED", message("MCP cannot send writes against a production database to DBX.")),
        );
    }
    if risk == SqlRisk::Transaction || (risk == SqlRisk::Ddl && !permissions.allow_dangerous) {
        let mut m = message(risk_label);
        push_str(&mut m, " statement is blocked for this session.");
        return Err(ToolError::new("SQL_BLOCKED", m));
    }
    if risk == SqlRisk::Write && !permissions.allow_writes {
        return Err(ToolError::new("SQL_BLOCKED", message("MCP SQL execution is read-only for this session.")));
    }
    Ok(())
}


/// A read-only session refuses every command that writes documents or indexes, or
/// drops a collection, with `SQL_BLOCKED`; a session that allows writes still
/// refuses them on a production database. Read commands always pass.
pub proof fn lemma_mongo_gate_on_writes_and_reads(
    c: crate::mongo::command::MongoCommandModel,
    p: AgentSqlPermissions,
    is_production: bool,
)
    ensures
        (c is Insert || c is Update || c is Delete || c is CreateIndex || c is DropIndexes || c is DropCollection)
            ==> {
            &&& !p.allow_writes ==> (spec_mongo_gate(c, p, is_production) matches Some((code, _)) && code
                == "SQL_BLOCKED"@)
            &&& is_production ==> spec_mongo_gate(c, p, is_production) is Some
        },
        (c is Version || c is Find || c is Count || c is Distinct || c is GetIndexes || c is CollectionStats)
            ==> spec_mongo_gate(c, p, is_production) is None,
{
    crate::mongo::command::lemma_writes_are_mutating(c);
}


/// Dropping a collection, or every index of one, is refused unless the session
/// allows dangerous commands.
pub proof fn lemma_mongo_drops_need_the_dangerous_flag(
    c: crate::mongo::command::MongoCommandModel,
    p: AgentSqlPermissions,
    is_production: bool,
)
    requires
        c is DropCollection || (c matches crate::mongo::command::MongoCommandModel::DropIndexes { indexes, single, .. }
            && indexes is None && !single),
        !p.allow_dangerous,
    ensures
        spec_mongo_gate(c, p, is_production) matches Some((code, _)) && code == "SQL_BLOCKED"@,
{
}

} // verus!

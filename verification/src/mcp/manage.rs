//! Adding and removing saved connections through MCP.
use vstd::prelude::*;
use crate::dialect::DatabaseType;
use crate::mcp::connections::{
    default_port, new_connection_config, non_empty_text, opt_view, parse_database_type, spec_default_port,
    spec_protocol_name, trimmed_non_empty, ConnectionConfig, ToolError,
};
use crate::mcp::selection::{ambiguous_connections, connections_named, first_with_id, named_ic, spec_ambiguous_message};
use crate::text::{eq_ic, lower, push_str, str_eq_ic, trim};

verus! {

/// A request to add a connection.
#[derive(Debug)]
pub struct AddConnectionRequest {
    pub name: String,
    pub db_type: String,
    pub host: String,
    pub port: Option<u16>,
    pub username: String,
    pub password: String,
    pub database: Option<String>,
    pub ssl: bool,
    pub driver_profile: Option<String>,
}

/// A request to remove a connection, by ID or else by name.
#[derive(Debug)]
pub struct RemoveConnectionRequest {
    pub connection_name: String,
    pub connection_id: Option<String>,
}

/// A tool's answer that is not a result: plain text, or an error.
#[derive(Debug)]
pub enum ToolReply {
    Text(String),
    Error(ToolError),
}

fn message(text: &str) -> (r: String)
    ensures
        r@ == text@,
{
    let mut out = String::new();
    push_str(&mut out, text);
    out
}

/// Whether a connection with this name exists, ignoring ASCII case.
pub open spec fn name_taken(s: Seq<ConnectionConfig>, name: Seq<char>) -> bool {
    exists|i: int| 0 <= i < s.len() && eq_ic((#[trigger] s[i]).name@, name)
}

/// The connection an add request creates, with the given ID; or the answer when it
/// creates none: the name is taken (text), the type is unknown (error), or no port is
/// given and the type has none by default (text).
pub fn plan_add_connection(existing: &Vec<ConnectionConfig>, request: AddConnectionRequest, id: String) -> (r: Result<
    ConnectionConfig,
    ToolReply,
>)
    ensures
        name_taken(existing@, request.name@) ==> (r matches Err(ToolReply::Text(t)) && t@ == "Connection \""@
            + request.name@ + "\" already exists."@),
        !name_taken(existing@, request.name@) && (forall|d: DatabaseType|
            spec_protocol_name(d) != lower(trim(request.db_type@))) ==> (r matches Err(ToolReply::Error(e))
            && e.code@ == "INVALID_CONNECTION_TYPE"@ && e.message@ == "Unsupported database type: "@
            + request.db_type@),
        !name_taken(existing@, request.name@) && (exists|d: DatabaseType|
            spec_protocol_name(d) == lower(trim(request.db_type@))) && request.port is None && spec_default_port(
            lower(trim(request.db_type@)),
        ) is None ==> (r matches Err(ToolReply::Text(t)) && t@ == "Port is required for this database type."@),
        r matches Ok(c) ==> !name_taken(existing@, request.name@) && spec_protocol_name(c.db_type) == lower(
            trim(request.db_type@),
        ) && c.port == match request.port {
            Some(p) => p,
            None => spec_default_port(lower(trim(request.db_type@)))->0,
        } && c.id == id && c.name == request.name && c.host == request.host && c.username == request.username
            && c.password == request.password && c.database == request.database && c.ssl == request.ssl
            && c.driver_profile == request.driver_profile,
        !name_taken(existing@, request.name@) && (exists|d: DatabaseType|
            spec_protocol_name(d) == lower(trim(request.db_type@))) && (request.port is Some || spec_default_port(
            lower(trim(request.db_type@)),
        ) is Some) ==> r is Ok,
{
    let mut i: usize = 0;
    while i < existing.len()
        invariant
            i <= existing.len(),
            forall|j: int| 0 <= j < i ==> !eq_ic((#[trigger] existing@[j]).name@, request.name@),
        decreases existing.len() - i,
    {
        if str_eq_ic(existing[i].name.as_str(), request.name.as_str()) {
            let mut t = message("Connection \"");
            push_str(&mut t, request.name.as_str());
            push_str(&mut t, "\" already exists.");
            return Err(ToolReply::Text(t));
        }
        i = i + 1;
    }
    let db_type = match parse_database_type(request.db_type.as_str()) {
        Ok(d) => d,
        Err(e) => {
            return Err(ToolReply::Error(ToolError::new("INVALID_CONNECTION_TYPE", e)));
        },
    };
    let port = match request.port {
        Some(p) => p,
        None => match default_port(request.db_type.as_str()) {
            Some(p) => p,
            None => {
                return Err(ToolReply::Text(message("Port is required for this database type.")));
            },
        },
    };
    Ok(
        new_connection_config(
            id,
            request.name,
            db_type,
            request.host,
            port,
            request.username,
            request.password,
            request.database,
            request.ssl,
            request.driver_profile,
        ),
    )
}

/// The answer after a connection was added.
pub fn added_message(config: &ConnectionConfig) -> (r: String)
    ensures
        r@ == "Connection \""@ + config.name@ + "\" added (id: "@ + config.id@ + ")."@,
{
    let mut t = message("Connection \"");
    push_str(&mut t, config.name.as_str());
    push_str(&mut t, "\" added (id: ");
    push_str(&mut t, config.id.as_str());
    push_str(&mut t, ").");
    t
}

/// The connection a remove request means: by ID when one is given, else the one
/// connection with the name (ignoring ASCII case); an error when there is none or the
/// name is ambiguous.
pub open spec fn spec_remove_target(s: Seq<ConnectionConfig>, name: Seq<char>, id: Option<String>) -> Result<
    ConnectionConfig,
    (Seq<char>, Seq<char>),
> {
    let not_found = ("CONNECTION_NOT_FOUND"@, "Connection \""@ + name + "\" not found."@);
    match non_empty_text(opt_view(id)) {
        Some(i) => {
            let k = first_with_id(s, i, 0);
            if k < s.len() {
                Ok(s[k])
            } else {
                Err(not_found)
            }
        },
        None => {
            let m = named_ic(s, name);
            if m.len() > 1 {
                Err(("AMBIGUOUS_CONNECTION"@, spec_ambiguous_message(name, m)))
            } else if m.len() == 1 {
                Ok(m[0])
            } else {
                Err(not_found)
            }
        },
    }
}

/// The connections that stay after removing the one with `id`.
pub open spec fn without_id(s: Seq<ConnectionConfig>, id: Seq<char>) -> Seq<ConnectionConfig> {
    s.filter(|c: ConnectionConfig| c.id@ != id)
}

/// The saved connections after a remove request, and the answer; or the error.
pub fn plan_remove_connection(connections: &Vec<ConnectionConfig>, request: &RemoveConnectionRequest) -> (r: Result<
    (Vec<ConnectionConfig>, String),
    ToolError,
>)
    ensures
        match spec_remove_target(connections@, request.connection_name@, request.connection_id) {
            Ok(target) => r matches Ok((rest, text)) && rest@ == without_id(connections@, target.id@) && text@
                == "Connection \""@ + target.name@ + "\" (id: "@ + target.id@ + ") removed."@,
            Err((code, msg)) => r matches Err(e) && e.code@ == code && e.message@ == msg,
        },
{
    let target = match trimmed_non_empty(&request.connection_id) {
        Some(id) => {
            let mut k: usize = 0;
            while k < connections.len() && !(connections[k].id == id)
                invariant
                    k <= connections.len(),
                    first_with_id(connections@, id@, 0) == first_with_id(connections@, id@, k as int),
                decreases connections.len() - k,
            {
                k = k + 1;
            }
            if k < connections.len() {
                Some(connections[k].duplicate())
            } else {
                None
            }
        },
        None => {
            let matching = connections_named(connections, request.connection_name.as_str());
            if matching.len() > 1 {
                return Err(
                    ToolError::new(
                        "AMBIGUOUS_CONNECTION",
                        ambiguous_connections(request.connection_name.as_str(), &matching),
                    ),
                );
            }
            if matching.len() == 1 {
                Some(matching[0].duplicate())
            } else {
                None
            }
        },
    };
    let target = match target {
        Some(t) => t,
        None => {
            let mut m = message("Connection \"");
            push_str(&mut m, request.connection_name.as_str());
            push_str(&mut m, "\" not found.");
            return Err(ToolError::new("CONNECTION_NOT_FOUND", m));
        },
    };
    let mut rest: Vec<ConnectionConfig> = Vec::new();
    let mut i: usize = 0;
    while i < connections.len()
        invariant
            i <= connections.len(),
            rest@ == without_id(connections@.subrange(0, i as int), target.id@),
        decreases connections.len() - i,
    {
        proof {
            let a = connections@.subrange(0, i + 1);
            assert(a.drop_last() =~= connections@.subrange(0, i as int));
            assert(a.last() == connections@[i as int]);
            reveal(Seq::filter);
        }
        if !(connections[i].id == target.id) {
            rest.push(connections[i].duplicate());
        }
        i = i + 1;
    }
    assert(connections@.subrange(0, connections@.len() as int) =~= connections@);
    let mut text = message("Connection \"");
    push_str(&mut text, target.name.as_str());
    push_str(&mut text, "\" (id: ");
    push_str(&mut text, target.id.as_str());
    push_str(&mut text, ") removed.");
    Ok((rest, text))
}

/// After a removal no saved connection has the removed connection's ID, and every
/// other connection stays.
pub proof fn lemma_removal_keeps_others(s: Seq<ConnectionConfig>, id: Seq<char>, c: ConnectionConfig)
    ensures
        !without_id(s, id).contains(c) || c.id@ != id,
        s.contains(c) && c.id@ != id ==> without_id(s, id).contains(c),
{
    s.filter_lemma(|x: ConnectionConfig| x.id@ != id);
    if s.contains(c) && c.id@ != id {
        let k = choose|k: int| 0 <= k < s.len() && s[k] == c;
        assert((|x: ConnectionConfig| x.id@ != id)(s[k]));
    }
}

} // verus!

//! Which saved connection an MCP request means, and what adding or removing one
//! decides.
use vstd::prelude::*;
use crate::mcp::connections::{
    debug_name, non_empty_text, opt_view, spec_debug_name, trimmed_non_empty, ConnectionConfig,
    ConnectionSelector, McpScope, ToolError,
};
use crate::text::{dec, eq_ic, join, push_dec, push_str, str_eq, str_eq_ic};

verus! {

/// Index of the first connection at or after `i` whose ID is `id`, or the length.
pub open spec fn first_with_id(s: Seq<ConnectionConfig>, id: Seq<char>, i: int) -> int
    decreases s.len() - i,
{
    if i < 0 || i >= s.len() {
        s.len() as int
    } else if s[i].id@ == id {
        i
    } else {
        first_with_id(s, id, i + 1)
    }
}

/// Index of the first connection at or after `i` that the scope names, or the length.
pub open spec fn first_in_scope(s: Seq<ConnectionConfig>, scope: McpScope, i: int) -> int
    decreases s.len() - i,
{
    if i < 0 || i >= s.len() {
        s.len() as int
    } else if scope.spec_matches(s[i]) {
        i
    } else {
        first_in_scope(s, scope, i + 1)
    }
}

/// The connections whose name is `name`, ignoring ASCII case, in order.
pub open spec fn named_ic(s: Seq<ConnectionConfig>, name: Seq<char>) -> Seq<ConnectionConfig> {
    s.filter(|c: ConnectionConfig| eq_ic(c.name@, name))
}

/// One line of the list of same-named connections.
pub open spec fn spec_connection_line(c: ConnectionConfig) -> Seq<char> {
    "- "@ + c.id@ + ": "@ + spec_debug_name(c.db_type) + " @ "@ + c.host@ + ":"@ + dec(c.port as nat)
}

pub open spec fn spec_ambiguous_message(name: Seq<char>, m: Seq<ConnectionConfig>) -> Seq<char> {
    "Multiple connections found with name \""@ + name + "\". Please specify connection_id:\n"@ + join(
        m.map_values(|c: ConnectionConfig| spec_connection_line(c)),
        "\n"@,
    )
}

/// What a tool does with a connection selector: the chosen connection, or an error
/// code and message.
pub open spec fn spec_resolve_connection(scope: McpScope, sel: ConnectionSelector, s: Seq<ConnectionConfig>) -> Result<
    ConnectionConfig,
    (Seq<char>, Seq<char>),
> {
    match non_empty_text(opt_view(sel.connection_id)) {
        Some(id) => {
            let i = first_with_id(s, id, 0);
            if i >= s.len() {
                Err(("CONNECTION_NOT_FOUND"@, "Connection with id \""@ + id + "\" not found."@))
            } else if scope.spec_enabled() && !scope.spec_matches(s[i]) {
                Err(
                    (
                        "CONNECTION_OUT_OF_SCOPE"@,
                        "Connection \""@ + id + "\" is outside this DBX AI session scope."@,
                    ),
                )
            } else {
                Ok(s[i])
            }
        },
        None => if scope.spec_enabled() {
            let i = first_in_scope(s, scope, 0);
            if i >= s.len() {
                Err(("CONNECTION_NOT_FOUND"@, "Scoped DBX connection was not found."@))
            } else {
                match non_empty_text(opt_view(sel.connection_name)) {
                    Some(name) => if name != s[i].name@ && name != s[i].id@ {
                        Err(
                            (
                                "CONNECTION_OUT_OF_SCOPE"@,
                                "Connection \""@ + name + "\" is outside this DBX AI session scope."@,
                            ),
                        )
                    } else {
                        Ok(s[i])
                    },
                    None => Ok(s[i]),
                }
            }
        } else {
            match non_empty_text(opt_view(sel.connection_name)) {
                None => Err(
                    ("CONNECTION_NOT_FOUND"@, "Either connection_id or connection_name is required."@),
                ),
                Some(name) => {
                    let m = named_ic(s, name);
                    if m.len() == 0 {
                        Err(("CONNECTION_NOT_FOUND"@, "Connection \""@ + name + "\" not found."@))
                    } else if m.len() == 1 {
                        Ok(m[0])
                    } else {
                        Err(("AMBIGUOUS_CONNECTION"@, spec_ambiguous_message(name, m)))
                    }
                },
            }
        },
    }
}

/// A tool's result with the error taken by its code and message.
pub open spec fn outcome(r: Result<ConnectionConfig, ToolError>) -> Result<ConnectionConfig, (Seq<char>, Seq<char>)> {
    match r {
        Ok(c) => Ok(c),
        Err(e) => Err((e.code@, e.message@)),
    }
}

fn index_with_id(s: &Vec<ConnectionConfig>, id: &String) -> (r: usize)
    ensures
        r == first_with_id(s@, id@, 0),
        r <= s.len(),
{
    let mut i: usize = 0;
    while i < s.len() && !(s[i].id == *id)
        invariant
            i <= s.len(),
            first_with_id(s@, id@, 0) == first_with_id(s@, id@, i as int),
        decreases s.len() - i,
    {
        i = i + 1;
    }
    i
}

fn index_in_scope(s: &Vec<ConnectionConfig>, scope: &McpScope) -> (r: usize)
    ensures
        r == first_in_scope(s@, *scope, 0),
        r <= s.len(),
{
    let mut i: usize = 0;
    while i < s.len() && !scope.matches(&s[i])
        invariant
            i <= s.len(),
            first_in_scope(s@, *scope, 0) == first_in_scope(s@, *scope, i as int),
        decreases s.len() - i,
    {
        i = i + 1;
    }
    i
}

/// Copies of the connections named `name`, ignoring ASCII case, in order.
pub fn connections_named(s: &Vec<ConnectionConfig>, name: &str) -> (r: Vec<ConnectionConfig>)
    ensures
        r@ == named_ic(s@, name@),
{
    let mut out: Vec<ConnectionConfig> = Vec::new();
    let mut i: usize = 0;
    while i < s.len()
        invariant
            i <= s.len(),
            out@ == named_ic(s@.subrange(0, i as int), name@),
        decreases s.len() - i,
    {
        proof {
            let t = s@.subrange(0, i + 1);
            assert(t.drop_last() =~= s@.subrange(0, i as int));
            assert(t.last() == s@[i as int]);
            reveal(Seq::filter);
        }
        if str_eq_ic(s[i].name.as_str(), name) {
            out.push(s[i].duplicate());
        }
        i = i + 1;
    }
    assert(s@.subrange(0, s@.len() as int) =~= s@);
    out
}

/// The message for a name that several connections share, listing each one's ID,
/// type, host and port.
pub fn ambiguous_connections(name: &str, connections: &Vec<ConnectionConfig>) -> (r: String)
    ensures
        r@ == spec_ambiguous_message(name@, connections@),
{
    let mut lines = String::new();
    let mut i: usize = 0;
    while i < connections.len()
        invariant
            i <= connections.len(),
            lines@ == join(
                connections@.subrange(0, i as int).map_values(|c: ConnectionConfig| spec_connection_line(c)),
                "\n"@,
            ),
        decreases connections.len() - i,
    {
        let ghost before = lines@;
        let c = &connections[i];
        if i > 0 {
            push_str(&mut lines, "\n");
        }
        push_str(&mut lines, "- ");
        push_str(&mut lines, c.id.as_str());
        push_str(&mut lines, ": ");
        push_str(&mut lines, debug_name(c.db_type));
        push_str(&mut lines, " @ ");
        push_str(&mut lines, c.host.as_str());
        push_str(&mut lines, ":");
        push_dec(&mut lines, c.port as u64);
        proof {
            let a = connections@.subrange(0, i + 1).map_values(|c: ConnectionConfig| spec_connection_line(c));
            let b = connections@.subrange(0, i as int).map_values(|c: ConnectionConfig| spec_connection_line(c));
            assert(a.drop_last() =~= b);
            assert(a.last() == spec_connection_line(connections@[i as int]));
            if i == 0 {
                assert(b.len() == 0);
                assert(lines@ =~= spec_connection_line(connections@[0]));
            } else {
                assert(lines@ =~= before + "\n"@ + spec_connection_line(connections@[i as int]));
            }
        }
        i = i + 1;
    }
    assert(connections@.subrange(0, connections@.len() as int) =~= connections@);
    let mut out = String::new();
    push_str(&mut out, "Multiple connections found with name \"");
    push_str(&mut out, name);
    push_str(&mut out, "\". Please specify connection_id:\n");
    push_str(&mut out, lines.as_str());
    out
}

fn quoted_message(before: &str, value: &str, after: &str) -> (r: String)
    ensures
        r@ == before@ + value@ + after@,
{
    let mut out = String::new();
    push_str(&mut out, before);
    push_str(&mut out, value);
    push_str(&mut out, after);
    out
}

fn fixed_message(text: &str) -> (r: String)
    ensures
        r@ == text@,
{
    let mut out = String::new();
    push_str(&mut out, text);
    out
}

proof fn lemma_first_with_id(s: Seq<ConnectionConfig>, id: Seq<char>, i: int)
    requires
        0 <= i,
        first_with_id(s, id, i) < s.len(),
    ensures
        s[first_with_id(s, id, i)].id@ == id,
        first_with_id(s, id, i) >= i,
    decreases s.len() - i,
{
    if i < s.len() && s[i].id@ != id {
        lemma_first_with_id(s, id, i + 1);
    }
}

proof fn lemma_first_in_scope(s: Seq<ConnectionConfig>, scope: McpScope, i: int)
    requires
        0 <= i,
        first_in_scope(s, scope, i) < s.len(),
    ensures
        scope.spec_matches(s[first_in_scope(s, scope, i)]),
        first_in_scope(s, scope, i) >= i,
    decreases s.len() - i,
{
    if i < s.len() && !scope.spec_matches(s[i]) {
        lemma_first_in_scope(s, scope, i + 1);
    }
}

/// What resolving a connection guarantees: the connection is one of the saved ones; a
/// session with a scope only ever gets a connection its scope names; and a request by
/// ID gets the connection with that ID.
pub proof fn lemma_resolution_stays_in_scope(scope: McpScope, sel: ConnectionSelector, s: Seq<ConnectionConfig>)
    requires
        spec_resolve_connection(scope, sel, s) is Ok,
    ensures
        s.contains(spec_resolve_connection(scope, sel, s)->Ok_0),
        scope.spec_enabled() ==> scope.spec_matches(spec_resolve_connection(scope, sel, s)->Ok_0),
        non_empty_text(opt_view(sel.connection_id)) is Some ==> spec_resolve_connection(scope, sel, s)->Ok_0.id@
            == non_empty_text(opt_view(sel.connection_id))->0,
{
    let c = spec_resolve_connection(scope, sel, s)->Ok_0;
    match non_empty_text(opt_view(sel.connection_id)) {
        Some(id) => {
            let i = first_with_id(s, id, 0);
            lemma_first_with_id(s, id, 0);
            assert(s[i] == c);
        },
        None => if scope.spec_enabled() {
            let i = first_in_scope(s, scope, 0);
            lemma_first_in_scope(s, scope, 0);
            assert(s[i] == c);
        } else {
            let name = non_empty_text(opt_view(sel.connection_name))->0;
            let m = named_ic(s, name);
            assert(m.contains(m[0]));
            s.lemma_filter_contains_rev(|c: ConnectionConfig| eq_ic(c.name@, name), m[0]);
            assert(c == m[0]);
        },
    }
}

/// Picks the connection a request means: by ID if one is given (and within the
/// scope, if the session has one); else the scope's connection (checking a given
/// name against it); else the one connection with the given name, ignoring ASCII case.
pub fn resolve_connection(scope: &McpScope, selector: &ConnectionSelector, connections: &Vec<ConnectionConfig>) -> (r:
    Result<ConnectionConfig, ToolError>)
    ensures
        outcome(r) == spec_resolve_connection(*scope, *selector, connections@),
{
    if let Some(id) = trimmed_non_empty(&selector.connection_id) {
        let i = index_with_id(connections, &id);
        if i >= connections.len() {
            return Err(
                ToolError::new(
                    "CONNECTION_NOT_FOUND",
                    quoted_message("Connection with id \"", id.as_str(), "\" not found."),
                ),
            );
        }
        if scope.enabled() && !scope.matches(&connections[i]) {
            return Err(
                ToolError::new(
                    "CONNECTION_OUT_OF_SCOPE",
                    quoted_message("Connection \"", id.as_str(), "\" is outside this DBX AI session scope."),
                ),
            );
        }
        return Ok(connections[i].duplicate());
    }
    if scope.enabled() {
        let i = index_in_scope(connections, scope);
        if i >= connections.len() {
            return Err(ToolError::new("CONNECTION_NOT_FOUND", fixed_message("Scoped DBX connection was not found.")));
        }
        let c = &connections[i];
        if let Some(name) = trimmed_non_empty(&selector.connection_name) {
            if !(name == c.name) && !(name == c.id) {
                return Err(
                    ToolError::new(
                        "CONNECTION_OUT_OF_SCOPE",
                        quoted_message("Connection \"", name.as_str(), "\" is outside this DBX AI session scope."),
                    ),
                );
            }
        }
        return Ok(c.duplicate());
    }
    let name = match trimmed_non_empty(&selector.connection_name) {
        Some(n) => n,
        None => {
            return Err(
                ToolError::new(
                    "CONNECTION_NOT_FOUND",
                    fixed_message("Either connection_id or connection_name is required."),
                ),
            );
        },
    };
    let matching = connections_named(connections, name.as_str());
    if matching.len() == 0 {
        return Err(
            ToolError::new("CONNECTION_NOT_FOUND", quoted_message("Connection \"", name.as_str(), "\" not found.")),
        );
    }
    if matching.len() == 1 {
        return Ok(matching[0].duplicate());
    }
    Err(ToolError::new("AMBIGUOUS_CONNECTION", ambiguous_connections(name.as_str(), &matching)))
}

} // verus!

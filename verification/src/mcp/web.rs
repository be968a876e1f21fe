//! The DBX Web backend's decisions: its base URL, when to authenticate, and when to
//! retry a request.
use vstd::prelude::*;
use crate::mcp::results::{extract_session_cookie, spec_session_cookie};
use crate::text::{chars_of, push_str, string_of, trim, trim_bounds};

verus! {

/// `s` without its trailing `/` characters.
pub open spec fn strip_slashes(s: Seq<char>) -> Seq<char>
    decreases s.len(),
{
    if s.len() > 0 && s.last() == '/' {
        strip_slashes(s.drop_last())
    } else {
        s
    }
}

fn message(text: &str) -> (r: String)
    ensures
        r@ == text@,
{
    let mut out = String::new();
    push_str(&mut out, text);
    out
}

/// The base URL of DBX Web: trimmed, without trailing slashes, and not empty.
pub fn normalize_base_url(base_url: &str) -> (r: Result<String, String>)
    ensures
        strip_slashes(trim(base_url@)).len() > 0 ==> r == Ok::<String, String>(r->Ok_0) && r->Ok_0@ == strip_slashes(
            trim(base_url@),
        ),
        strip_slashes(trim(base_url@)).len() == 0 ==> (r matches Err(e) && e@ == "DBX_WEB_URL cannot be empty."@),
{
    let v = chars_of(base_url);
    let (a, b) = trim_bounds(&v);
    let mut t: Vec<char> = Vec::new();
    let mut k = a;
    while k < b
        invariant
            a <= k <= b <= v.len(),
            t@ == v@.subrange(a as int, k as int),
        decreases b - k,
    {
        t.push(v[k]);
        assert(t@ =~= v@.subrange(a as int, k + 1));
        k = k + 1;
    }
    let mut n = t.len();
    assert(t@.subrange(0, n as int) =~= t@);
    while n > 0 && t[n - 1] == '/'
        invariant
            n <= t.len(),
            strip_slashes(t@) == strip_slashes(t@.subrange(0, n as int)),
        decreases n,
    {
        assert(t@.subrange(0, n as int).drop_last() =~= t@.subrange(0, n - 1));
        n = n - 1;
    }
    if n == 0 {
        return Err(message("DBX_WEB_URL cannot be empty."));
    }
    Ok(string_of(&t.as_slice()[0..n]))
}

/// Whether a request must first ask DBX Web about authentication: no session yet
/// and not checked yet.
pub fn needs_auth_check(has_session: bool, checked: bool) -> (r: bool)
    ensures
        r == (!has_session && !checked),
{
    !has_session && !checked
}

/// DBX Web's answer about authentication.
#[derive(Debug, Clone, Copy, PartialEq, Eq, Structural)]
pub struct AuthCheck {
    pub authenticated: bool,
    pub required: bool,
    pub setup_required: bool,
}

/// What to do after the authentication check.
#[derive(Debug)]
pub enum AuthStep {
    /// Nothing more is needed: remember that the check was made.
    Checked,
    /// Log in with the password.
    Login,
    /// Stop with this error.
    Failed(String),
}

/// Decides what follows the authentication check: a password still to be set up is
/// an error; no authentication needed, or already authenticated, is done; otherwise
/// log in, which needs a password.
pub fn auth_after_check(check: AuthCheck, password_empty: bool) -> (r: AuthStep)
    ensures
        check.setup_required ==> (r matches AuthStep::Failed(e) && e@
            == "DBX Web password setup is required before MCP Web mode can access APIs."@),
        !check.setup_required && (!check.required || check.authenticated) ==> r is Checked,
        !check.setup_required && check.required && !check.authenticated && password_empty ==> (r matches AuthStep::Failed(e)
            && e@ == "DBX Web authentication is required. Set DBX_WEB_PASSWORD for MCP Web mode."@),
        !check.setup_required && check.required && !check.authenticated && !password_empty ==> r is Login,
{
    if check.setup_required {
        return AuthStep::Failed(message("DBX Web password setup is required before MCP Web mode can access APIs."));
    }
    if !check.required || check.authenticated {
        return AuthStep::Checked;
    }
    if password_empty {
        return AuthStep::Failed(message("DBX Web authentication is required. Set DBX_WEB_PASSWORD for MCP Web mode."));
    }
    AuthStep::Login
}

/// The session cookie a successful login sets, read from its `Set-Cookie` header.
pub fn session_from_login(set_cookie: Option<&str>) -> (r: Result<String, String>)
    ensures
        match set_cookie {
            Some(h) => match spec_session_cookie(h@) {
                Some(c) => r matches Ok(v) && v@ == c,
                None => r matches Err(e) && e@ == "Authentication failed: DBX Web did not return a session cookie."@,
            },
            None => r matches Err(e) && e@ == "Authentication failed: DBX Web did not return a session cookie."@,
        },
{
    let found = match set_cookie {
        Some(h) => extract_session_cookie(h),
        None => None,
    };
    match found {
        Some(c) => Ok(c),
        None => Err(message("Authentication failed: DBX Web did not return a session cookie.")),
    }
}

/// Whether a request refused as unauthorized is tried once more after a new login:
/// only the first time, and only with a password.
pub fn retry_after_unauthorized(unauthorized: bool, retried: bool, password_empty: bool) -> (r: bool)
    ensures
        r == (unauthorized && !retried && !password_empty),
{
    unauthorized && !retried && !password_empty
}

} // verus!

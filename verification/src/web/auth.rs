//! Authentication and authorization rules.

use vstd::prelude::*;

use crate::config::settings::NetdiscoConfig;
use crate::util::text::str_eq;

verus! {

/// What a request's session holds: the logged-in user's name (absent, or
/// unreadable, when nobody is logged in) and the admin flag stored at login.
#[derive(Debug, Clone)]
pub struct SessionInfo {
    pub username: Option<String>,
    pub admin: Option<bool>,
}

/// Why a request is refused.
#[derive(Debug, Clone, Copy, PartialEq, Eq, Structural)]
pub enum AuthRejection {
    /// 401: nobody is logged in.
    Unauthorized,
    /// 403: the user is not an admin.
    Forbidden,
}

impl AuthRejection {
    /// The HTTP status code of the refusal.
    pub fn status_code(&self) -> (r: u16)
        ensures
            r == (match *self {
                AuthRejection::Unauthorized => 401u16,
                AuthRejection::Forbidden => 403u16,
            }),
    {
        match self {
            AuthRejection::Unauthorized => 401,
            AuthRejection::Forbidden => 403,
        }
    }

    /// The error text of the refusal's JSON body.
    pub fn message(&self) -> (r: &'static str)
        ensures
            r@ == (match *self {
                AuthRejection::Unauthorized => "Authentication required"@,
                AuthRejection::Forbidden => "Admin access required"@,
            }),
    {
        match self {
            AuthRejection::Unauthorized => "Authentication required",
            AuthRejection::Forbidden => "Admin access required",
        }
    }
}

/// Whether the session belongs to a logged-in user.
pub open spec fn spec_authenticated(session: SessionInfo) -> bool {
    session.username is Some
}

/// Whether the session's user is an admin (an unset flag is `false`).
pub open spec fn spec_session_admin(session: SessionInfo) -> bool {
    session.admin == Some(true)
}

/// The refusal for a request that needs a logged-in user, if any: none when
/// authentication is switched off.
pub open spec fn spec_require_auth(session: SessionInfo, no_auth: bool) -> Option<AuthRejection> {
    if no_auth {
        None
    } else if !spec_authenticated(session) {
        Some(AuthRejection::Unauthorized)
    } else {
        None
    }
}

/// The refusal for a request that needs an admin, if any: first the
/// authentication check, then the admin flag (unless authentication is off).
pub open spec fn spec_require_admin(session: SessionInfo, no_auth: bool) -> Option<AuthRejection> {
    if spec_require_auth(session, no_auth) is Some {
        spec_require_auth(session, no_auth)
    } else if !no_auth && !spec_session_admin(session) {
        Some(AuthRejection::Forbidden)
    } else {
        None
    }
}

/// Check if the session is authenticated.
pub fn session_is_authenticated(session: &SessionInfo) -> (r: bool)
    ensures
        r == spec_authenticated(*session),
{
    session.username.is_some()
}

/// Check if the session user is an admin.
pub fn session_is_admin(session: &SessionInfo) -> (r: bool)
    ensures
        r == spec_session_admin(*session),
{
    match session.admin {
        Some(b) => b,
        None => false,
    }
}

/// The current username from the session.
pub fn current_user(session: &SessionInfo) -> (r: Option<String>)
    ensures
        match session.username {
            Some(u) => r matches Some(v) && v@ == u@,
            None => r is None,
        },
{
    match &session.username {
        Some(u) => Some(u.clone()),
        None => None,
    }
}

/// Refuse with 401 when nobody is logged in, unless authentication is
/// switched off in the configuration.
pub fn require_auth(session: &SessionInfo, config: &NetdiscoConfig) -> (r: Option<AuthRejection>)
    ensures
        r == spec_require_auth(*session, config.no_auth),
{
    if config.no_auth {
        return None;
    }
    if !session_is_authenticated(session) {
        Some(AuthRejection::Unauthorized)
    } else {
        None
    }
}

/// Refuse with 401 when nobody is logged in and with 403 when the user is
/// not an admin, unless authentication is switched off.
pub fn require_admin(session: &SessionInfo, config: &NetdiscoConfig) -> (r: Option<AuthRejection>)
    ensures
        r == spec_require_admin(*session, config.no_auth),
{
    if let Some(resp) = require_auth(session, config) {
        return Some(resp);
    }
    if !config.no_auth && !session_is_admin(session) {
        Some(AuthRejection::Forbidden)
    } else {
        None
    }
}

/// Admin access implies authenticated access: a request that passes the
/// admin check passes the authentication check.
pub proof fn lemma_admin_access_implies_auth(session: SessionInfo, no_auth: bool)
    ensures
        spec_require_admin(session, no_auth) is None ==> spec_require_auth(session, no_auth) is None,
{
}

/// With authentication switched off, no request is refused.
pub proof fn lemma_no_auth_allows_everything(session: SessionInfo)
    ensures
        spec_require_auth(session, true) is None,
        spec_require_admin(session, true) is None,
{
}

/// A logged-in admin passes both checks.
pub proof fn lemma_admin_session_allowed(session: SessionInfo, no_auth: bool)
    requires
        spec_authenticated(session),
        spec_session_admin(session),
    ensures
        spec_require_auth(session, no_auth) is None,
        spec_require_admin(session, no_auth) is None,
{
}

/// The job actions that may be queued.
pub open spec fn spec_valid_job_actions() -> Seq<Seq<char>> {
    seq![
        "discover"@,
        "discoverall"@,
        "macsuck"@,
        "macwalk"@,
        "arpnip"@,
        "arpwalk"@,
        "nbtstat"@,
        "nbtwalk"@,
        "expire"@,
        "delete"@,
        "portcontrol"@,
        "portname"@,
        "portvlan"@,
        "power"@,
        "graph"@,
        "show"@,
        "stats"@,
    ]
}

/// Allowed job action types for validation.
fn valid_job_actions() -> (r: Vec<&'static str>)
    ensures
        r@.map_values(|a: &str| a@) == spec_valid_job_actions(),
{
    let v = vec![
        "discover",
        "discoverall",
        "macsuck",
        "macwalk",
        "arpnip",
        "arpwalk",
        "nbtstat",
        "nbtwalk",
        "expire",
        "delete",
        "portcontrol",
        "portname",
        "portvlan",
        "power",
        "graph",
        "show",
        "stats",
    ];
    proof {
        assert(v@.map_values(|a: &str| a@) =~= spec_valid_job_actions());
    }
    v
}

/// Validate that a job action is in the allowed list.
pub fn is_valid_job_action(action: &str) -> (r: bool)
    ensures
        r == spec_valid_job_actions().contains(action@),
{
    let actions = valid_job_actions();
    let ghost views = actions@.map_values(|a: &str| a@);
    let mut i: usize = 0;
    while i < actions.len()
        invariant
            i <= actions@.len(),
            views == actions@.map_values(|a: &str| a@),
            views == spec_valid_job_actions(),
            forall|j: int| 0 <= j < i ==> views[j] != action@,
        decreases actions.len() - i,
    {
        if str_eq(actions[i], action) {
            proof {
                assert(views[i as int] == action@);
            }
            return true;
        }
        i += 1;
    }
    proof {
        assert forall|j: int| 0 <= j < views.len() implies views[j] != action@ by {}
    }
    false
}

} // verus!

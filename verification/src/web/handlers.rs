//! Request handling rules: search classification, neighbour listing and
//! the login outcome.

use vstd::prelude::*;

use crate::models::device_port::DevicePort;
use crate::models::user::{User, flag_set};
use crate::util::net::{IpNet, ipnetwork_parse, parse_ip_network};
use crate::util::text::{chars_of, clone_string};

verus! {

/// Query string of the device search.
#[derive(Debug, Clone)]
pub struct DeviceQuery {
    pub q: Option<String>,
}

/// Query string of the node search.
#[derive(Debug, Clone)]
pub struct NodeSearch {
    pub q: Option<String>,
}

/// Form fields of a login.
#[derive(Debug, Clone)]
pub struct LoginForm {
    pub username: String,
    pub password: String,
}

/// What a node search looks for: a MAC search to try first, and an IP
/// search to fall back on.
#[derive(Debug, Clone)]
pub struct NodeQuery {
    /// The text to search MAC addresses for, when it reads as a MAC.
    pub mac: Option<String>,
    /// The address to search for, when the text parses as one.
    pub ip: Option<IpNet>,
}

/// Whether a search text reads as a MAC address: it holds ':', '-' or '.'.
pub open spec fn looks_like_mac(q: Seq<char>) -> bool {
    q.contains(':') || q.contains('-') || q.contains('.')
}

/// The MAC search of a node search text: the text itself when it holds a
/// MAC separator.
pub open spec fn spec_mac_search(q: Option<Seq<char>>) -> Option<Seq<char>> {
    match q {
        Some(t) => if looks_like_mac(t) {
            Some(t)
        } else {
            None
        },
        None => None,
    }
}

/// The IP search of a node search text: the address or network it parses
/// as, if any.
pub open spec fn spec_ip_search(q: Option<Seq<char>>) -> Option<IpNet> {
    match q {
        Some(t) => ipnetwork_parse(t),
        None => None,
    }
}

/// Whether `q` holds one of the MAC separators.
fn has_mac_separator(q: &str) -> (r: bool)
    ensures
        r == looks_like_mac(q@),
{
    let cs = chars_of(q);
    let mut i: usize = 0;
    while i < cs.len()
        invariant
            cs@ == q@,
            i <= cs@.len(),
            forall|j: int| 0 <= j < i ==> cs@[j] != ':' && cs@[j] != '-' && cs@[j] != '.',
        decreases cs.len() - i,
    {
        let c = cs[i];
        if c == ':' || c == '-' || c == '.' {
            proof {
                assert(q@[i as int] == c);
            }
            return true;
        }
        i += 1;
    }
    proof {
        assert(!q@.contains(':'));
        assert(!q@.contains('-'));
        assert(!q@.contains('.'));
    }
    false
}

/// The text of an optional query string.
pub open spec fn query_text(q: Option<String>) -> Option<Seq<char>> {
    match q {
        Some(s) => Some(s@),
        None => None,
    }
}

/// Classify a node search: a MAC search first when the text reads as a
/// MAC, then an IP search when it parses as an address.
pub fn classify_node_search(search: &NodeSearch) -> (r: NodeQuery)
    ensures
        match spec_mac_search(query_text(search.q)) {
            Some(t) => r.mac matches Some(m) && m@ == t,
            None => r.mac is None,
        },
        r.ip == spec_ip_search(query_text(search.q)),
{
    match &search.q {
        Some(q) => {
            let mac = if has_mac_separator(q.as_str()) {
                Some(clone_string(q))
            } else {
                None
            };
            NodeQuery { mac, ip: parse_ip_network(q.as_str()) }
        },
        None => NodeQuery { mac: None, ip: None },
    }
}

/// The IP search to run after the MAC search: none when a MAC search ran
/// and found nodes, otherwise the query's IP search (if any).
pub fn ip_search_after_mac(query: &NodeQuery, mac_found: bool) -> (r: Option<IpNet>)
    ensures
        r == (if query.mac is Some && mac_found {
            None
        } else {
            query.ip
        }),
{
    if query.mac.is_some() && mac_found {
        None
    } else {
        query.ip
    }
}

/// Whether a port has a neighbour: its remote IP is known.
pub open spec fn has_neighbor(p: DevicePort) -> bool {
    p.remote_ip is Some
}

/// The ports of a device that have a neighbour, in order.
pub fn neighbor_ports(ports: Vec<DevicePort>) -> (r: Vec<DevicePort>)
    ensures
        r@ == ports@.filter(|p: DevicePort| has_neighbor(p)),
{
    let ghost all = ports@;
    let mut rest = ports;
    let mut kept: Vec<DevicePort> = Vec::new();
    let ghost mut k: int = 0;
    while rest.len() > 0
        invariant
            0 <= k <= all.len(),
            rest@ == all.subrange(k, all.len() as int),
            kept@ == all.subrange(0, k).filter(|p: DevicePort| has_neighbor(p)),
        decreases rest.len(),
    {
        let p = rest.remove(0);
        proof {
            reveal(Seq::filter);
            assert(all.subrange(0, k + 1).drop_last() =~= all.subrange(0, k));
            assert(all.subrange(0, k + 1).last() == p);
        }
        if p.remote_ip.is_some() {
            kept.push(p);
        }
        proof {
            k = k + 1;
            assert(rest@ =~= all.subrange(k, all.len() as int));
        }
    }
    proof {
        assert(all.subrange(0, k) =~= all);
    }
    kept
}

/// `bcrypt::BcryptError`, the error of a hash check.
#[verifier::external_type_specification]
#[verifier::external_body]
pub struct ExBcryptError(bcrypt::BcryptError);

/// What `bcrypt::verify` answers for a password and a stored hash: whether
/// the password hashes to it, or `None` for the error it gives on a
/// malformed hash.
pub uninterp spec fn bcrypt_verify_outcome(password: Seq<char>, hash: Seq<char>) -> Option<bool>;

/// Checks a password against a stored hash with `bcrypt::verify` (on the
/// password's UTF-8 bytes). The contract names the answer; the crate's
/// source computes it from the two arguments alone and never panics.
#[verifier::external_body]
fn bcrypt_verify(password: &str, hash: &str) -> (r: Result<bool, bcrypt::BcryptError>)
    ensures
        match r {
            Ok(b) => bcrypt_verify_outcome(password@, hash@) == Some(b),
            Err(_) => bcrypt_verify_outcome(password@, hash@) is None,
        },
{
    bcrypt::verify(password, hash)
}

/// Whether `password` matches the stored bcrypt hash; a malformed hash
/// matches nothing.
pub fn password_matches(password: &str, stored_hash: &str) -> (r: bool)
    ensures
        r == (bcrypt_verify_outcome(password@, stored_hash@) == Some(true)),
{
    match bcrypt_verify(password, stored_hash) {
        Ok(true) => true,
        _ => false,
    }
}

/// Why a login is refused.
#[derive(Debug, Clone, Copy, PartialEq, Eq, Structural)]
pub enum LoginRejection {
    /// Unknown user or wrong password.
    InvalidCredentials,
    /// The user has no password to check against.
    NoPasswordSet,
}

impl LoginRejection {
    /// The error text of the 401 answer.
    pub fn message(&self) -> (r: &'static str)
        ensures
            r@ == (match *self {
                LoginRejection::InvalidCredentials => "Invalid credentials"@,
                LoginRejection::NoPasswordSet => "No password set"@,
            }),
    {
        match self {
            LoginRejection::InvalidCredentials => "Invalid credentials",
            LoginRejection::NoPasswordSet => "No password set",
        }
    }
}

/// The result of a login: the session to open (user name and admin flag)
/// and a redirect to "/", or a 401 refusal.
#[derive(Debug, Clone)]
pub enum LoginOutcome {
    LoggedIn { username: String, admin: bool },
    Rejected(LoginRejection),
}

/// The outcome of a login for the user found under the given name (`None`
/// when there is none or the lookup failed) and whether the password
/// matched that user's stored hash (not consulted when there is none).
pub open spec fn login_outcome_holds(r: LoginOutcome, user: Option<User>, matched: bool) -> bool {
    match user {
        None => r == LoginOutcome::Rejected(LoginRejection::InvalidCredentials),
        Some(u) => match u.password {
            None => r == LoginOutcome::Rejected(LoginRejection::NoPasswordSet),
            Some(_) => if matched {
                r matches LoginOutcome::LoggedIn { username, admin } && username@ == u.username@
                    && admin == flag_set(u.admin)
            } else {
                r == LoginOutcome::Rejected(LoginRejection::InvalidCredentials)
            },
        },
    }
}

/// Decide a login once the password check is known.
pub fn login_outcome(user: Option<User>, matched: bool) -> (r: LoginOutcome)
    ensures
        login_outcome_holds(r, user, matched),
{
    match user {
        Some(u) => match &u.password {
            Some(_) => if matched {
                let admin = u.is_admin();
                LoginOutcome::LoggedIn { username: u.username, admin }
            } else {
                LoginOutcome::Rejected(LoginRejection::InvalidCredentials)
            },
            None => LoginOutcome::Rejected(LoginRejection::NoPasswordSet),
        },
        None => LoginOutcome::Rejected(LoginRejection::InvalidCredentials),
    }
}

/// Log in with a form, given the user found under its name: the password is
/// checked with bcrypt against the user's stored hash.
pub fn login_submit(user: Option<User>, form: &LoginForm) -> (r: LoginOutcome)
    ensures
        login_outcome_holds(
            r,
            user,
            match user {
                Some(u) => match u.password {
                    Some(h) => bcrypt_verify_outcome(form.password@, h@) == Some(true),
                    None => false,
                },
                None => false,
            },
        ),
{
    let matched = match &user {
        Some(u) => match &u.password {
            Some(h) => password_matches(form.password.as_str(), h.as_str()),
            None => false,
        },
        None => false,
    };
    login_outcome(user, matched)
}

} // verus!

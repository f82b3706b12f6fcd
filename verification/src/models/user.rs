//! User model - authentication and authorization.

use chrono::NaiveDateTime;
use vstd::prelude::*;

verus! {

/// A web user account.
#[derive(Debug)]
pub struct User {
    pub username: String,
    pub password: Option<String>,
    pub creation: Option<NaiveDateTime>,
    pub last_on: Option<NaiveDateTime>,
    pub port_control: Option<bool>,
    pub ldap: Option<bool>,
    pub admin: Option<bool>,
    pub fullname: Option<String>,
    pub note: Option<String>,
}

/// An unset flag counts as `false`.
pub open spec fn flag_set(flag: Option<bool>) -> bool {
    flag == Some(true)
}

impl User {
    /// Check if this user has admin privileges.
    pub fn is_admin(&self) -> (r: bool)
        ensures
            r == flag_set(self.admin),
    {
        match self.admin {
            Some(b) => b,
            None => false,
        }
    }

    /// Check if user has port control privileges.
    pub fn has_port_control(&self) -> (r: bool)
        ensures
            r == flag_set(self.port_control),
    {
        match self.port_control {
            Some(b) => b,
            None => false,
        }
    }
}

} // verus!

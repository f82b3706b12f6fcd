//! Enterprise (SNMP enterprise OID) model.

use vstd::prelude::*;

verus! {

/// An SNMP enterprise number and its registered name.
#[derive(Debug, Clone)]
pub struct Enterprise {
    pub id: i32,
    pub name: Option<String>,
}

} // verus!

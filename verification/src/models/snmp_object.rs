//! SNMP Object model - custom SNMP OID definitions.

use vstd::prelude::*;

verus! {

/// A named SNMP object from a MIB.
#[derive(Debug, Clone)]
pub struct SnmpObject {
    pub oid: String,
    pub oid_name: Option<String>,
    pub mib: Option<String>,
    pub leaf: Option<bool>,
}

} // verus!

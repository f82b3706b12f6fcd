//! Device model - represents a network device (switch, router, AP).

use chrono::NaiveDateTime;
use vstd::prelude::*;

use crate::util::net::{IpNet, ip_addr_text, ip_network_to_string};
use crate::util::text::{clone_string, spec_decimal};
use vstd::string::StrSliceExecFns;

verus! {

/// A network device discovered and managed by Netdisco.
#[derive(Debug)]
pub struct Device {
    /// Primary key - device IP address
    pub ip: IpNet,
    /// When this device was first seen
    pub creation: Option<NaiveDateTime>,
    /// DNS hostname
    pub dns: Option<String>,
    /// sysDescr from SNMP
    pub description: Option<String>,
    /// sysUpTime from SNMP (in hundredths of a second)
    pub uptime: Option<i64>,
    /// sysContact from SNMP
    pub contact: Option<String>,
    /// sysName from SNMP
    pub name: Option<String>,
    /// sysLocation from SNMP
    pub location: Option<String>,
    /// OSI layer capabilities (7 chars, e.g. "0000011")
    pub layers: Option<String>,
    /// Number of interfaces
    pub ports: Option<i32>,
    /// Device MAC address
    pub mac: Option<String>,
    /// Serial number
    pub serial: Option<String>,
    /// Hardware model
    pub model: Option<String>,
    /// Power supply 1 type
    pub ps1_type: Option<String>,
    /// Power supply 2 type
    pub ps2_type: Option<String>,
    /// Power supply 1 status
    pub ps1_status: Option<String>,
    /// Power supply 2 status
    pub ps2_status: Option<String>,
    /// Fan status
    pub fan: Option<String>,
    /// Number of slots
    pub slots: Option<i32>,
    /// Hardware vendor
    pub vendor: Option<String>,
    /// Operating system
    pub os: Option<String>,
    /// OS version
    pub os_ver: Option<String>,
    /// Log info
    pub log: Option<String>,
    /// SNMP version used (1, 2, or 3)
    pub snmp_ver: Option<i32>,
    /// SNMP community string
    pub snmp_comm: Option<String>,
    /// SNMP::Info class used
    pub snmp_class: Option<String>,
    /// VTP domain
    pub vtp_domain: Option<String>,
    /// Last successful discover timestamp
    pub last_discover: Option<NaiveDateTime>,
    /// Last successful macsuck timestamp
    pub last_macsuck: Option<NaiveDateTime>,
    /// Last successful arpnip timestamp
    pub last_arpnip: Option<NaiveDateTime>,
    /// Whether 802.1X (PAE) is enabled
    pub pae_is_enabled: Option<bool>,
    /// Custom fields (JSONB)
    pub custom_fields: Option<serde_json::Value>,
    /// Tags array
    pub tags: Option<Vec<String>>,
}

/// Whether a layers string marks OSI layer `layer` (1-7): the string is read
/// right to left, so layer `n` is the character at index `7 - n`, and it
/// must be '1'. Layers outside 1-7, a missing string or a short one give
/// `false`.
pub open spec fn spec_has_layer(layers: Option<String>, layer: u8) -> bool {
    &&& 1 <= layer <= 7
    &&& layers matches Some(l)
    &&& 7 - layer < l@.len()
    &&& l@[7 - layer] == '1'
}

/// The text of a network address as the device table writes it.
pub open spec fn net_text(ip: IpNet) -> Seq<char> {
    ip_addr_text(ip.addr) + seq!['/'] + spec_decimal(ip.prefix as nat)
}

/// The name to show for a device: its DNS name when non-empty, else its
/// sysName when non-empty, else its address.
pub open spec fn spec_display_name(dns: Option<String>, name: Option<String>, ip: IpNet) -> Seq<char> {
    if dns matches Some(d) && d@.len() > 0 {
        dns->0@
    } else if name matches Some(n) && n@.len() > 0 {
        name->0@
    } else {
        net_text(ip)
    }
}

/// The text of an optional string when it is present and non-empty.
fn non_empty(s: &Option<String>) -> (r: Option<String>)
    ensures
        match s {
            Some(t) => if t@.len() > 0 {
                r matches Some(u) && u@ == t@
            } else {
                r is None
            },
            None => r is None,
        },
{
    match s {
        Some(t) => if t.as_str().unicode_len() > 0 {
            Some(clone_string(t))
        } else {
            None
        },
        None => None,
    }
}

impl Device {
    /// Check if device supports a specific OSI layer (1-7).
    pub fn has_layer(&self, layer: u8) -> (r: bool)
        ensures
            r == spec_has_layer(self.layers, layer),
    {
        if layer == 0 || layer > 7 {
            return false;
        }
        match &self.layers {
            Some(layers) => {
                let idx = (7 - layer) as usize;
                let s = layers.as_str();
                idx < s.unicode_len() && s.get_char(idx) == '1'
            },
            None => false,
        }
    }

    /// Returns true if this device is a Layer 2 switch.
    pub fn is_switch(&self) -> (r: bool)
        ensures
            r == spec_has_layer(self.layers, 2),
    {
        self.has_layer(2)
    }

    /// Returns true if this device is a Layer 3 router.
    pub fn is_router(&self) -> (r: bool)
        ensures
            r == spec_has_layer(self.layers, 3),
    {
        self.has_layer(3)
    }

    /// Display name - prefers DNS, then sysName, then IP.
    pub fn display_name(&self) -> (r: String)
        requires
            self.ip.wf(),
        ensures
            r@ == spec_display_name(self.dns, self.name, self.ip),
    {
        match non_empty(&self.dns) {
            Some(d) => d,
            None => match non_empty(&self.name) {
                Some(n) => n,
                None => ip_network_to_string(&self.ip),
            },
        }
    }
}

} // verus!

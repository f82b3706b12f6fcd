//! DevicePort model - represents a physical or logical port on a device.

use chrono::NaiveDateTime;
use vstd::prelude::*;

use crate::util::net::IpNet;

verus! {

/// A port (interface) on a network device.
#[derive(Debug)]
pub struct DevicePort {
    /// Device IP address
    pub ip: IpNet,
    /// Port identifier (e.g., "GigabitEthernet0/1")
    pub port: String,
    /// When this port was first seen
    pub creation: Option<NaiveDateTime>,
    /// Interface description (ifDescr)
    pub descr: Option<String>,
    /// Operational status (up/down)
    pub up: Option<String>,
    /// Administrative status (up/down)
    pub up_admin: Option<String>,
    /// Interface type (e.g., "ethernetCsmacd")
    pub port_type: Option<String>,
    /// Running duplex (full/half)
    pub duplex: Option<String>,
    /// Admin duplex setting
    pub duplex_admin: Option<String>,
    /// Running speed
    pub speed: Option<String>,
    /// Friendly port name (ifAlias)
    pub name: Option<String>,
    /// Port MAC address
    pub mac: Option<String>,
    /// Maximum transmission unit
    pub mtu: Option<i32>,
    /// Spanning tree state
    pub stp: Option<String>,
    /// Remote device IP (CDP/LLDP neighbor)
    pub remote_ip: Option<IpNet>,
    /// Remote device port
    pub remote_port: Option<String>,
    /// Remote device type
    pub remote_type: Option<String>,
    /// Remote device ID
    pub remote_id: Option<String>,
    /// VLAN name
    pub vlan: Option<String>,
    /// Native VLAN ID
    pub pvid: Option<i32>,
    /// Last change counter (sysUpTime ticks)
    pub lastchange: Option<i64>,
    /// ifIndex
    pub ifindex: Option<i32>,
    /// Whether this is an uplink
    pub is_uplink: Option<bool>,
    /// Configured speed
    pub speed_admin: Option<String>,
    /// PoE enabled
    pub is_master: Option<bool>,
    /// Slave of (LAG member)
    pub slave_of: Option<String>,
    /// Custom fields (JSONB)
    pub custom_fields: Option<serde_json::Value>,
    /// Tags array
    pub tags: Option<Vec<String>>,
}

} // verus!

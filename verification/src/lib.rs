//! Netdisco: network device discovery and management.
//!
//! The verified library holds the protocol codecs (SNMP over BER), the
//! formatting and access-control rules, the configuration layering and the
//! decisions of the web and backend layers.  Everything that touches the
//! network, the database or the file system lives in the program around it.

pub mod backend;
pub mod config;
pub mod models;
pub mod snmp;
pub mod util;
pub mod web;

use vstd::prelude::*;

verus! {

/// Default web server port.
pub const DEFAULT_WEB_PORT: u16 = 5000;

/// Default backend port.
pub const DEFAULT_BACKEND_PORT: u16 = 5001;

/// Default configuration file name.
pub const DEFAULT_CONFIG_FILE: &'static str = "config.yml";

} // verus!

//! SNMP: BER codec, message building and parsing, and client logic.

pub mod ber;
pub mod client;
pub mod message;
pub mod oids;
pub mod response;
pub mod laws;

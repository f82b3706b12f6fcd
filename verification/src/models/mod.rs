//! Netdisco's data model: the rows the library reasons about.

pub mod admin;
pub mod device;
pub mod device_port;
pub mod enterprise;
pub mod manufacturer;
pub mod node;
pub mod oui;
pub mod snmp_object;
pub mod user;

pub use admin::Admin;
pub use device::Device;
pub use device_port::DevicePort;
pub use node::Node;
pub use oui::Oui;
pub use user::User;

use vstd::prelude::*;

verus! {

/// `chrono::NaiveDateTime`, carried through the models as an opaque value.
#[verifier::external_type_specification]
#[verifier::external_body]
pub struct ExNaiveDateTime(chrono::NaiveDateTime);

/// `serde_json::Value`, carried through the models as an opaque value.
#[verifier::external_type_specification]
#[verifier::external_body]
pub struct ExJsonValue(serde_json::Value);

} // verus!

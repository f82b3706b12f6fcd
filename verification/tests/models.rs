use netdisco::models::admin::status;
use netdisco::models::enterprise::Enterprise;
use netdisco::models::manufacturer::Manufacturer;
use netdisco::models::oui::Oui;
use netdisco::models::snmp_object::SnmpObject;
use netdisco::models::{Device, Node, User};
use netdisco::util::format_mac_ieee;
use netdisco::util::net::{IpAddress, IpNet};

fn ip(a: u8, b: u8, c: u8, d: u8) -> IpNet {
    IpNet { addr: IpAddress::V4(u32::from_be_bytes([a, b, c, d])), prefix: 32 }
}

fn device(dns: Option<&str>, name: Option<&str>, layers: Option<&str>) -> Device {
    Device {
        ip: ip(10, 0, 0, 1),
        creation: None,
        dns: dns.map(String::from),
        description: None,
        uptime: None,
        contact: None,
        name: name.map(String::from),
        location: None,
        layers: layers.map(String::from),
        ports: None,
        mac: None,
        serial: None,
        model: None,
        ps1_type: None,
        ps2_type: None,
        ps1_status: None,
        ps2_status: None,
        fan: None,
        slots: None,
        vendor: None,
        os: None,
        os_ver: None,
        log: None,
        snmp_ver: None,
        snmp_comm: None,
        snmp_class: None,
        vtp_domain: None,
        last_discover: None,
        last_macsuck: None,
        last_arpnip: None,
        pae_is_enabled: None,
        custom_fields: None,
        tags: None,
    }
}

fn user(admin: Option<bool>, port_control: Option<bool>) -> User {
    User {
        username: "alice".to_string(),
        password: None,
        creation: None,
        last_on: None,
        port_control,
        ldap: None,
        admin,
        fullname: None,
        note: None,
    }
}

#[test]
fn layers_of_a_switch() {
    let d = device(None, None, Some("0000010"));
    assert!(d.is_switch());
    assert!(!d.is_router());
    assert!(!d.has_layer(1));
    assert!(d.has_layer(2));
}

#[test]
fn layers_of_a_router() {
    let d = device(None, None, Some("0000110"));
    assert!(d.is_switch());
    assert!(d.is_router());
    assert!(!d.has_layer(7));
    let full = device(None, None, Some("1111111"));
    for layer in 1..=7 {
        assert!(full.has_layer(layer));
    }
}

#[test]
fn layers_out_of_range_or_missing() {
    let d = device(None, None, Some("1111111"));
    assert!(!d.has_layer(0));
    assert!(!d.has_layer(8));
    assert!(!d.has_layer(255));
    let none = device(None, None, None);
    assert!(!none.is_switch());
    let short = device(None, None, Some("11"));
    assert!(short.has_layer(7));
    assert!(short.has_layer(6));
    assert!(!short.has_layer(5));
    assert!(!short.has_layer(1));
}

#[test]
fn display_name_preference() {
    assert_eq!(device(Some("sw1.example.com"), Some("sw1"), None).display_name(), "sw1.example.com");
    assert_eq!(device(Some(""), Some("sw1"), None).display_name(), "sw1");
    assert_eq!(device(None, Some("sw1"), None).display_name(), "sw1");
    assert_eq!(device(None, None, None).display_name(), "10.0.0.1/32");
    assert_eq!(device(Some(""), Some(""), None).display_name(), "10.0.0.1/32");
}

#[test]
fn oui_extraction() {
    assert_eq!(Node::extract_oui("00:1a:2b:3c:4d:5e"), "001A2B");
    assert_eq!(Node::extract_oui("00-1a-2b-3c-4d-5e"), "001A2B");
    assert_eq!(Node::extract_oui("001a.2b3c.4d5e"), "001A2B");
    assert_eq!(Node::extract_oui("ab"), "AB");
    assert_eq!(Node::extract_oui(""), "");
    assert_eq!(Node::extract_oui("stra\u{df}e"), "STRASSE");
}

#[test]
fn user_flags() {
    assert!(user(Some(true), None).is_admin());
    assert!(!user(Some(false), None).is_admin());
    assert!(!user(None, None).is_admin());
    assert!(user(None, Some(true)).has_port_control());
    assert!(!user(None, None).has_port_control());
}

#[test]
fn job_statuses() {
    assert_eq!(status::QUEUED, "queued");
    assert_eq!(status::RUNNING, "running");
    assert_eq!(status::DONE, "done");
    assert_eq!(status::ERROR, "error");
    assert_eq!(status::DEFERRED, "deferred");
}

#[test]
fn plain_rows() {
    let e = Enterprise { id: 9, name: Some("ciscoSystems".to_string()) };
    assert_eq!(e.clone().id, 9);
    let m = Manufacturer { id: None, name: Some("Cisco".to_string()) };
    assert_eq!(m.clone().name.as_deref(), Some("Cisco"));
    let o = Oui { oui: "00000C".to_string(), company: Some("Cisco".to_string()) };
    assert_eq!(o.clone().oui, "00000C");
    let s = SnmpObject { oid: ".1.3.6.1".to_string(), oid_name: None, mib: None, leaf: Some(false) };
    assert_eq!(s.clone().leaf, Some(false));
}

#[test]
fn oui_does_not_depend_on_mac_writing() {
    for mac in ["00-1A-2b-3c-4d-5e", "001a.2b3c.4d5e", "001A2B3C4D5E", "00:1a:2b:3c:4d:5e", "0:0:1a:2B:3c:4d:5e"] {
        let ieee = format_mac_ieee(mac);
        assert_eq!(Node::extract_oui(&ieee), Node::extract_oui(mac));
    }
    assert_eq!(Node::extract_oui(&format_mac_ieee("00-1A-2b-3c-4d-5e")), "001A2B");
}

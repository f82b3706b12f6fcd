use netdisco::config::settings::NetdiscoConfig;
use netdisco::models::device_port::DevicePort;
use netdisco::models::User;
use netdisco::util::net::{IpAddress, IpNet};
use netdisco::web::auth::{
    current_user, is_valid_job_action, require_admin, require_auth, session_is_admin,
    session_is_authenticated, AuthRejection, SessionInfo,
};
use netdisco::web::handlers::{
    classify_node_search, login_outcome, login_submit, neighbor_ports, password_matches,
    ip_search_after_mac, DeviceQuery, LoginForm, LoginOutcome, LoginRejection, NodeSearch,
};

fn session(user: Option<&str>, admin: Option<bool>) -> SessionInfo {
    SessionInfo { username: user.map(String::from), admin }
}

fn config(no_auth: bool) -> NetdiscoConfig {
    let mut c = NetdiscoConfig::default();
    c.no_auth = no_auth;
    c
}

fn port(name: &str, remote: Option<IpNet>) -> DevicePort {
    DevicePort {
        ip: IpNet { addr: IpAddress::V4(0x0a00_0001), prefix: 32 },
        port: name.to_string(),
        creation: None,
        descr: None,
        up: None,
        up_admin: None,
        port_type: None,
        duplex: None,
        duplex_admin: None,
        speed: None,
        name: None,
        mac: None,
        mtu: None,
        stp: None,
        remote_ip: remote,
        remote_port: None,
        remote_type: None,
        remote_id: None,
        vlan: None,
        pvid: None,
        lastchange: None,
        ifindex: None,
        is_uplink: None,
        speed_admin: None,
        is_master: None,
        slave_of: None,
        custom_fields: None,
        tags: None,
    }
}

fn user(password: Option<String>, admin: Option<bool>) -> User {
    User {
        username: "alice".to_string(),
        password,
        creation: None,
        last_on: None,
        port_control: None,
        ldap: None,
        admin,
        fullname: None,
        note: None,
    }
}

fn form(password: &str) -> LoginForm {
    LoginForm { username: "alice".to_string(), password: password.to_string() }
}

#[test]
fn session_facts() {
    assert!(session_is_authenticated(&session(Some("bob"), None)));
    assert!(!session_is_authenticated(&session(None, Some(true))));
    assert!(session_is_admin(&session(Some("bob"), Some(true))));
    assert!(!session_is_admin(&session(Some("bob"), Some(false))));
    assert!(!session_is_admin(&session(Some("bob"), None)));
    assert_eq!(current_user(&session(Some("bob"), None)), Some("bob".to_string()));
    assert_eq!(current_user(&session(None, None)), None);
}

#[test]
fn auth_checks() {
    assert_eq!(require_auth(&session(None, None), &config(false)), Some(AuthRejection::Unauthorized));
    assert_eq!(require_auth(&session(Some("bob"), None), &config(false)), None);
    assert_eq!(require_admin(&session(None, Some(true)), &config(false)), Some(AuthRejection::Unauthorized));
    assert_eq!(require_admin(&session(Some("bob"), None), &config(false)), Some(AuthRejection::Forbidden));
    assert_eq!(require_admin(&session(Some("bob"), Some(false)), &config(false)), Some(AuthRejection::Forbidden));
    assert_eq!(require_admin(&session(Some("bob"), Some(true)), &config(false)), None);
}

#[test]
fn auth_disabled_allows_everything() {
    for s in [session(None, None), session(Some("bob"), Some(false)), session(None, Some(true))] {
        assert_eq!(require_auth(&s, &config(true)), None);
        assert_eq!(require_admin(&s, &config(true)), None);
    }
}

#[test]
fn admin_access_implies_auth_access() {
    for s in [
        session(None, None),
        session(None, Some(true)),
        session(Some("bob"), None),
        session(Some("bob"), Some(false)),
        session(Some("bob"), Some(true)),
    ] {
        for no_auth in [false, true] {
            if require_admin(&s, &config(no_auth)).is_none() {
                assert!(require_auth(&s, &config(no_auth)).is_none());
            }
        }
    }
}

#[test]
fn rejection_answers() {
    assert_eq!(AuthRejection::Unauthorized.status_code(), 401);
    assert_eq!(AuthRejection::Forbidden.status_code(), 403);
    assert_eq!(AuthRejection::Unauthorized.message(), "Authentication required");
    assert_eq!(AuthRejection::Forbidden.message(), "Admin access required");
    assert_eq!(LoginRejection::InvalidCredentials.message(), "Invalid credentials");
    assert_eq!(LoginRejection::NoPasswordSet.message(), "No password set");
}

#[test]
fn job_action_validation() {
    for a in [
        "discover", "discoverall", "macsuck", "macwalk", "arpnip", "arpwalk", "nbtstat", "nbtwalk",
        "expire", "delete", "portcontrol", "portname", "portvlan", "power", "graph", "show", "stats",
    ] {
        assert!(is_valid_job_action(a));
    }
    assert!(!is_valid_job_action("linter"));
    assert!(!is_valid_job_action(""));
    assert!(!is_valid_job_action("DISCOVER"));
    assert!(!is_valid_job_action("discover "));
}

#[test]
fn node_search_classification() {
    let q = |s: &str| NodeSearch { q: Some(s.to_string()) };
    let mac = classify_node_search(&q("00:11:22:33:44:55"));
    assert_eq!(mac.mac.as_deref(), Some("00:11:22:33:44:55"));
    assert_eq!(mac.ip, None);
    assert_eq!(ip_search_after_mac(&mac, false), None);
    let dashed = classify_node_search(&q("0011-2233"));
    assert!(dashed.mac.is_some());
    let v4 = classify_node_search(&q("10.0.0.1"));
    assert_eq!(v4.mac.as_deref(), Some("10.0.0.1"));
    let host = IpNet { addr: IpAddress::V4(0x0a00_0001), prefix: 32 };
    assert_eq!(v4.ip, Some(host));
    // MAC search first, then the IP search when it found nothing.
    assert_eq!(ip_search_after_mac(&v4, true), None);
    assert_eq!(ip_search_after_mac(&v4, false), Some(host));
    let v6 = classify_node_search(&q("::1"));
    assert!(v6.mac.is_some());
    assert_eq!(v6.ip, Some(IpNet { addr: IpAddress::V6(1), prefix: 128 }));
    let name = classify_node_search(&q("hostname"));
    assert!(name.mac.is_none() && name.ip.is_none());
    assert_eq!(ip_search_after_mac(&name, false), None);
    let empty = classify_node_search(&q(""));
    assert!(empty.mac.is_none() && empty.ip.is_none());
    let none = classify_node_search(&NodeSearch { q: None });
    assert!(none.mac.is_none() && none.ip.is_none());
    let d = DeviceQuery { q: Some("sw".to_string()) };
    assert_eq!(d.clone().q.as_deref(), Some("sw"));
}

#[test]
fn neighbors_are_ports_with_remote_ip() {
    let remote = IpNet { addr: IpAddress::V4(0x0a00_0002), prefix: 32 };
    let ports = vec![port("Gi0/1", Some(remote)), port("Gi0/2", None), port("Gi0/3", Some(remote))];
    let n = neighbor_ports(ports);
    let names: Vec<&str> = n.iter().map(|p| p.port.as_str()).collect();
    assert_eq!(names, vec!["Gi0/1", "Gi0/3"]);
    assert!(neighbor_ports(vec![]).is_empty());
    assert!(neighbor_ports(vec![port("x", None)]).is_empty());
}

#[test]
fn bcrypt_password_check() {
    let hash = bcrypt::hash("secret", 4).unwrap();
    assert!(password_matches("secret", &hash));
    assert!(!password_matches("Secret", &hash));
    assert!(!password_matches("secret", "not a hash"));
}

#[test]
fn login_decisions() {
    let hash = bcrypt::hash("secret", 4).unwrap();
    match login_submit(Some(user(Some(hash.clone()), Some(true))), &form("secret")) {
        LoginOutcome::LoggedIn { username, admin } => {
            assert_eq!(username, "alice");
            assert!(admin);
        }
        other => panic!("unexpected {:?}", other),
    }
    match login_submit(Some(user(Some(hash.clone()), None)), &form("secret")) {
        LoginOutcome::LoggedIn { admin, .. } => assert!(!admin),
        other => panic!("unexpected {:?}", other),
    }
    assert!(matches!(
        login_submit(Some(user(Some(hash), None)), &form("wrong")),
        LoginOutcome::Rejected(LoginRejection::InvalidCredentials)
    ));
    assert!(matches!(
        login_submit(Some(user(None, None)), &form("secret")),
        LoginOutcome::Rejected(LoginRejection::NoPasswordSet)
    ));
    assert!(matches!(
        login_submit(None, &form("secret")),
        LoginOutcome::Rejected(LoginRejection::InvalidCredentials)
    ));
    assert!(matches!(
        login_submit(Some(user(Some("garbage".to_string()), None)), &form("secret")),
        LoginOutcome::Rejected(LoginRejection::InvalidCredentials)
    ));
}

#[test]
fn login_outcome_from_check() {
    assert!(matches!(
        login_outcome(Some(user(Some("h".to_string()), Some(true))), true),
        LoginOutcome::LoggedIn { admin: true, .. }
    ));
    assert!(matches!(
        login_outcome(Some(user(Some("h".to_string()), Some(true))), false),
        LoginOutcome::Rejected(LoginRejection::InvalidCredentials)
    ));
    assert!(matches!(
        login_outcome(Some(user(None, Some(true))), true),
        LoginOutcome::Rejected(LoginRejection::NoPasswordSet)
    ));
    assert!(matches!(login_outcome(None, true), LoginOutcome::Rejected(LoginRejection::InvalidCredentials)));
}

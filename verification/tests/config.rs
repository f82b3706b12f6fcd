use netdisco::config::settings::{
    ConfigOverrides, DatabaseConfig, DnsConfig, EnvOverrides, LdapConfig, NetdiscoConfig,
    RadiusConfig, TacacsConfig, WorkersConfig,
};
use netdisco::{DEFAULT_BACKEND_PORT, DEFAULT_CONFIG_FILE, DEFAULT_WEB_PORT};

fn strings(items: &[&str]) -> Vec<String> {
    items.iter().map(|s| s.to_string()).collect()
}

fn no_overrides() -> ConfigOverrides {
    ConfigOverrides {
        database_name: None,
        database_host: None,
        database_user: None,
        database_pass: None,
        community: None,
        domain_suffix: None,
        no_auth: None,
    }
}

fn deployment() -> ConfigOverrides {
    ConfigOverrides {
        database_name: Some("nd2".to_string()),
        database_host: Some("db.example.com".to_string()),
        database_user: None,
        database_pass: Some("s3cret".to_string()),
        community: Some(strings(&["public", "lab"])),
        domain_suffix: None,
        no_auth: Some(true),
    }
}

fn no_env() -> EnvOverrides {
    EnvOverrides { db_name: None, db_host: None, db_user: None, db_pass: None, ro_community: None, domain: None }
}

#[test]
fn constants() {
    assert_eq!(DEFAULT_WEB_PORT, 5000);
    assert_eq!(DEFAULT_BACKEND_PORT, 5001);
    assert_eq!(DEFAULT_CONFIG_FILE, "config.yml");
}

#[test]
fn database_defaults_and_connection_string() {
    let db = DatabaseConfig::default();
    assert_eq!(db.name, "netdisco");
    assert_eq!(db.host, "localhost");
    assert_eq!(db.user, "netdisco");
    assert_eq!(db.pass, "");
    assert_eq!(db.port, 5432);
    assert_eq!(db.connection_string(), "postgres://netdisco:@localhost:5432/netdisco");
    let custom = DatabaseConfig {
        name: "nd".to_string(),
        host: "db".to_string(),
        user: "u".to_string(),
        pass: "p".to_string(),
        port: 6543,
    };
    assert_eq!(custom.connection_string(), "postgres://u:p@db:6543/nd");
}

#[test]
fn section_defaults() {
    let w = WorkersConfig::default();
    assert_eq!(w.tasks, "AUTO * 2");
    assert_eq!(w.timeout, 600);
    assert_eq!(w.sleep_time, 1);
    assert_eq!(w.max_deferrals, 10);
    assert_eq!(w.retry_after, "7 days");
    assert_eq!(w.queue, "PostgreSQL");
    let d = DnsConfig::default();
    assert_eq!(d.max_outstanding, 0);
    assert_eq!(d.hosts_file, "");
    assert!(d.no.is_empty());
    let l = LdapConfig::default();
    assert!(l.servers.is_empty());
    let _ = RadiusConfig::default();
    let _ = TacacsConfig::default();
}

#[test]
fn netdisco_defaults() {
    let c = NetdiscoConfig::default();
    assert_eq!(c.log, "warning");
    assert!(c.domain_suffix.is_empty());
    assert!(!c.no_auth);
    assert_eq!(c.branding_text, "Netdisco");
    assert_eq!(c.max_typeahead_rows, 50);
    assert_eq!(c.web_home, "/inventory");
    assert_eq!(c.path, "/");
    assert_eq!(c.table_pagesize, 10);
    assert_eq!(
        c.web_plugins,
        strings(&[
            "Inventory",
            "Search::Device",
            "Search::Node",
            "Search::VLAN",
            "Search::Port",
            "Device::Details",
            "Device::Ports"
        ])
    );
    assert!(c.community.is_empty());
    assert_eq!(c.snmpver, 3);
    assert_eq!(c.snmptimeout, 3_000_000);
    assert_eq!(c.snmpretries, 2);
    assert_eq!(c.bulkwalk_repeaters, 20);
    assert!(c.discover_neighbors);
    assert!(!c.discover_phones);
    assert_eq!(c.nbtstat_max_age, 7);
    assert_eq!(c.nbtstat_interval_micros, 20_000);
    assert_eq!(c.nbtstat_response_timeout, 1);
    assert_eq!(c.expire_devices, 60);
    assert_eq!(c.expire_nodes, 90);
    assert_eq!(c.expire_nodes_archive, 60);
    assert_eq!(c.expire_jobs, 14);
    assert_eq!(c.expire_userlog, 365);
    assert_eq!(c.dns.max_outstanding, 50);
    assert_eq!(c.dns.hosts_file, "/etc/hosts");
    assert!(c.portctl_native_vlan);
    assert_eq!(c.api_token_lifetime, 3600);
    assert_eq!(c.workers.tasks, "AUTO * 2");
    assert_eq!(c.database.connection_string(), "postgres://netdisco:@localhost:5432/netdisco");
}

#[test]
fn deployment_overrides_replace_present_values() {
    let mut c = NetdiscoConfig::default();
    c.apply_overrides(deployment());
    assert_eq!(c.database.name, "nd2");
    assert_eq!(c.database.host, "db.example.com");
    assert_eq!(c.database.user, "netdisco");
    assert_eq!(c.database.pass, "s3cret");
    assert_eq!(c.database.port, 5432);
    assert_eq!(c.community, strings(&["public", "lab"]));
    assert!(c.domain_suffix.is_empty());
    assert!(c.no_auth);
    assert_eq!(c.log, "warning");
    assert_eq!(c.snmpver, 3);
}

#[test]
fn empty_overrides_keep_config() {
    let mut c = NetdiscoConfig::default();
    c.domain_suffix = strings(&[".example.com"]);
    c.apply_overrides(no_overrides());
    assert_eq!(c.domain_suffix, strings(&[".example.com"]));
    assert_eq!(c.database.name, "netdisco");
    assert!(c.community.is_empty());
    assert!(!c.no_auth);
}

#[test]
fn overrides_applied_twice_equal_once() {
    let mut once = NetdiscoConfig::default();
    once.apply_overrides(deployment());
    let mut twice = NetdiscoConfig::default();
    twice.apply_overrides(deployment());
    twice.apply_overrides(deployment());
    assert_eq!(once.database.connection_string(), twice.database.connection_string());
    assert_eq!(once.community, twice.community);
    assert_eq!(once.domain_suffix, twice.domain_suffix);
    assert_eq!(once.no_auth, twice.no_auth);
}

#[test]
fn environment_overrides() {
    let mut c = NetdiscoConfig::default();
    c.apply_env_overrides(EnvOverrides {
        db_name: Some("envdb".to_string()),
        db_host: None,
        db_user: Some("envuser".to_string()),
        db_pass: Some("envpass".to_string()),
        ro_community: Some("a,b,,c".to_string()),
        domain: Some("example.org".to_string()),
    });
    assert_eq!(c.database.name, "envdb");
    assert_eq!(c.database.host, "localhost");
    assert_eq!(c.database.user, "envuser");
    assert_eq!(c.database.pass, "envpass");
    assert_eq!(c.community, strings(&["a", "b", "", "c"]));
    assert_eq!(c.domain_suffix, strings(&["example.org"]));
    assert!(!c.no_auth);
}

#[test]
fn no_environment_keeps_config() {
    let mut c = NetdiscoConfig::default();
    c.community = strings(&["x"]);
    c.apply_env_overrides(no_env());
    assert_eq!(c.community, strings(&["x"]));
    assert_eq!(c.database.connection_string(), "postgres://netdisco:@localhost:5432/netdisco");
}

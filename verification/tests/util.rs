use netdisco::util::net::{
    ip_addr_to_string, ip_network_to_string, is_private, network_contains, parse_ip_network,
    IpAddress, IpNet,
};
use netdisco::util::permission::{acl_matches, acl_matches_no, acl_matches_only, is_permitted};
use netdisco::util::text::{parse_usize, split_char, trim_chars};
use netdisco::util::{format_mac_ieee, format_uptime};

fn v4(a: u8, b: u8, c: u8, d: u8) -> IpAddress {
    IpAddress::V4(u32::from_be_bytes([a, b, c, d]))
}

fn host(a: u8, b: u8, c: u8, d: u8) -> IpNet {
    IpNet { addr: v4(a, b, c, d), prefix: 32 }
}

fn strings(items: &[&str]) -> Vec<String> {
    items.iter().map(|s| s.to_string()).collect()
}

fn chars(s: &str) -> Vec<char> {
    s.chars().collect()
}

#[test]
fn mac_ieee_formats() {
    assert_eq!(format_mac_ieee("00-11-22-AA-BB-CC"), "00:11:22:aa:bb:cc");
    assert_eq!(format_mac_ieee("001122AABBCC"), "00:11:22:aa:bb:cc");
    assert_eq!(format_mac_ieee("0011.22aa.bbcc"), "00:11:22:aa:bb:cc");
    assert_eq!(format_mac_ieee("00:11:22:aa:bb:cc"), "00:11:22:aa:bb:cc");
}

#[test]
fn mac_ieee_leaves_other_text_alone() {
    assert_eq!(format_mac_ieee("xyz"), "xyz");
    assert_eq!(format_mac_ieee("00:11:22:33:44"), "00:11:22:33:44");
    assert_eq!(format_mac_ieee("00:11:22:33:44:55:66"), "00:11:22:33:44:55:66");
    assert_eq!(format_mac_ieee(""), "");
}

#[test]
fn mac_ieee_is_idempotent() {
    for mac in ["00-11-22-AA-BB-CC", "nonsense", "0011.22aa.bbcc", "AB:cd:EF:01:23:45", ""] {
        let once = format_mac_ieee(mac);
        assert_eq!(format_mac_ieee(&once), once);
    }
}

#[test]
fn uptime_formats() {
    assert_eq!(format_uptime(0), "00:00:00");
    assert_eq!(format_uptime(99), "00:00:00");
    assert_eq!(format_uptime(6100), "00:01:01");
    assert_eq!(format_uptime(360_000), "01:00:00");
    assert_eq!(format_uptime(8_640_000), "1 day 00:00:00");
    assert_eq!(format_uptime(2 * 8_640_000 + 372_300), "2 days 01:02:03");
    assert_eq!(format_uptime(365 * 8_640_000), "365 days 00:00:00");
    assert_eq!(format_uptime(366 * 8_640_000), "1 year 1 day 00:00:00");
    assert_eq!(format_uptime(365 * 2 * 8_640_000 + 2 * 8_640_000 + 100), "2 years 2 days 00:00:01");
    assert_eq!(format_uptime(731 * 8_640_000), "2 years 1 day 00:00:00");
    assert_eq!(format_uptime(730 * 8_640_000), "2 years 0 days 00:00:00");
}

#[test]
fn uptime_of_negative_ticks() {
    assert_eq!(format_uptime(-100), "00:00:-1");
    assert_eq!(format_uptime(-6100), "00:-1:-1");
    assert_eq!(format_uptime(-8_640_000), "00:00:00");
    assert_eq!(format_uptime(i64::MIN), format!("{:02}:{:02}:{:02}", (i64::MIN / 100 % 86400) / 3600, (i64::MIN / 100 % 3600) / 60, i64::MIN / 100 % 60));
}

#[test]
fn private_addresses() {
    assert!(is_private(&v4(10, 1, 2, 3)));
    assert!(is_private(&v4(172, 16, 0, 1)));
    assert!(is_private(&v4(172, 31, 255, 255)));
    assert!(!is_private(&v4(172, 32, 0, 1)));
    assert!(is_private(&v4(192, 168, 1, 1)));
    assert!(is_private(&v4(127, 0, 0, 1)));
    assert!(is_private(&v4(169, 254, 1, 1)));
    assert!(!is_private(&v4(8, 8, 8, 8)));
    assert!(is_private(&IpAddress::V6(1)));
    assert!(!is_private(&IpAddress::V6(2)));
    assert!(!is_private(&IpAddress::V6(0xfe80 << 112)));
}

#[test]
fn parse_and_print_networks() {
    let net = parse_ip_network("10.0.0.0/8").unwrap();
    assert_eq!(net, IpNet { addr: v4(10, 0, 0, 0), prefix: 8 });
    assert_eq!(ip_network_to_string(&net), "10.0.0.0/8");
    assert_eq!(parse_ip_network("10.0.0.1"), Some(host(10, 0, 0, 1)));
    assert_eq!(ip_network_to_string(&host(10, 0, 0, 1)), "10.0.0.1/32");
    assert_eq!(parse_ip_network("::1"), Some(IpNet { addr: IpAddress::V6(1), prefix: 128 }));
    assert_eq!(parse_ip_network("10.0.0.0/33"), None);
    assert_eq!(parse_ip_network("bogus"), None);
    assert_eq!(ip_addr_to_string(&v4(192, 168, 1, 20)), "192.168.1.20");
    assert_eq!(ip_addr_to_string(&IpAddress::V6(1)), "::1");
}

#[test]
fn network_membership() {
    let net = IpNet { addr: v4(10, 0, 0, 0), prefix: 8 };
    assert!(network_contains(&net, &v4(10, 1, 2, 3)));
    assert!(!network_contains(&net, &v4(11, 0, 0, 1)));
    assert!(network_contains(&IpNet { addr: v4(1, 2, 3, 4), prefix: 0 }, &v4(200, 1, 1, 1)));
    assert!(network_contains(&host(10, 0, 0, 1), &v4(10, 0, 0, 1)));
    assert!(!network_contains(&host(10, 0, 0, 1), &v4(10, 0, 0, 2)));
    assert!(!network_contains(&net, &IpAddress::V6(1)));
    let v6 = IpNet { addr: IpAddress::V6(0x2001_0db8 << 96), prefix: 32 };
    assert!(network_contains(&v6, &IpAddress::V6((0x2001_0db8 << 96) | 5)));
    assert!(!network_contains(&v6, &IpAddress::V6(1)));
}

#[test]
fn acl_entries() {
    let ip = host(10, 1, 2, 3);
    assert!(acl_matches(&ip, &strings(&["10.0.0.0/8"])));
    assert!(acl_matches(&ip, &strings(&["192.168.0.0/16", "group:__ANY__"])));
    assert!(acl_matches(&ip, &strings(&["0.0.0.0/0"])));
    assert!(acl_matches(&ip, &strings(&["::/0"])));
    assert!(acl_matches(&ip, &strings(&["10.1.2.3"])));
    assert!(!acl_matches(&ip, &strings(&["192.168.0.0/16", "not an address"])));
    assert!(!acl_matches(&ip, &[]));
}

#[test]
fn acl_only_and_no_lists() {
    let ip = host(10, 1, 2, 3);
    assert!(acl_matches_only(&ip, &[]));
    assert!(!acl_matches_no(&ip, &[]));
    assert!(acl_matches_only(&ip, &strings(&["10.0.0.0/8"])));
    assert!(!acl_matches_only(&ip, &strings(&["192.168.0.0/16"])));
    assert!(acl_matches_no(&ip, &strings(&["10.1.2.3"])));
    assert!(is_permitted(&ip, &[], &[]));
    assert!(is_permitted(&ip, &strings(&["10.0.0.0/8"]), &strings(&["192.168.0.0/16"])));
    assert!(!is_permitted(&ip, &strings(&["10.0.0.0/8"]), &strings(&["10.1.0.0/16"])));
    assert!(!is_permitted(&ip, &strings(&["192.168.0.0/16"]), &[]));
}

#[test]
fn no_list_wins_over_only_list() {
    let ip = host(172, 16, 5, 5);
    let both = strings(&["172.16.0.0/12"]);
    assert!(!is_permitted(&ip, &both, &both));
    assert!(!is_permitted(&ip, &strings(&["group:__ANY__"]), &strings(&["172.16.5.5"])));
}

#[test]
fn wider_acl_still_matches() {
    let ip = host(10, 9, 9, 9);
    let narrow = strings(&["10.9.0.0/16"]);
    let mut wide = narrow.clone();
    wide.push("192.168.0.0/16".to_string());
    assert!(acl_matches(&ip, &narrow));
    assert!(acl_matches(&ip, &wide));
}

#[test]
fn split_and_trim() {
    assert_eq!(split_char("a,b,,c", ','), strings(&["a", "b", "", "c"]));
    assert_eq!(split_char("", ','), strings(&[""]));
    assert_eq!(trim_chars(&chars("  x y\t\n")), chars("x y"));
    assert_eq!(trim_chars(&chars("\u{3000}\u{a0}z\u{2028}")), chars("z"));
    assert_eq!(trim_chars(&chars("   ")), chars(""));
}

#[test]
fn usize_parsing() {
    assert_eq!(parse_usize(&chars("42")), Some(42));
    assert_eq!(parse_usize(&chars("+7")), Some(7));
    assert_eq!(parse_usize(&chars("007")), Some(7));
    assert_eq!(parse_usize(&chars("")), None);
    assert_eq!(parse_usize(&chars("+")), None);
    assert_eq!(parse_usize(&chars("-1")), None);
    assert_eq!(parse_usize(&chars(" 1")), None);
    assert_eq!(parse_usize(&chars("1x")), None);
    assert_eq!(parse_usize(&chars(&usize::MAX.to_string())), Some(usize::MAX));
    assert_eq!(parse_usize(&chars("99999999999999999999999")), None);
    for s in ["0", "12", "+3", "", "x", "18446744073709551616"] {
        assert_eq!(parse_usize(&chars(s)), s.parse::<usize>().ok());
    }
}

#[test]
fn mac_ieee_shape() {
    for mac in ["00-11-22-AA-BB-CC", "0011.22aa.bbcc", "x00y11z22AAbbCC!", "00:11:22:aa:bb:cc"] {
        let h: String = mac.chars().filter(|c| c.is_ascii_hexdigit()).collect();
        assert_eq!(h.len(), 12);
        let r = format_mac_ieee(mac);
        assert_eq!(r.chars().count(), 17);
        for k in [2, 5, 8, 11, 14] {
            assert_eq!(r.chars().nth(k), Some(':'));
        }
        assert_eq!(r.replace(":", ""), h.to_lowercase());
        assert_eq!(format_mac_ieee(&r), r);
    }
}

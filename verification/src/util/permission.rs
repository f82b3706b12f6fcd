//! Permission/ACL checking utilities.

use vstd::prelude::*;

use crate::util::net::{
    IpAddress,
    IpNet,
    ip_addr_text,
    ip_addr_to_string,
    ipnetwork_parse,
    network_contains,
    parse_ip_network,
    spec_contains,
};
use crate::util::text::str_eq;

verus! {

/// An ACL entry that matches every address.
pub open spec fn is_wildcard_entry(entry: Seq<char>) -> bool {
    entry == "group:__ANY__"@ || entry == "0.0.0.0/0"@ || entry == "::/0"@
}

/// Whether one ACL entry matches the address of `ip`: a wildcard, a network
/// (as `ipnetwork` parses it) containing the address, or the address's own
/// text.
pub open spec fn acl_entry_matches(entry: Seq<char>, ip: IpNet) -> bool {
    ||| is_wildcard_entry(entry)
    ||| (ipnetwork_parse(entry) matches Some(net) && spec_contains(net, ip.addr))
    ||| entry == ip_addr_text(ip.addr)
}

/// Whether some entry of the list matches.
pub open spec fn spec_acl_matches(ip: IpNet, acl: Seq<String>) -> bool {
    exists|i: int| 0 <= i < acl.len() && acl_entry_matches(#[trigger] acl[i]@, ip)
}

/// The "only" list: empty allows everything.
pub open spec fn spec_acl_matches_only(ip: IpNet, only: Seq<String>) -> bool {
    only.len() == 0 || spec_acl_matches(ip, only)
}

/// The "no" list: empty denies nothing.
pub open spec fn spec_acl_matches_no(ip: IpNet, no: Seq<String>) -> bool {
    no.len() != 0 && spec_acl_matches(ip, no)
}

/// Permitted: not denied by the "no" list and allowed by the "only" list.
pub open spec fn spec_is_permitted(ip: IpNet, only: Seq<String>, no: Seq<String>) -> bool {
    !spec_acl_matches_no(ip, no) && spec_acl_matches_only(ip, only)
}

/// Check if an IP matches an ACL entry (IP, CIDR, or group reference).
pub fn acl_matches(ip: &IpNet, acl: &[String]) -> (r: bool)
    ensures
        r == spec_acl_matches(*ip, acl@),
{
    let mut i: usize = 0;
    while i < acl.len()
        invariant
            i <= acl@.len(),
            forall|j: int| 0 <= j < i ==> !acl_entry_matches(#[trigger] acl@[j]@, *ip),
        decreases acl.len() - i,
    {
        let entry = acl[i].as_str();
        if str_eq(entry, "group:__ANY__") || str_eq(entry, "0.0.0.0/0") || str_eq(entry, "::/0") {
            assert(acl_entry_matches(acl@[i as int]@, *ip));
            return true;
        }
        match parse_ip_network(entry) {
            Some(network) => {
                if network_contains(&network, &ip.addr) {
                    assert(acl_entry_matches(acl@[i as int]@, *ip));
                    return true;
                }
            },
            None => {},
        }
        // Direct IP match
        let text = ip_addr_to_string(&ip.addr);
        if str_eq(entry, text.as_str()) {
            assert(acl_entry_matches(acl@[i as int]@, *ip));
            return true;
        }
        i += 1;
    }
    false
}

/// Check if an IP is in the "only" list (empty means all allowed).
pub fn acl_matches_only(ip: &IpNet, only: &[String]) -> (r: bool)
    ensures
        r == spec_acl_matches_only(*ip, only@),
{
    if only.len() == 0 {
        return true;
    }
    acl_matches(ip, only)
}

/// Check if an IP is in the "no" list.
pub fn acl_matches_no(ip: &IpNet, no: &[String]) -> (r: bool)
    ensures
        r == spec_acl_matches_no(*ip, no@),
{
    if no.len() == 0 {
        return false;
    }
    acl_matches(ip, no)
}

/// Check if a device should be included based on only/no lists.
pub fn is_permitted(ip: &IpNet, only: &[String], no: &[String]) -> (r: bool)
    ensures
        r == spec_is_permitted(*ip, only@, no@),
{
    if acl_matches_no(ip, no) {
        return false;
    }
    acl_matches_only(ip, only)
}

/// A device matched by the "no" list is never permitted, whatever the
/// "only" list says.
pub proof fn lemma_no_list_wins(ip: IpNet, only: Seq<String>, no: Seq<String>)
    requires
        spec_acl_matches_no(ip, no),
    ensures
        !spec_is_permitted(ip, only, no),
{
}

/// With both lists empty every device is permitted.
pub proof fn lemma_empty_lists_permit(ip: IpNet, only: Seq<String>, no: Seq<String>)
    requires
        only.len() == 0,
        no.len() == 0,
    ensures
        spec_is_permitted(ip, only, no),
{
}

/// A list holding a wildcard entry matches every address.
pub proof fn lemma_wildcard_matches(ip: IpNet, acl: Seq<String>, i: int)
    requires
        0 <= i < acl.len(),
        is_wildcard_entry(acl[i]@),
    ensures
        spec_acl_matches(ip, acl),
{
    assert(acl_entry_matches(acl[i]@, ip));
}

/// Adding entries to a list never makes it match fewer addresses.
pub proof fn lemma_acl_matches_monotone(ip: IpNet, acl: Seq<String>, more: Seq<String>)
    requires
        spec_acl_matches(ip, acl),
    ensures
        spec_acl_matches(ip, acl + more),
{
    let i = choose|i: int| 0 <= i < acl.len() && acl_entry_matches(#[trigger] acl[i]@, ip);
    assert((acl + more)[i] == acl[i]);
}

/// An ACL entry that parses as a network (IPv4 or IPv6) containing the
/// address makes the list match, wherever it stands in the list.
pub proof fn lemma_containing_network_matches(ip: IpNet, acl: Seq<String>, i: int, net: IpNet)
    requires
        0 <= i < acl.len(),
        ipnetwork_parse(acl[i]@) == Some(net),
        spec_contains(net, ip.addr),
    ensures
        spec_acl_matches(ip, acl),
        spec_acl_matches_only(ip, acl),
        spec_is_permitted(ip, acl, Seq::<String>::empty()),
{
    assert(acl_entry_matches(acl[i]@, ip));
}

/// A network contains its own address, and no address of the other family.
pub proof fn lemma_contains_meaning(net: IpNet, a: IpAddress)
    requires
        net.wf(),
    ensures
        spec_contains(net, net.addr),
        (net.addr is V4) != (a is V4) ==> !spec_contains(net, a),
{
}

} // verus!

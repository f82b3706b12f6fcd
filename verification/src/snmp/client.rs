//! SNMP client logic: versions, credentials and the client description.

use vstd::prelude::*;

use crate::config::settings::NetdiscoConfig;
use crate::snmp::ber::{parse_integer, parse_timeticks, spec_parse_integer, spec_parse_timeticks};
use crate::snmp::message::{build_get_pdu, build_getbulk_pdu, build_getnext_pdu, oid_arith_ok, spec_build_pdu};
use crate::snmp::response::{VarBind, varbinds_view};
use crate::util::net::SocketAddress;
use crate::util::text::{
    clone_string,
    push_char,
    push_decimal,
    push_hex2,
    push_hex_min2,
    spec_decimal,
    spec_hex2,
    spec_hex_min2,
    spec_join,
    lemma_join_push,
    string_of,
    utf8_lossy,
    utf8_lossy_text,
};

verus! {

/// SNMP protocol version.
#[derive(Debug, Clone, Copy, PartialEq, Eq, Structural)]
pub enum SnmpVersion {
    V1,
    V2c,
    V3,
}

/// The version number written in the SNMP message header.
pub open spec fn spec_version_byte(v: SnmpVersion) -> u8 {
    match v {
        SnmpVersion::V1 => 0,
        SnmpVersion::V2c => 1,
        SnmpVersion::V3 => 3,
    }
}

/// The version selected by a configured number: 1 and 2 select v1 and v2c,
/// anything else selects v3.
pub open spec fn spec_version_from(v: u8) -> SnmpVersion {
    if v == 1 {
        SnmpVersion::V1
    } else if v == 2 {
        SnmpVersion::V2c
    } else {
        SnmpVersion::V3
    }
}

impl SnmpVersion {
    /// BER-encoded version number for the SNMP message header.
    pub fn version_byte(&self) -> (r: u8)
        ensures
            r == spec_version_byte(*self),
    {
        match self {
            SnmpVersion::V1 => 0,
            SnmpVersion::V2c => 1,
            SnmpVersion::V3 => 3,
        }
    }
}

impl From<u8> for SnmpVersion {
    fn from(v: u8) -> (r: Self) {
        if v == 1 {
            SnmpVersion::V1
        } else if v == 2 {
            SnmpVersion::V2c
        } else {
            SnmpVersion::V3
        }
    }
}

impl vstd::std_specs::convert::FromSpecImpl<u8> for SnmpVersion {
    open spec fn obeys_from_spec() -> bool {
        true
    }

    open spec fn from_spec(v: u8) -> Self {
        spec_version_from(v)
    }
}


/// The standard SNMP agent port.
pub const SNMP_PORT: u16 = 161;

/// SNMP authentication credentials.
#[derive(Debug, Clone)]
pub struct SnmpCredentials {
    pub version: SnmpVersion,
    pub community: String,
    // SNMPv3 fields
    pub username: Option<String>,
    pub auth_protocol: Option<String>,
    pub auth_password: Option<String>,
    pub priv_protocol: Option<String>,
    pub priv_password: Option<String>,
}

/// A high-level SNMP client for Netdisco operations: the agent's address,
/// the credentials, the response timeout and the number of retries.
#[derive(Debug)]
pub struct SnmpClient {
    target: SocketAddress,
    credentials: SnmpCredentials,
    timeout_us: u64,
    retries: u32,
}

/// The version actually spoken: v3 falls back to v2c.
pub open spec fn spec_effective_version(v: SnmpVersion) -> SnmpVersion {
    if v == SnmpVersion::V3 {
        SnmpVersion::V2c
    } else {
        v
    }
}

impl SnmpClient {
    pub closed spec fn spec_target(&self) -> SocketAddress {
        self.target
    }

    pub closed spec fn spec_credentials(&self) -> SnmpCredentials {
        self.credentials
    }

    pub closed spec fn spec_timeout_us(&self) -> u64 {
        self.timeout_us
    }

    pub closed spec fn spec_retries(&self) -> u32 {
        self.retries
    }

    /// Create a new SNMP client for the agent at `target` (a parsed
    /// `host:port`).
    pub fn new(
        target: SocketAddress,
        credentials: SnmpCredentials,
        timeout_us: u64,
        retries: u32,
    ) -> (r: Self)
        ensures
            r.spec_target() == target,
            r.spec_credentials() == credentials,
            r.spec_timeout_us() == timeout_us,
            r.spec_retries() == retries,
    {
        SnmpClient { target, credentials, timeout_us, retries }
    }

    /// A client for the agent at `target` (the device's address on the
    /// SNMP port), with the first configured community (or "public"), the
    /// configured version, timeout and retries.
    pub fn from_config(config: &NetdiscoConfig, target: SocketAddress) -> (r: Self)
        ensures
            r.spec_target() == target,
            r.spec_credentials().version == spec_version_from(config.snmpver),
            r.spec_credentials().community@ == (if config.community@.len() > 0 {
                config.community@[0]@
            } else {
                "public"@
            }),
            r.spec_credentials().username is None,
            r.spec_credentials().auth_protocol is None,
            r.spec_credentials().auth_password is None,
            r.spec_credentials().priv_protocol is None,
            r.spec_credentials().priv_password is None,
            r.spec_timeout_us() == config.snmptimeout,
            r.spec_retries() == config.snmpretries,
    {
        let community = if config.community.len() > 0 {
            clone_string(&config.community[0])
        } else {
            string_of("public")
        };
        let version = SnmpVersion::from(config.snmpver);
        Self::new(
            target,
            SnmpCredentials {
                version,
                community,
                username: None,
                auth_protocol: None,
                auth_password: None,
                priv_protocol: None,
                priv_password: None,
            },
            config.snmptimeout,
            config.snmpretries,
        )
    }

    /// The agent's address.
    pub fn target(&self) -> (r: SocketAddress)
        ensures
            r == self.spec_target(),
    {
        self.target
    }

    /// The credentials.
    pub fn credentials(&self) -> (r: &SnmpCredentials)
        ensures
            *r == self.spec_credentials(),
    {
        &self.credentials
    }

    /// The response timeout in microseconds.
    pub fn timeout_micros(&self) -> (r: u64)
        ensures
            r == self.spec_timeout_us(),
    {
        self.timeout_us
    }

    /// How many times a request is sent again after a timeout.
    pub fn retries(&self) -> (r: u32)
        ensures
            r == self.spec_retries(),
    {
        self.retries
    }

    /// Effective SNMP version (v3 falls back to v2c until implemented).
    pub fn effective_version(&self) -> (r: SnmpVersion)
        ensures
            r == spec_effective_version(self.spec_credentials().version),
    {
        if self.credentials.version == SnmpVersion::V3 {
            SnmpVersion::V2c
        } else {
            self.credentials.version
        }
    }

    /// The GetRequest message for one OID.
    pub fn get_request(&self, oid: &[u32]) -> (r: Vec<u8>)
        requires
            oid_arith_ok(oid@),
        ensures
            exists|id: u32|
                id < 0x1_0000 && r@ == spec_build_pdu(
                    0xa0,
                    spec_effective_version(self.spec_credentials().version),
                    vstd::utf8::encode_utf8(self.spec_credentials().community@),
                    oid@,
                    None,
                    id,
                ),
    {
        build_get_pdu(&self.effective_version(), self.credentials.community.as_str(), oid)
    }

    /// The GetNextRequest message for one OID.
    pub fn get_next_request(&self, oid: &[u32]) -> (r: Vec<u8>)
        requires
            oid_arith_ok(oid@),
        ensures
            exists|id: u32|
                id < 0x1_0000 && r@ == spec_build_pdu(
                    0xa1,
                    spec_effective_version(self.spec_credentials().version),
                    vstd::utf8::encode_utf8(self.spec_credentials().community@),
                    oid@,
                    None,
                    id,
                ),
    {
        build_getnext_pdu(&self.effective_version(), self.credentials.community.as_str(), oid)
    }

    /// The GetBulkRequest message for one OID.
    pub fn get_bulk_request(&self, oid: &[u32], max_repetitions: u32) -> (r: Vec<u8>)
        requires
            oid_arith_ok(oid@),
        ensures
            exists|id: u32|
                id < 0x1_0000 && r@ == spec_build_pdu(
                    0xa5,
                    spec_effective_version(self.spec_credentials().version),
                    vstd::utf8::encode_utf8(self.spec_credentials().community@),
                    oid@,
                    Some(max_repetitions),
                    id,
                ),
    {
        build_getbulk_pdu(
            &self.effective_version(),
            self.credentials.community.as_str(),
            oid,
            max_repetitions,
        )
    }
}


/// The version a client speaks is the configured one, except that v3 is
/// spoken as v2c; so a client configured with version number 1 speaks v1
/// (version byte 0), and one configured with any other number speaks v2c
/// (version byte 1).
pub proof fn lemma_effective_version(v: SnmpVersion, n: u8)
    ensures
        v == SnmpVersion::V1 ==> spec_effective_version(v) == SnmpVersion::V1,
        v == SnmpVersion::V2c ==> spec_effective_version(v) == SnmpVersion::V2c,
        v == SnmpVersion::V3 ==> spec_effective_version(v) == SnmpVersion::V2c,
        spec_effective_version(v) != SnmpVersion::V3,
        n == 1 ==> spec_version_byte(spec_effective_version(spec_version_from(n))) == 0,
        n != 1 ==> spec_version_byte(spec_effective_version(spec_version_from(n))) == 1,
{
}

/// Whether a request is sent again after its attempt number `attempt`
/// (counting from 0) timed out: while fewer than `retries` retries were made.
pub open spec fn spec_retry_after_timeout(attempt: nat, retries: nat) -> bool {
    attempt < retries
}

/// Decide whether to send a request again after attempt `attempt` timed out.
pub fn retry_after_timeout(attempt: u32, retries: u32) -> (r: bool)
    ensures
        r == spec_retry_after_timeout(attempt as nat, retries as nat),
{
    attempt < retries
}

/// The number of times a request that never gets an answer is sent, from
/// attempt `attempt` on, when each timeout is decided by
/// `spec_retry_after_timeout`.
pub open spec fn sends_without_answer(attempt: nat, retries: nat) -> nat
    decreases retries - attempt,
{
    if spec_retry_after_timeout(attempt, retries) {
        1 + sends_without_answer(attempt + 1, retries)
    } else {
        1
    }
}

/// A request that is never answered is sent `retries + 1` times.
pub proof fn lemma_sends_without_answer(retries: nat)
    ensures
        sends_without_answer(0, retries) == retries + 1,
{
    lemma_sends_from(0, retries);
}

proof fn lemma_sends_from(attempt: nat, retries: nat)
    requires
        attempt <= retries,
    ensures
        sends_without_answer(attempt, retries) == retries - attempt + 1,
    decreases retries - attempt,
{
    if attempt < retries {
        lemma_sends_from(attempt + 1, retries);
    }
}

/// `a` sorts before or equal to `b` in the lexicographic order of `Vec`'s
/// comparison: the first differing arc decides, and a prefix sorts first.
pub open spec fn seq_lex_le(a: Seq<u32>, b: Seq<u32>) -> bool
    decreases a.len(),
{
    if a.len() == 0 {
        true
    } else if b.len() == 0 {
        false
    } else if a[0] < b[0] {
        true
    } else if a[0] > b[0] {
        false
    } else {
        seq_lex_le(a.drop_first(), b.drop_first())
    }
}

/// `base` is a prefix of `oid`.
pub open spec fn oid_starts_with(oid: Seq<u32>, base: Seq<u32>) -> bool {
    base.len() <= oid.len() && oid.subrange(0, base.len() as int) == base
}

/// Whether `a <= b` in `Vec`'s lexicographic order.
pub fn oid_le(a: &[u32], b: &[u32]) -> (r: bool)
    ensures
        r == seq_lex_le(a@, b@),
{
    let mut i: usize = 0;
    proof {
        assert(a@.skip(0) =~= a@);
        assert(b@.skip(0) =~= b@);
    }
    while i < a.len() && i < b.len() && a[i] == b[i]
        invariant
            i <= a@.len(),
            i <= b@.len(),
            seq_lex_le(a@, b@) == seq_lex_le(a@.skip(i as int), b@.skip(i as int)),
        decreases a.len() - i,
    {
        proof {
            assert(a@.skip(i as int).drop_first() =~= a@.skip(i + 1));
            assert(b@.skip(i as int).drop_first() =~= b@.skip(i + 1));
        }
        i += 1;
    }
    if i == a.len() {
        true
    } else if i == b.len() {
        false
    } else {
        a[i] < b[i]
    }
}

/// Whether `base` is a prefix of `oid`.
pub fn oid_has_prefix(oid: &[u32], base: &[u32]) -> (r: bool)
    ensures
        r == oid_starts_with(oid@, base@),
{
    if base.len() > oid.len() {
        return false;
    }
    let mut i: usize = 0;
    while i < base.len()
        invariant
            base@.len() <= oid@.len(),
            i <= base@.len(),
            forall|j: int| 0 <= j < i ==> oid@[j] == base@[j],
        decreases base.len() - i,
    {
        if oid[i] != base[i] {
            proof {
                assert(oid@.subrange(0, base@.len() as int)[i as int] != base@[i as int]);
            }
            return false;
        }
        i += 1;
    }
    proof {
        assert(oid@.subrange(0, base@.len() as int) =~= base@);
    }
    true
}

/// One step of walking the subtree under `base` from `current`: the
/// GETNEXT reply is kept (and the walk goes on from it) when it is a binding
/// whose OID is non-empty, lies under `base` and sorts strictly after
/// `current`; an error or any other binding ends the walk.
pub open spec fn spec_walk_accepts(base: Seq<u32>, current: Seq<u32>, next: Seq<u32>) -> bool {
    next.len() > 0 && oid_starts_with(next, base) && !seq_lex_le(next, current)
}

/// Decide one step of an SNMP walk from the GETNEXT reply (`None` when the
/// request failed): `Some` with the binding to record and continue from, or
/// `None` when the walk is over.
pub fn walk_step(base: &[u32], current: &[u32], reply: Option<VarBind>) -> (r: Option<VarBind>)
    ensures
        match reply {
            Some(b) => if spec_walk_accepts(base@, current@, b.0@) {
                r == Some(b)
            } else {
                r is None
            },
            None => r is None,
        },
{
    match reply {
        Some((next_oid, value)) => {
            // Check if we've gone past the subtree
            if next_oid.len() == 0 || !oid_has_prefix(next_oid.as_slice(), base) {
                return None;
            }
            // Guard against infinite loops (OID didn't advance)
            if oid_le(next_oid.as_slice(), current) {
                return None;
            }
            Some((next_oid, value))
        },
        None => None,
    }
}

/// The OID that the `i`-th recorded result was accepted after: `base` for
/// the first, otherwise the result before it.
pub open spec fn walk_prev(base: Seq<u32>, results: Seq<Seq<u32>>, i: int) -> Seq<u32> {
    if i == 0 {
        base
    } else {
        results[i - 1]
    }
}

/// A sequence of walk results, as the walk records them from `base`: each
/// OID lies under `base`, and each sorts strictly after the one before it
/// (the first after `base` itself).
pub open spec fn walk_results_valid(base: Seq<u32>, results: Seq<Seq<u32>>) -> bool {
    forall|i: int|
        0 <= i < results.len() ==> spec_walk_accepts(base, walk_prev(base, results, i), #[trigger] results[i])
}

/// The walk keeps its results valid: recording a binding that the step
/// accepts from the last recorded OID (or from `base` at the start) extends a
/// valid sequence to a valid sequence.
pub proof fn lemma_walk_step_keeps_results_valid(
    base: Seq<u32>,
    results: Seq<Seq<u32>>,
    next: Seq<u32>,
)
    requires
        walk_results_valid(base, results),
        spec_walk_accepts(base, walk_prev(base, results, results.len() as int), next),
    ensures
        walk_results_valid(base, results.push(next)),
{
    let r2 = results.push(next);
    assert forall|i: int| 0 <= i < r2.len() implies spec_walk_accepts(
        base,
        walk_prev(base, r2, i),
        #[trigger] r2[i],
    ) by {
        if i < results.len() {
            assert(r2[i] == results[i]);
            assert(walk_prev(base, r2, i) == walk_prev(base, results, i));
        } else {
            assert(walk_prev(base, r2, i) == walk_prev(base, results, results.len() as int));
        }
    }
}

/// The OIDs of a sequence of bindings.
pub open spec fn binding_oids(v: Seq<(Seq<u32>, Seq<u8>)>) -> Seq<Seq<u32>> {
    v.map_values(|b: (Seq<u32>, Seq<u8>)| b.0)
}

/// An SNMP walk in progress over the subtree under a base OID: the bindings
/// recorded so far and whether the walk has ended. The caller sends a
/// GETNEXT for `current_oid` and hands the reply to `record` until it
/// returns `false`.
pub struct SnmpWalk {
    base: Vec<u32>,
    results: Vec<VarBind>,
    done: bool,
}

impl SnmpWalk {
    pub closed spec fn spec_base(&self) -> Seq<u32> {
        self.base@
    }

    pub closed spec fn spec_results(&self) -> Seq<(Seq<u32>, Seq<u8>)> {
        varbinds_view(self.results@)
    }

    pub closed spec fn spec_done(&self) -> bool {
        self.done
    }

    /// The OID that the next GETNEXT asks about: the last recorded one, or
    /// the base before any.
    pub open spec fn spec_current(&self) -> Seq<u32> {
        walk_prev(self.spec_base(), binding_oids(self.spec_results()), self.spec_results().len() as int)
    }

    /// Every recorded binding lies under the base and sorts after the one
    /// before it.
    pub open spec fn wf(&self) -> bool {
        walk_results_valid(self.spec_base(), binding_oids(self.spec_results()))
    }

    /// A walk of the subtree under `base` that has recorded nothing yet.
    pub fn new(base: &[u32]) -> (r: Self)
        ensures
            r.wf(),
            r.spec_base() == base@,
            r.spec_results() == Seq::<(Seq<u32>, Seq<u8>)>::empty(),
            !r.spec_done(),
    {
        let w = SnmpWalk { base: vstd::slice::slice_to_vec(base), results: Vec::new(), done: false };
        proof {
            assert(binding_oids(w.spec_results()) =~= Seq::<Seq<u32>>::empty());
        }
        w
    }

    /// The OID to send the next GETNEXT for.
    pub fn current_oid(&self) -> (r: &[u32])
        ensures
            r@ == self.spec_current(),
    {
        let n = self.results.len();
        if n == 0 {
            self.base.as_slice()
        } else {
            proof {
                assert(binding_oids(self.spec_results())[n - 1] == self.results@[n - 1].0@);
            }
            self.results[n - 1].0.as_slice()
        }
    }

    /// Whether the walk has ended.
    pub fn is_done(&self) -> (r: bool)
        ensures
            r == self.spec_done(),
    {
        self.done
    }

    /// Take the reply to the GETNEXT for `current_oid` (`None` when the
    /// request failed): record it and return `true` when the walk goes on
    /// from it; otherwise end the walk and return `false`.
    pub fn record(&mut self, reply: Option<VarBind>) -> (r: bool)
        requires
            old(self).wf(),
            !old(self).spec_done(),
        ensures
            final(self).wf(),
            final(self).spec_base() == old(self).spec_base(),
            match reply {
                Some(b) => if spec_walk_accepts(old(self).spec_base(), old(self).spec_current(), b.0@) {
                    &&& r
                    &&& !final(self).spec_done()
                    &&& final(self).spec_results() == old(self).spec_results().push((b.0@, b.1@))
                } else {
                    &&& !r
                    &&& final(self).spec_done()
                    &&& final(self).spec_results() == old(self).spec_results()
                },
                None => {
                    &&& !r
                    &&& final(self).spec_done()
                    &&& final(self).spec_results() == old(self).spec_results()
                },
            },
    {
        let step = walk_step(self.base.as_slice(), self.current_oid(), reply);
        match step {
            Some(binding) => {
                let ghost oids = binding_oids(self.spec_results());
                let ghost next = binding.0@;
                proof {
                    lemma_walk_step_keeps_results_valid(self.base@, oids, next);
                }
                let ghost entry = (binding.0@, binding.1@);
                self.results.push(binding);
                proof {
                    assert(self.spec_results() =~= old(self).spec_results().push(entry));
                    assert(binding_oids(self.spec_results()) =~= oids.push(next));
                }
                true
            },
            None => {
                self.done = true;
                false
            },
        }
    }

    /// The bindings recorded, in the order they came.
    pub fn into_results(self) -> (r: Vec<VarBind>)
        ensures
            varbinds_view(r@) == self.spec_results(),
    {
        self.results
    }
}

/// Dotted-decimal text of an OID.
pub open spec fn spec_oid_to_string(oid: Seq<u32>) -> Seq<char> {
    spec_join(oid.map_values(|o: u32| spec_decimal(o as nat)), '.')
}

/// Render an OID as dotted decimal (1.3.6.1...).
pub fn oid_to_string(oid: &[u32]) -> (r: String)
    ensures
        r@ == spec_oid_to_string(oid@),
{
    proof {
        assert(oid@.subrange(0, oid@.len() as int) =~= oid@);
    }
    dotted_decimal_from(oid, 0)
}

/// The arcs of `oid` from index `from` on, in dotted decimal.
fn dotted_decimal_from(oid: &[u32], from: usize) -> (r: String)
    requires
        from <= oid@.len(),
    ensures
        r@ == spec_oid_to_string(oid@.subrange(from as int, oid@.len() as int)),
{
    let mut s = String::new();
    let mut i: usize = from;
    while i < oid.len()
        invariant
            from <= i <= oid@.len(),
            s@ == spec_oid_to_string(oid@.subrange(from as int, i as int)),
        decreases oid.len() - i,
    {
        let ghost parts = oid@.subrange(from as int, i as int).map_values(|o: u32| spec_decimal(o as nat));
        proof {
            assert(oid@.subrange(from as int, i + 1).map_values(|o: u32| spec_decimal(o as nat))
                =~= parts.push(spec_decimal(oid@[i as int] as nat)));
            lemma_join_push(parts, spec_decimal(oid@[i as int] as nat), '.');
        }
        if i > from {
            push_char(&mut s, '.');
        }
        push_decimal(&mut s, oid[i] as u64);
        i += 1;
    }
    s
}

/// The arcs of `oid` from index `from` on, each in lowercase hexadecimal of
/// at least two digits, joined with ':'.
fn hex_arcs_from(oid: &[u32], from: usize) -> (r: String)
    requires
        from <= oid@.len(),
    ensures
        r@ == spec_join(
            oid@.subrange(from as int, oid@.len() as int).map_values(|a: u32| spec_hex_min2(a as nat)),
            ':',
        ),
{
    let mut s = String::new();
    let mut i: usize = from;
    while i < oid.len()
        invariant
            from <= i <= oid@.len(),
            s@ == spec_join(
                oid@.subrange(from as int, i as int).map_values(|a: u32| spec_hex_min2(a as nat)),
                ':',
            ),
        decreases oid.len() - i,
    {
        let ghost parts = oid@.subrange(from as int, i as int).map_values(|a: u32| spec_hex_min2(a as nat));
        proof {
            assert(oid@.subrange(from as int, i + 1).map_values(|a: u32| spec_hex_min2(a as nat))
                =~= parts.push(spec_hex_min2(oid@[i as int] as nat)));
            lemma_join_push(parts, spec_hex_min2(oid@[i as int] as nat), ':');
        }
        if i > from {
            push_char(&mut s, ':');
        }
        push_hex_min2(&mut s, oid[i]);
        i += 1;
    }
    s
}

/// Bytes in two-digit lowercase hexadecimal joined with ':'.
fn hex_bytes(bytes: &[u8]) -> (r: String)
    ensures
        r@ == spec_join(bytes@.map_values(|b: u8| spec_hex2(b)), ':'),
{
    let mut s = String::new();
    let mut i: usize = 0;
    while i < bytes.len()
        invariant
            i <= bytes@.len(),
            s@ == spec_join(bytes@.subrange(0, i as int).map_values(|b: u8| spec_hex2(b)), ':'),
        decreases bytes.len() - i,
    {
        let ghost parts = bytes@.subrange(0, i as int).map_values(|b: u8| spec_hex2(b));
        proof {
            assert(bytes@.subrange(0, i + 1).map_values(|b: u8| spec_hex2(b)) =~= parts.push(
                spec_hex2(bytes@[i as int]),
            ));
            lemma_join_push(parts, spec_hex2(bytes@[i as int]), ':');
        }
        if i > 0 {
            push_char(&mut s, ':');
        }
        push_hex2(&mut s, bytes[i]);
        i += 1;
    }
    proof {
        assert(bytes@.subrange(0, bytes@.len() as int) =~= bytes@);
    }
    s
}

/// The bits of an `i32` read as `u32` (Rust's `as` cast).
pub open spec fn i32_bits(x: i32) -> u32 {
    if x >= 0 {
        x as u32
    } else {
        (x + 0x1_0000_0000) as u32
    }
}

/// A `u32` reinterpreted as `i32` (Rust's `as` cast).
pub open spec fn u32_as_i32(x: u32) -> i32 {
    if x < 0x8000_0000 {
        x as i32
    } else {
        (x - 0x1_0000_0000) as i32
    }
}

/// Rust's `x as u32` for an `i32`.
pub fn i32_to_u32_bits(x: i32) -> (r: u32)
    ensures
        r == i32_bits(x),
{
    if x >= 0 {
        x as u32
    } else {
        (x as i64 + 0x1_0000_0000) as u32
    }
}

/// Rust's `x as i32` for a `u32`.
pub fn u32_to_i32_bits(x: u32) -> (r: i32)
    ensures
        r == u32_as_i32(x),
{
    if x < 0x8000_0000 {
        x as i32
    } else {
        (x as i64 - 0x1_0000_0000) as i32
    }
}

/// The value of the first table row whose OID ends in `key`.
pub open spec fn spec_find_value(table: Seq<(Seq<u32>, Seq<u8>)>, key: u32) -> Option<Seq<u8>>
    decreases table.len(),
{
    if table.len() == 0 {
        None
    } else if table[0].0.len() > 0 && table[0].0.last() == key {
        Some(table[0].1)
    } else {
        spec_find_value(table.drop_first(), key)
    }
}

/// Find the value of the table row for an interface index.
pub fn find_value_for_index(table: &[VarBind], index: i32) -> (r: Option<Vec<u8>>)
    ensures
        match spec_find_value(varbinds_view(table@), i32_bits(index)) {
            Some(v) => r matches Some(x) && x@ == v,
            None => r is None,
        },
{
    let key = i32_to_u32_bits(index);
    let ghost view = varbinds_view(table@);
    let mut i: usize = 0;
    proof {
        assert(view.skip(0) =~= view);
    }
    while i < table.len()
        invariant
            i <= table@.len(),
            view == varbinds_view(table@),
            key == i32_bits(index),
            spec_find_value(view, key) == spec_find_value(view.skip(i as int), key),
        decreases table.len() - i,
    {
        let oid = &table[i].0;
        proof {
            assert(view.skip(i as int).drop_first() =~= view.skip(i + 1));
            assert(view.skip(i as int)[0] == view[i as int]);
            assert(view[i as int] == (table@[i as int].0@, table@[i as int].1@));
        }
        if oid.len() > 0 && oid[oid.len() - 1] == key {
            proof {
                assert(view.skip(i as int)[0].0 == oid@);
                assert(oid@.last() == key);
                assert(view.skip(i as int).len() > 0);
                assert(spec_find_value(view.skip(i as int), key) == Some(table@[i as int].1@));
            }
            let value = vstd::slice::slice_to_vec(table[i].1.as_slice());
            assert(value@ == table@[i as int].1@);
            return Some(value);
        }
        i += 1;
    }
    None
}

/// System information from SNMP system group.
#[derive(Debug, Clone)]
pub struct SystemInfo {
    pub description: Option<String>,
    pub object_id: Option<String>,
    pub uptime: Option<i64>,
    pub contact: Option<String>,
    pub name: Option<String>,
    pub location: Option<String>,
    pub services: Option<i64>,
}

/// Interface information from ifTable.
#[derive(Debug, Clone)]
pub struct InterfaceInfo {
    pub ifindex: i32,
    pub descr: String,
    pub if_type: Option<String>,
    pub speed: Option<i64>,
    pub admin_status: Option<i64>,
    pub oper_status: Option<i64>,
}

/// MAC address table entry.
#[derive(Debug, Clone)]
pub struct MacEntry {
    pub mac: String,
    pub bridge_port: i32,
    pub vlan: Option<i32>,
}

/// ARP table entry.
#[derive(Debug, Clone)]
pub struct ArpEntry {
    pub ip: String,
    pub mac: String,
}

/// The bytes of an optional reply value.
pub open spec fn opt_bytes(o: Option<Vec<u8>>) -> Option<Seq<u8>> {
    match o {
        Some(v) => Some(v@),
        None => None,
    }
}

/// The text of an optional string.
pub open spec fn opt_text(o: Option<String>) -> Option<Seq<char>> {
    match o {
        Some(s) => Some(s@),
        None => None,
    }
}

/// An optional value decoded as (lossy) UTF-8 text.
pub open spec fn lossy_text_of(o: Option<Seq<u8>>) -> Option<Seq<char>> {
    match o {
        Some(v) => Some(utf8_lossy_text(v)),
        None => None,
    }
}

/// An optional value read as an INTEGER; `None` when absent or malformed.
pub open spec fn integer_of(o: Option<Seq<u8>>) -> Option<i64> {
    match o {
        Some(v) => match spec_parse_integer(v) {
            Some(x) => Some(x as i64),
            None => None,
        },
        None => None,
    }
}

/// An optional value read as TimeTicks; `None` when absent or malformed.
pub open spec fn timeticks_of(o: Option<Seq<u8>>) -> Option<i64> {
    match o {
        Some(v) => match spec_parse_timeticks(v) {
            Some(x) => Some(x as i64),
            None => None,
        },
        None => None,
    }
}

fn lossy_opt(o: &Option<Vec<u8>>) -> (r: Option<String>)
    ensures
        opt_text(r) == lossy_text_of(opt_bytes(*o)),
{
    match o {
        Some(v) => Some(utf8_lossy(v.as_slice())),
        None => None,
    }
}

fn integer_opt(o: &Option<Vec<u8>>) -> (r: Option<i64>)
    ensures
        r == integer_of(opt_bytes(*o)),
{
    match o {
        Some(v) => parse_integer(v.as_slice()),
        None => None,
    }
}

fn timeticks_opt(o: &Option<Vec<u8>>) -> (r: Option<i64>)
    ensures
        r == timeticks_of(opt_bytes(*o)),
{
    match o {
        Some(v) => parse_timeticks(v.as_slice()),
        None => None,
    }
}

/// The system group from the GET replies for sysDescr, sysObjectID,
/// sysUpTime, sysContact, sysName, sysLocation and sysServices (`None` where
/// a request failed): texts are decoded lossily, the uptime is read as
/// TimeTicks and the services as an INTEGER.
pub fn system_info_from_replies(
    descr: Option<Vec<u8>>,
    object_id: Option<Vec<u8>>,
    uptime: Option<Vec<u8>>,
    contact: Option<Vec<u8>>,
    name: Option<Vec<u8>>,
    location: Option<Vec<u8>>,
    services: Option<Vec<u8>>,
) -> (r: SystemInfo)
    ensures
        opt_text(r.description) == lossy_text_of(opt_bytes(descr)),
        opt_text(r.object_id) == lossy_text_of(opt_bytes(object_id)),
        r.uptime == timeticks_of(opt_bytes(uptime)),
        opt_text(r.contact) == lossy_text_of(opt_bytes(contact)),
        opt_text(r.name) == lossy_text_of(opt_bytes(name)),
        opt_text(r.location) == lossy_text_of(opt_bytes(location)),
        r.services == integer_of(opt_bytes(services)),
{
    SystemInfo {
        description: lossy_opt(&descr),
        object_id: lossy_opt(&object_id),
        uptime: timeticks_opt(&uptime),
        contact: lossy_opt(&contact),
        name: lossy_opt(&name),
        location: lossy_opt(&location),
        services: integer_opt(&services),
    }
}

/// The row key of a table OID: its last arc, or 0 for an empty OID.
pub open spec fn row_key(oid: Seq<u32>) -> u32 {
    if oid.len() > 0 {
        oid.last()
    } else {
        0
    }
}

/// `info` is the interface described by the ifDescr row `row`, with its
/// type, speed and statuses taken from the rows of the other columns whose
/// OIDs end in the same index.
pub open spec fn interface_from_row(
    info: InterfaceInfo,
    row: (Seq<u32>, Seq<u8>),
    types: Seq<(Seq<u32>, Seq<u8>)>,
    speeds: Seq<(Seq<u32>, Seq<u8>)>,
    admin: Seq<(Seq<u32>, Seq<u8>)>,
    oper: Seq<(Seq<u32>, Seq<u8>)>,
) -> bool {
    let key = row_key(row.0);
    &&& info.ifindex == u32_as_i32(key)
    &&& info.descr@ == utf8_lossy_text(row.1)
    &&& opt_text(info.if_type) == lossy_text_of(spec_find_value(types, key))
    &&& info.speed == integer_of(spec_find_value(speeds, key))
    &&& info.admin_status == integer_of(spec_find_value(admin, key))
    &&& info.oper_status == integer_of(spec_find_value(oper, key))
}

proof fn lemma_i32_round_trip(x: u32)
    ensures
        i32_bits(u32_as_i32(x)) == x,
{
}

/// The interfaces of a device from the walks of ifDescr, ifType, ifSpeed,
/// ifAdminStatus and ifOperStatus: one per ifDescr row, in order.
pub fn interfaces_from_walks(
    if_descr: &[VarBind],
    if_type: &[VarBind],
    if_speed: &[VarBind],
    if_admin_status: &[VarBind],
    if_oper_status: &[VarBind],
) -> (r: Vec<InterfaceInfo>)
    ensures
        r@.len() == if_descr@.len(),
        forall|i: int|
            0 <= i < r@.len() ==> interface_from_row(
                #[trigger] r@[i],
                varbinds_view(if_descr@)[i],
                varbinds_view(if_type@),
                varbinds_view(if_speed@),
                varbinds_view(if_admin_status@),
                varbinds_view(if_oper_status@),
            ),
{
    let mut interfaces: Vec<InterfaceInfo> = Vec::new();
    let mut i: usize = 0;
    while i < if_descr.len()
        invariant
            i <= if_descr@.len(),
            interfaces@.len() == i,
            forall|j: int|
                0 <= j < i ==> interface_from_row(
                    #[trigger] interfaces@[j],
                    varbinds_view(if_descr@)[j],
                    varbinds_view(if_type@),
                    varbinds_view(if_speed@),
                    varbinds_view(if_admin_status@),
                    varbinds_view(if_oper_status@),
                ),
        decreases if_descr.len() - i,
    {
        let oid = &if_descr[i].0;
        let key: u32 = if oid.len() > 0 {
            oid[oid.len() - 1]
        } else {
            0
        };
        let ifindex = u32_to_i32_bits(key);
        proof {
            lemma_i32_round_trip(key);
            assert(varbinds_view(if_descr@)[i as int] == (if_descr@[i as int].0@, if_descr@[i as int].1@));
        }
        let if_type_value = find_value_for_index(if_type, ifindex);
        let speed_value = find_value_for_index(if_speed, ifindex);
        let admin_value = find_value_for_index(if_admin_status, ifindex);
        let oper_value = find_value_for_index(if_oper_status, ifindex);
        proof {
            assert(opt_bytes(if_type_value) == spec_find_value(varbinds_view(if_type@), key));
            assert(opt_bytes(speed_value) == spec_find_value(varbinds_view(if_speed@), key));
            assert(opt_bytes(admin_value) == spec_find_value(varbinds_view(if_admin_status@), key));
            assert(opt_bytes(oper_value) == spec_find_value(varbinds_view(if_oper_status@), key));
        }
        let info = InterfaceInfo {
            ifindex,
            descr: utf8_lossy(if_descr[i].1.as_slice()),
            if_type: lossy_opt(&if_type_value),
            speed: integer_opt(&speed_value),
            admin_status: integer_opt(&admin_value),
            oper_status: integer_opt(&oper_value),
        };
        interfaces.push(info);
        i += 1;
    }
    interfaces
}

/// The text of the MAC address that a forwarding-table OID ends in: its last
/// six arcs in two-digit lowercase hexadecimal, joined with ':'.
pub open spec fn spec_oid_mac(oid: Seq<u32>) -> Seq<char> {
    spec_join(
        oid.subrange(oid.len() - 6, oid.len() as int).map_values(|a: u32| spec_hex_min2(a as nat)),
        ':',
    )
}

/// The bridge port of a forwarding-table row: its value read as an INTEGER
/// (0 when malformed), truncated to 32 bits.
pub open spec fn spec_bridge_port(value: Seq<u8>) -> i32 {
    match spec_parse_integer(value) {
        Some(v) => (v as i64) as i32,
        None => 0i32,
    }
}

/// The MAC entries (address text, bridge port, VLAN) made of the rows of a
/// dot1dTpFdbPort walk: one per row whose OID has at least six arcs, in
/// order, without a VLAN.
pub open spec fn spec_mac_rows(rows: Seq<(Seq<u32>, Seq<u8>)>) -> Seq<(Seq<char>, i32, Option<i32>)>
    decreases rows.len(),
{
    if rows.len() == 0 {
        Seq::empty()
    } else {
        let prev = spec_mac_rows(rows.drop_last());
        let row = rows.last();
        if row.0.len() >= 6 {
            prev.push((spec_oid_mac(row.0), spec_bridge_port(row.1), None))
        } else {
            prev
        }
    }
}

/// The view of MAC entries: address text, bridge port and VLAN.
pub open spec fn mac_entries_view(v: Seq<MacEntry>) -> Seq<(Seq<char>, i32, Option<i32>)> {
    v.map_values(|e: MacEntry| (e.mac@, e.bridge_port, e.vlan))
}

/// The MAC address table from a walk of dot1dTpFdbPort.
pub fn mac_table_from_walk(fdb_port: &[VarBind]) -> (r: Vec<MacEntry>)
    ensures
        mac_entries_view(r@) == spec_mac_rows(varbinds_view(fdb_port@)),
{
    let mut entries: Vec<MacEntry> = Vec::new();
    let mut i: usize = 0;
    while i < fdb_port.len()
        invariant
            i <= fdb_port@.len(),
            mac_entries_view(entries@) == spec_mac_rows(varbinds_view(fdb_port@.subrange(0, i as int))),
        decreases fdb_port.len() - i,
    {
        proof {
            assert(varbinds_view(fdb_port@.subrange(0, i + 1)).drop_last() =~= varbinds_view(
                fdb_port@.subrange(0, i as int),
            ));
            assert(varbinds_view(fdb_port@.subrange(0, i + 1)).last() == (
                fdb_port@[i as int].0@,
                fdb_port@[i as int].1@,
            ));
        }
        let oid = &fdb_port[i].0;
        let bridge_port: i64 = match parse_integer(fdb_port[i].1.as_slice()) {
            Some(v) => v,
            None => 0,
        };
        // MAC is encoded in the last 6 octets of the OID
        if oid.len() >= 6 {
            let mac = hex_arcs_from(oid.as_slice(), oid.len() - 6);
            let entry = MacEntry { mac, bridge_port: bridge_port as i32, vlan: None };
            let ghost old_entries = entries@;
            entries.push(entry);
            proof {
                assert(mac_entries_view(entries@) =~= mac_entries_view(old_entries).push(
                    (entry.mac@, entry.bridge_port, entry.vlan),
                ));
            }
        }
        i += 1;
    }
    proof {
        assert(fdb_port@.subrange(0, fdb_port@.len() as int) =~= fdb_port@);
    }
    entries
}

/// The IP address that an ipNetToMedia OID ends in: its last four arcs in
/// dotted decimal.
pub open spec fn spec_oid_ip(oid: Seq<u32>) -> Seq<char> {
    spec_oid_to_string(oid.subrange(oid.len() - 4, oid.len() as int))
}

/// A physical address in two-digit lowercase hexadecimal bytes joined with ':'.
pub open spec fn spec_mac_bytes(bytes: Seq<u8>) -> Seq<char> {
    spec_join(bytes.map_values(|b: u8| spec_hex2(b)), ':')
}

/// The ARP entries (IP text, MAC text) made of the rows of an
/// ipNetToMediaPhysAddress walk: one per row whose OID has at least four
/// arcs, in order.
pub open spec fn spec_arp_rows(rows: Seq<(Seq<u32>, Seq<u8>)>) -> Seq<(Seq<char>, Seq<char>)>
    decreases rows.len(),
{
    if rows.len() == 0 {
        Seq::empty()
    } else {
        let prev = spec_arp_rows(rows.drop_last());
        let row = rows.last();
        if row.0.len() >= 4 {
            prev.push((spec_oid_ip(row.0), spec_mac_bytes(row.1)))
        } else {
            prev
        }
    }
}

/// The view of ARP entries: IP text and MAC text.
pub open spec fn arp_entries_view(v: Seq<ArpEntry>) -> Seq<(Seq<char>, Seq<char>)> {
    v.map_values(|e: ArpEntry| (e.ip@, e.mac@))
}

/// The ARP table from a walk of ipNetToMediaPhysAddress.
pub fn arp_table_from_walk(arp_phys: &[VarBind]) -> (r: Vec<ArpEntry>)
    ensures
        arp_entries_view(r@) == spec_arp_rows(varbinds_view(arp_phys@)),
{
    let mut entries: Vec<ArpEntry> = Vec::new();
    let mut i: usize = 0;
    while i < arp_phys.len()
        invariant
            i <= arp_phys@.len(),
            arp_entries_view(entries@) == spec_arp_rows(varbinds_view(arp_phys@.subrange(0, i as int))),
        decreases arp_phys.len() - i,
    {
        proof {
            assert(varbinds_view(arp_phys@.subrange(0, i + 1)).drop_last() =~= varbinds_view(
                arp_phys@.subrange(0, i as int),
            ));
            assert(varbinds_view(arp_phys@.subrange(0, i + 1)).last() == (
                arp_phys@[i as int].0@,
                arp_phys@[i as int].1@,
            ));
        }
        let oid = &arp_phys[i].0;
        // IP is encoded in the last 4 octets of the OID
        if oid.len() >= 4 {
            let ip = dotted_decimal_from(oid.as_slice(), oid.len() - 4);
            let mac = hex_bytes(arp_phys[i].1.as_slice());
            let entry = ArpEntry { ip, mac };
            let ghost old_entries = entries@;
            entries.push(entry);
            proof {
                assert(arp_entries_view(entries@) =~= arp_entries_view(old_entries).push(
                    (entry.ip@, entry.mac@),
                ));
            }
        }
        i += 1;
    }
    proof {
        assert(arp_phys@.subrange(0, arp_phys@.len() as int) =~= arp_phys@);
    }
    entries
}

} // verus!

//! Building SNMP request messages.

use vstd::prelude::*;

use crate::snmp::ber::{encode_length, spec_encode_length};
use crate::snmp::client::{SnmpVersion, spec_version_byte};
use vstd::string::StringSliceAdditionalSpecFns;

verus! {

/// A tag-length-value: the tag, the BER length of the content, the content.
pub open spec fn spec_tlv(tag: u8, content: Seq<u8>) -> Seq<u8> {
    seq![tag] + spec_encode_length(content.len()) + content
}

/// The base-128 groups of `x` above the last one, most significant first,
/// each with the continuation bit set.
pub open spec fn spec_high_groups(x: nat) -> Seq<u8>
    decreases x,
{
    if x == 0 {
        Seq::empty()
    } else {
        spec_high_groups(x / 128) + seq![(x % 128 + 128) as u8]
    }
}

/// The BER bytes of one OID sub-identifier: a single byte below 128,
/// otherwise base-128 groups with the continuation bit on all but the last.
pub open spec fn spec_arc_bytes(c: u32) -> Seq<u8> {
    if c < 128 {
        seq![c as u8]
    } else {
        spec_high_groups((c / 128) as nat) + seq![(c % 128) as u8]
    }
}

/// The bytes of a run of sub-identifiers.
pub open spec fn spec_arcs_bytes(s: Seq<u32>) -> Seq<u8>
    decreases s.len(),
{
    if s.len() == 0 {
        Seq::empty()
    } else {
        spec_arcs_bytes(s.drop_last()) + spec_arc_bytes(s.last())
    }
}

/// The content bytes of an OBJECT IDENTIFIER: `40 * a + b` for the first two
/// arcs (as one byte), then the remaining arcs; empty for fewer than two arcs.
pub open spec fn spec_oid_content(oid: Seq<u32>) -> Seq<u8> {
    if oid.len() >= 2 {
        seq![((oid[0] * 40 + oid[1]) % 256) as u8] + spec_arcs_bytes(oid.skip(2))
    } else {
        Seq::empty()
    }
}

/// The variable-binding list of a request: one binding of `oid` to NULL.
pub open spec fn spec_varbind_list(oid: Seq<u32>) -> Seq<u8> {
    spec_tlv(0x30, spec_tlv(0x30, spec_tlv(0x06, spec_oid_content(oid)) + seq![0x05u8, 0x00u8]))
}

/// The four big-endian bytes of a 32-bit value.
pub open spec fn spec_be4(x: u32) -> Seq<u8> {
    seq![
        (x / 0x100_0000) as u8,
        ((x / 0x1_0000) % 256) as u8,
        ((x / 256) % 256) as u8,
        (x % 256) as u8,
    ]
}

/// The big-endian bytes of a 32-bit value without leading zero bytes,
/// keeping at least one byte.
pub open spec fn spec_min_be(x: u32) -> Seq<u8> {
    if x >= 0x100_0000 {
        spec_be4(x)
    } else if x >= 0x1_0000 {
        spec_be4(x).skip(1)
    } else if x >= 256 {
        spec_be4(x).skip(2)
    } else {
        spec_be4(x).skip(3)
    }
}

/// The content bytes of a non-negative INTEGER: the minimal big-endian
/// bytes, with a leading zero byte when the top bit of the first is set so
/// that the value does not read as negative.
pub open spec fn spec_uint_content(x: u32) -> Seq<u8> {
    if spec_min_be(x)[0] >= 0x80 {
        seq![0x00u8] + spec_min_be(x)
    } else {
        spec_min_be(x)
    }
}

/// The PDU fields before the bindings: request-id as a four-byte INTEGER,
/// then non-repeaters 0 and max-repetitions for a bulk request, or
/// error-status 0 and error-index 0 otherwise.
pub open spec fn spec_pdu_fields(request_id: u32, max_repetitions: Option<u32>) -> Seq<u8> {
    seq![0x02u8, 0x04u8] + spec_be4(request_id) + match max_repetitions {
        Some(m) => seq![0x02u8, 0x01u8, 0x00u8, 0x02u8, spec_uint_content(m).len() as u8]
            + spec_uint_content(m),
        None => seq![0x02u8, 0x01u8, 0x00u8, 0x02u8, 0x01u8, 0x00u8],
    }
}

/// A complete SNMP message: SEQUENCE of version, community and the PDU.
pub open spec fn spec_build_pdu(
    pdu_type: u8,
    version: SnmpVersion,
    community: Seq<u8>,
    oid: Seq<u32>,
    max_repetitions: Option<u32>,
    request_id: u32,
) -> Seq<u8> {
    spec_tlv(
        0x30,
        seq![0x02u8, 0x01u8, spec_version_byte(version)] + spec_tlv(0x04, community) + spec_tlv(
            pdu_type,
            spec_pdu_fields(request_id, max_repetitions) + spec_varbind_list(oid),
        ),
    )
}

/// Arcs that the message builder accepts: the first two fit the
/// `40 * a + b` computation in 32 bits.
pub open spec fn oid_arith_ok(oid: Seq<u32>) -> bool {
    oid.len() >= 2 ==> oid[0] * 40 + oid[1] <= u32::MAX
}

/// Wrap `content` as a tag-length-value.
fn tlv(tag: u8, content: Vec<u8>) -> (r: Vec<u8>)
    ensures
        r@ == spec_tlv(tag, content@),
{
    let ghost c = content@;
    let mut content = content;
    let mut out: Vec<u8> = Vec::new();
    out.push(tag);
    encode_length(&mut out, content.len());
    out.append(&mut content);
    proof {
        assert(out@ =~= spec_tlv(tag, c));
    }
    out
}

/// Append the high base-128 groups of `x`.
fn push_high_groups(buf: &mut Vec<u8>, x: u32)
    ensures
        final(buf)@ == old(buf)@ + spec_high_groups(x as nat),
    decreases x,
{
    if x == 0 {
        proof {
            assert(old(buf)@ + spec_high_groups(0) =~= old(buf)@);
        }
        return;
    }
    push_high_groups(buf, x / 128);
    buf.push((x % 128 + 128) as u8);
    proof {
        assert(final(buf)@ =~= old(buf)@ + spec_high_groups(x as nat));
    }
}

/// The content bytes of an OBJECT IDENTIFIER.
pub fn encode_oid(oid: &[u32]) -> (r: Vec<u8>)
    requires
        oid_arith_ok(oid@),
    ensures
        r@ == spec_oid_content(oid@),
{
    let mut out: Vec<u8> = Vec::new();
    if oid.len() >= 2 {
        out.push(((oid[0] * 40 + oid[1]) % 256) as u8);
        let mut i: usize = 2;
        proof {
            assert(oid@.subrange(2, 2) =~= Seq::<u32>::empty());
        }
        while i < oid.len()
            invariant
                2 <= i <= oid@.len(),
                out@ == seq![((oid@[0] * 40 + oid@[1]) % 256) as u8] + spec_arcs_bytes(
                    oid@.subrange(2, i as int),
                ),
            decreases oid.len() - i,
        {
            let c = oid[i];
            let ghost before = out@;
            if c < 128 {
                out.push(c as u8);
            } else {
                push_high_groups(&mut out, c / 128);
                out.push((c % 128) as u8);
            }
            proof {
                let s = oid@.subrange(2, i + 1);
                assert(s.drop_last() =~= oid@.subrange(2, i as int));
                assert(s.last() == c);
                assert(out@ =~= before + spec_arc_bytes(c));
            }
            i += 1;
        }
        proof {
            assert(oid@.subrange(2, oid@.len() as int) =~= oid@.skip(2));
        }
    }
    out
}

/// Append the four big-endian bytes of `x`.
fn push_be4(buf: &mut Vec<u8>, x: u32)
    ensures
        final(buf)@ == old(buf)@ + spec_be4(x),
{
    buf.push((x / 0x100_0000) as u8);
    buf.push(((x / 0x1_0000) % 256) as u8);
    buf.push(((x / 256) % 256) as u8);
    buf.push((x % 256) as u8);
    proof {
        assert(final(buf)@ =~= old(buf)@ + spec_be4(x));
    }
}

/// Append the minimal big-endian bytes of `x`.
fn push_min_be(buf: &mut Vec<u8>, x: u32)
    ensures
        final(buf)@ == old(buf)@ + spec_min_be(x),
{
    if x >= 0x100_0000 {
        buf.push((x / 0x100_0000) as u8);
    }
    if x >= 0x1_0000 {
        buf.push(((x / 0x1_0000) % 256) as u8);
    }
    if x >= 256 {
        buf.push(((x / 256) % 256) as u8);
    }
    buf.push((x % 256) as u8);
    proof {
        assert(final(buf)@ =~= old(buf)@ + spec_min_be(x));
    }
}

/// The variable-binding list binding `oid` to NULL.
fn varbind_list_bytes(oid: &[u32]) -> (r: Vec<u8>)
    requires
        oid_arith_ok(oid@),
    ensures
        r@ == spec_varbind_list(oid@),
{
    let mut varbind_content = tlv(0x06, encode_oid(oid));
    varbind_content.push(0x05);
    varbind_content.push(0x00);
    proof {
        assert(varbind_content@ =~= spec_tlv(0x06, spec_oid_content(oid@)) + seq![0x05u8, 0x00u8]);
    }
    tlv(0x30, tlv(0x30, varbind_content))
}

/// The PDU fields that precede the variable bindings.
fn pdu_fields(request_id: u32, max_repetitions: Option<u32>) -> (r: Vec<u8>)
    ensures
        r@ == spec_pdu_fields(request_id, max_repetitions),
{
    let mut pdu_content: Vec<u8> = Vec::new();
    pdu_content.push(0x02);
    pdu_content.push(0x04);
    push_be4(&mut pdu_content, request_id);
    match max_repetitions {
        Some(max_rep) => {
            pdu_content.push(0x02);
            pdu_content.push(0x01);
            pdu_content.push(0x00);
            pdu_content.push(0x02);
            let mut significant: Vec<u8> = Vec::new();
            if max_rep >= 0x8000_0000 || (max_rep < 0x100_0000 && max_rep >= 0x80_0000) || (
            max_rep < 0x1_0000 && max_rep >= 0x8000) || (max_rep < 256 && max_rep >= 0x80) {
                // A positive INTEGER whose first byte has the top bit set
                // needs a leading zero byte.
                significant.push(0x00);
            }
            push_min_be(&mut significant, max_rep);
            proof {
                assert(significant@ =~= spec_uint_content(max_rep));
            }
            pdu_content.push(significant.len() as u8);
            pdu_content.append(&mut significant);
        },
        None => {
            pdu_content.push(0x02);
            pdu_content.push(0x01);
            pdu_content.push(0x00);
            pdu_content.push(0x02);
            pdu_content.push(0x01);
            pdu_content.push(0x00);
        },
    }
    proof {
        assert(pdu_content@ =~= spec_pdu_fields(request_id, max_repetitions));
    }
    pdu_content
}

/// Build an SNMP message with the given request identifier.
pub fn build_pdu_with_id(
    pdu_type: u8,
    version: &SnmpVersion,
    community: &str,
    oid: &[u32],
    max_repetitions: Option<u32>,
    request_id: u32,
) -> (r: Vec<u8>)
    requires
        oid_arith_ok(oid@),
    ensures
        r@ == spec_build_pdu(
            pdu_type,
            *version,
            community.spec_bytes(),
            oid@,
            max_repetitions,
            request_id,
        ),
{
    let mut pdu_content = pdu_fields(request_id, max_repetitions);
    let mut varbind_list = varbind_list_bytes(oid);
    pdu_content.append(&mut varbind_list);
    let mut pdu_bytes = tlv(pdu_type, pdu_content);
    let mut comm_bytes = tlv(0x04, vstd::slice::slice_to_vec(community.as_bytes()));

    let mut message_content: Vec<u8> = Vec::new();
    message_content.push(0x02);
    message_content.push(0x01);
    message_content.push(version.version_byte());
    message_content.append(&mut comm_bytes);
    message_content.append(&mut pdu_bytes);
    proof {
        assert(message_content@ =~= seq![0x02u8, 0x01u8, spec_version_byte(*version)] + spec_tlv(
            0x04,
            community.spec_bytes(),
        ) + spec_tlv(
            pdu_type,
            spec_pdu_fields(request_id, max_repetitions) + spec_varbind_list(oid@),
        ));
    }
    tlv(0x30, message_content)
}

/// Draws the request identifier of a new message with `rand::random::<u16>()`.
/// The value is random: nothing is promised of it beyond its type.
#[verifier::external_body]
fn random_request_id() -> (r: u16) {
    rand::random::<u16>()
}

/// Build an SNMP message with a random 16-bit request identifier.
pub fn build_pdu(
    pdu_type: u8,
    version: &SnmpVersion,
    community: &str,
    oid: &[u32],
    max_repetitions: Option<u32>,
) -> (r: Vec<u8>)
    requires
        oid_arith_ok(oid@),
    ensures
        exists|id: u32|
            id < 0x1_0000 && r@ == spec_build_pdu(
                pdu_type,
                *version,
                community.spec_bytes(),
                oid@,
                max_repetitions,
                id,
            ),
{
    let request_id = random_request_id() as u32;
    build_pdu_with_id(pdu_type, version, community, oid, max_repetitions, request_id)
}

/// Build a GetRequest message.
pub fn build_get_pdu(version: &SnmpVersion, community: &str, oid: &[u32]) -> (r: Vec<u8>)
    requires
        oid_arith_ok(oid@),
    ensures
        exists|id: u32|
            id < 0x1_0000 && r@ == spec_build_pdu(
                0xa0,
                *version,
                community.spec_bytes(),
                oid@,
                None,
                id,
            ),
{
    build_pdu(0xa0, version, community, oid, None)
}

/// Build a GetNextRequest message.
pub fn build_getnext_pdu(version: &SnmpVersion, community: &str, oid: &[u32]) -> (r: Vec<u8>)
    requires
        oid_arith_ok(oid@),
    ensures
        exists|id: u32|
            id < 0x1_0000 && r@ == spec_build_pdu(
                0xa1,
                *version,
                community.spec_bytes(),
                oid@,
                None,
                id,
            ),
{
    build_pdu(0xa1, version, community, oid, None)
}

/// Build a GetBulkRequest message with non-repeaters 0.
pub fn build_getbulk_pdu(
    version: &SnmpVersion,
    community: &str,
    oid: &[u32],
    max_repetitions: u32,
) -> (r: Vec<u8>)
    requires
        oid_arith_ok(oid@),
    ensures
        exists|id: u32|
            id < 0x1_0000 && r@ == spec_build_pdu(
                0xa5,
                *version,
                community.spec_bytes(),
                oid@,
                Some(max_repetitions),
                id,
            ),
{
    build_pdu(0xa5, version, community, oid, Some(max_repetitions))
}

} // verus!

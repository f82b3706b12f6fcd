//! The codec's encoder and decoder agree: what the message builder writes,
//! the response parser reads back.

use vstd::prelude::*;

use crate::snmp::ber::{
    SnmpError,
    arc_step,
    be_value,
    spec_decode_oid,
    spec_encode_length,
    spec_oid_arcs,
    spec_read_length,
    spec_read_tag,
    spec_read_tlv,
    spec_skip_tlv,
};
use crate::snmp::client::SnmpVersion;
use crate::snmp::message::{
    spec_arc_bytes,
    spec_arcs_bytes,
    spec_build_pdu,
    spec_high_groups,
    spec_oid_content,
    spec_pdu_fields,
    spec_tlv,
    spec_varbind_list,
    spec_be4,
};
use crate::snmp::response::{
    spec_parse_response,
    spec_response_fields,
    spec_response_header,
    spec_varbinds,
};

verus! {

/// `x` occurs in `data` at `pos`.
pub open spec fn starts_at(data: Seq<u8>, pos: int, x: Seq<u8>) -> bool {
    0 <= pos && pos + x.len() <= data.len() && data.subrange(pos, pos + x.len()) == x
}

proof fn lemma_starts_at_split(data: Seq<u8>, pos: int, a: Seq<u8>, b: Seq<u8>)
    requires
        starts_at(data, pos, a + b),
    ensures
        starts_at(data, pos, a),
        starts_at(data, pos + a.len(), b),
{
    let whole = data.subrange(pos, pos + (a + b).len());
    assert(whole == a + b);
    assert(data.subrange(pos, pos + a.len()) =~= whole.subrange(0, a.len() as int));
    assert(whole.subrange(0, a.len() as int) =~= a);
    assert(data.subrange(pos + a.len(), pos + a.len() + b.len()) =~= whole.subrange(
        a.len() as int,
        (a + b).len() as int,
    ));
    assert(whole.subrange(a.len() as int, (a + b).len() as int) =~= b);
}

proof fn lemma_starts_at_byte(data: Seq<u8>, pos: int, x: Seq<u8>)
    requires
        starts_at(data, pos, x),
        x.len() > 0,
    ensures
        data[pos] == x[0],
{
    assert(data.subrange(pos, pos + x.len())[0] == data[pos]);
}

proof fn lemma_read_encoded_length(data: Seq<u8>, pos: int, n: nat)
    requires
        n < 0x1_0000,
        starts_at(data, pos, spec_encode_length(n)),
    ensures
        spec_read_length(data, pos) == (Ok::<nat, SnmpError>(n), pos + spec_encode_length(n).len()),
{
    let e = spec_encode_length(n);
    assert(data.subrange(pos, pos + e.len()) == e);
    if n < 128 {
        lemma_starts_at_byte(data, pos, e);
    } else if n < 256 {
        lemma_starts_at_byte(data, pos, e);
        assert(data[pos + 1] == e[1]);
        let s = data.subrange(pos + 1, pos + 2);
        assert(s.drop_last().len() == 0);
        assert(be_value(s.drop_last()) == 0);
        assert(be_value(s) == n);
    } else {
        lemma_starts_at_byte(data, pos, e);
        assert(data.subrange(pos, pos + e.len())[1] == data[pos + 1]);
        assert(data.subrange(pos, pos + e.len())[2] == data[pos + 2]);
        let s = data.subrange(pos + 1, pos + 3);
        assert(s.drop_last().drop_last().len() == 0);
        assert(be_value(s.drop_last().drop_last()) == 0);
        assert(s.drop_last().last() == (n / 256) as u8);
        assert(be_value(s.drop_last()) == n / 256);
        assert(be_value(s) == n);
    }
}

proof fn lemma_read_tlv_at(data: Seq<u8>, pos: int, tag: u8, content: Seq<u8>)
    requires
        content.len() < 0x1_0000,
        starts_at(data, pos, spec_tlv(tag, content)),
    ensures
        spec_read_tlv(data, pos) == (
            Ok::<(u8, Seq<u8>), SnmpError>((tag, content)),
            pos + spec_tlv(tag, content).len(),
        ),
        spec_skip_tlv(data, pos) == (
            Ok::<nat, SnmpError>(spec_tlv(tag, content).len()),
            pos + spec_tlv(tag, content).len(),
        ),
{
    let e = spec_encode_length(content.len());
    lemma_starts_at_split(data, pos, seq![tag] + e, content);
    lemma_starts_at_split(data, pos, seq![tag], e);
    lemma_starts_at_byte(data, pos, seq![tag]);
    lemma_read_encoded_length(data, pos + 1, content.len());
}

/// Reading a tag where a tag-length-value starts.
proof fn lemma_read_tag_at(data: Seq<u8>, pos: int, tag: u8, content: Seq<u8>)
    requires
        starts_at(data, pos, spec_tlv(tag, content)),
    ensures
        spec_read_tag(data, pos) == (Ok::<u8, SnmpError>(tag), pos + 1),
        starts_at(data, pos + 1, spec_encode_length(content.len()) + content),
{
    assert(spec_tlv(tag, content) =~= seq![tag] + (spec_encode_length(content.len()) + content));
    lemma_starts_at_split(data, pos, seq![tag], spec_encode_length(content.len()) + content);
    lemma_starts_at_byte(data, pos, seq![tag]);
}

/// Reading the tag and length of a tag-length-value: afterwards the content
/// starts.
proof fn lemma_enter_tlv(data: Seq<u8>, pos: int, tag: u8, content: Seq<u8>)
    requires
        content.len() < 0x1_0000,
        starts_at(data, pos, spec_tlv(tag, content)),
    ensures
        spec_read_tag(data, pos) == (Ok::<u8, SnmpError>(tag), pos + 1),
        spec_read_length(data, pos + 1) == (
            Ok::<nat, SnmpError>(content.len()),
            pos + 1 + spec_encode_length(content.len()).len(),
        ),
        starts_at(data, pos + 1 + spec_encode_length(content.len()).len(), content),
{
    lemma_read_tag_at(data, pos, tag, content);
    let e = spec_encode_length(content.len());
    lemma_starts_at_split(data, pos + 1, e, content);
    lemma_read_encoded_length(data, pos + 1, content.len());
}

/// Decoding after a complete encoding `a` continues with the rest.
proof fn lemma_arcs_concat(a: Seq<u8>, b: Seq<u8>, acc: u32, open: bool)
    requires
        !open ==> acc == 0,
        spec_oid_arcs(a, acc, open) is Ok,
    ensures
        spec_oid_arcs(a + b, acc, open) == (match spec_oid_arcs(b, 0, false) {
            Ok(y) => Ok::<Seq<u32>, SnmpError>(spec_oid_arcs(a, acc, open)->Ok_0 + y),
            Err(e) => Err(e),
        }),
    decreases a.len(),
{
    if a.len() == 0 {
        assert(a + b =~= b);
        assert(Seq::<u32>::empty() + spec_oid_arcs(b, 0, false)->Ok_0 =~= spec_oid_arcs(
            b,
            0,
            false,
        )->Ok_0);
    } else {
        assert((a + b).drop_first() =~= a.drop_first() + b);
        assert((a + b)[0] == a[0]);
        let c = arc_step(acc, a[0]);
        if a[0] < 128 {
            lemma_arcs_concat(a.drop_first(), b, 0, false);
            match spec_oid_arcs(b, 0, false) {
                Ok(y) => {
                    let r = spec_oid_arcs(a.drop_first(), 0, false)->Ok_0;
                    assert(seq![c] + (r + y) =~= (seq![c] + r) + y);
                },
                Err(_) => {},
            }
        } else {
            lemma_arcs_concat(a.drop_first(), b, c, true);
        }
    }
}

proof fn lemma_div_mod_128(x: int)
    requires
        x >= 0,
    ensures
        (x / 128) * 128 + x % 128 == x,
        0 <= x % 128 < 128,
{
}

/// The high groups of `x` decode to the open value `x`.
proof fn lemma_high_groups(x: nat, rest: Seq<u8>)
    requires
        0 < x < 0x200_0000,
    ensures
        spec_oid_arcs(spec_high_groups(x) + rest, 0, false) == spec_oid_arcs(rest, x as u32, true),
    decreases x,
{
    lemma_div_mod_128(x as int);
    let hi = x / 128;
    let b = (x % 128 + 128) as u8;
    assert(spec_high_groups(x) == spec_high_groups(hi) + seq![b]);
    assert(b >= 128);
    assert(b as int % 128 == x % 128);
    if hi == 0 {
        assert(spec_high_groups(0) =~= Seq::<u8>::empty());
        assert(spec_high_groups(x) + rest =~= seq![b] + rest);
        assert((seq![b] + rest).drop_first() =~= rest);
        assert(arc_step(0, b) == x as u32);
    } else {
        assert(spec_high_groups(x) + rest =~= spec_high_groups(hi) + (seq![b] + rest));
        lemma_high_groups(hi, seq![b] + rest);
        assert((seq![b] + rest).drop_first() =~= rest);
        assert((seq![b] + rest)[0] == b);
        assert(hi as u32 as int % 0x200_0000 == hi);
        assert(arc_step(hi as u32, b) == x as u32);
    }
}

/// One sub-identifier's bytes decode to that sub-identifier.
proof fn lemma_arc_roundtrip(c: u32)
    ensures
        spec_oid_arcs(spec_arc_bytes(c), 0, false) == Ok::<Seq<u32>, SnmpError>(seq![c]),
{
    if c < 128 {
        let s = seq![c as u8];
        assert(spec_arc_bytes(c) == s);
        assert(s[0] == c as u8);
        assert((c as u8) as int == c);
        assert(s.drop_first() =~= Seq::<u8>::empty());
        assert(spec_oid_arcs(Seq::<u8>::empty(), 0, false) == Ok::<Seq<u32>, SnmpError>(Seq::empty()));
        assert(arc_step(0, c as u8) == c);
        assert(seq![c] + Seq::<u32>::empty() =~= seq![c]);
    } else {
        lemma_div_mod_128(c as int);
        let hi = (c / 128) as nat;
        let lo = (c % 128) as u8;
        lemma_high_groups(hi, seq![lo]);
        assert(spec_arc_bytes(c) == spec_high_groups(hi) + seq![lo]);
        assert(seq![lo].drop_first() =~= Seq::<u8>::empty());
        assert(seq![lo][0] == lo);
        assert(spec_oid_arcs(Seq::<u8>::empty(), 0, false) == Ok::<Seq<u32>, SnmpError>(Seq::empty()));
        assert(arc_step(hi as u32, lo) == c);
        assert(seq![c] + Seq::<u32>::empty() =~= seq![c]);
    }
}

/// A run of sub-identifiers' bytes decodes to that run.
proof fn lemma_arcs_roundtrip(s: Seq<u32>)
    ensures
        spec_oid_arcs(spec_arcs_bytes(s), 0, false) == Ok::<Seq<u32>, SnmpError>(s),
    decreases s.len(),
{
    if s.len() == 0 {
        assert(spec_arcs_bytes(s) =~= Seq::<u8>::empty());
        assert(s =~= Seq::<u32>::empty());
    } else {
        lemma_arcs_roundtrip(s.drop_last());
        lemma_arc_roundtrip(s.last());
        assert(spec_arcs_bytes(s) == spec_arcs_bytes(s.drop_last()) + spec_arc_bytes(s.last()));
        lemma_arcs_concat(spec_arcs_bytes(s.drop_last()), spec_arc_bytes(s.last()), 0, false);
        assert(s.drop_last() + seq![s.last()] =~= s);
    }
}

/// OIDs that the encoding represents faithfully: at least two arcs, the
/// second below 40 and `40 * first + second` within one byte.
pub open spec fn oid_encodable(oid: Seq<u32>) -> bool {
    oid.len() >= 2 && oid[1] < 40 && oid[0] * 40 + oid[1] < 256
}

/// Decoding the content bytes that the message builder writes for an OID
/// gives back the OID, for every OID whose first two arcs fit the one-byte
/// `40 * a + b` form.
pub proof fn lemma_decode_encode_oid(oid: Seq<u32>)
    requires
        oid_encodable(oid),
    ensures
        spec_decode_oid(spec_oid_content(oid)) == Ok::<Seq<u32>, SnmpError>(oid),
{
    let content = spec_oid_content(oid);
    let first = ((oid[0] * 40 + oid[1]) % 256) as u8;
    assert(first == oid[0] * 40 + oid[1]);
    assert(content.drop_first() =~= spec_arcs_bytes(oid.skip(2)));
    lemma_arcs_roundtrip(oid.skip(2));
    assert(first / 40 == oid[0]);
    assert(first % 40 == oid[1]);
    assert(seq![oid[0], oid[1]] + oid.skip(2) =~= oid);
}

/// Reading a BER length field written by the length encoder gives back the
/// length, for every length below 65536.
pub proof fn lemma_read_encode_length(n: nat, rest: Seq<u8>)
    requires
        n < 0x1_0000,
    ensures
        spec_read_length(spec_encode_length(n) + rest, 0) == (
            Ok::<nat, SnmpError>(n),
            spec_encode_length(n).len() as int,
        ),
{
    let data = spec_encode_length(n) + rest;
    assert(data.subrange(0, spec_encode_length(n).len() as int) =~= spec_encode_length(n));
    lemma_read_encoded_length(data, 0, n);
}

proof fn lemma_parse_varbind(data: Seq<u8>, pos: int, oid: Seq<u32>)
    requires
        oid_encodable(oid),
        spec_tlv(0x30, spec_tlv(0x06, spec_oid_content(oid)) + seq![0x05u8, 0x00u8]).len()
            < 0x1_0000,
        starts_at(data, pos, spec_tlv(0x30, spec_tlv(0x06, spec_oid_content(oid)) + seq![0x05u8, 0x00u8])),
        pos + spec_tlv(0x30, spec_tlv(0x06, spec_oid_content(oid)) + seq![0x05u8, 0x00u8]).len()
            == data.len(),
    ensures
        spec_varbinds(data, pos, data.len() as int) == Ok::<Seq<(Seq<u32>, Seq<u8>)>, SnmpError>(
            seq![(oid, Seq::<u8>::empty())],
        ),
{
    let oid_tlv = spec_tlv(0x06, spec_oid_content(oid));
    let null = seq![0x05u8, 0x00u8];
    let inner = oid_tlv + null;
    lemma_enter_tlv(data, pos, 0x30, inner);
    let p2: int = pos + 1 + spec_encode_length(inner.len()).len();
    lemma_starts_at_split(data, p2, oid_tlv, null);
    lemma_read_tlv_at(data, p2, 0x06, spec_oid_content(oid));
    lemma_decode_encode_oid(oid);
    let p3: int = p2 + oid_tlv.len();
    assert(null =~= spec_tlv(0x05, Seq::empty()));
    lemma_read_tlv_at(data, p3, 0x05, Seq::empty());
    let p4 = p3 + null.len();
    assert(p4 == data.len());
    assert(spec_varbinds(data, p4, data.len() as int) == Ok::<Seq<(Seq<u32>, Seq<u8>)>, SnmpError>(Seq::empty()));
    assert(seq![(oid, Seq::<u8>::empty())] + Seq::<(Seq<u32>, Seq<u8>)>::empty() =~= seq![(oid, Seq::<u8>::empty())]);
}

/// The header of a message `SEQUENCE { version, community, [0xa2] body }`:
/// parsing reaches the body.
proof fn lemma_parse_header(data: Seq<u8>, vb: u8, community: Seq<u8>, body: Seq<u8>)
    requires
        data == spec_tlv(
            0x30,
            seq![0x02u8, 0x01u8, vb] + spec_tlv(0x04, community) + spec_tlv(0xa2, body),
        ),
        data.len() < 0x1_0000,
    ensures
        spec_response_header(data) is Ok,
        starts_at(data, spec_response_header(data)->Ok_0, body),
        spec_response_header(data)->Ok_0 + body.len() == data.len(),
{
    let head = seq![0x02u8, 0x01u8, vb];
    let comm = spec_tlv(0x04, community);
    let pdu = spec_tlv(0xa2, body);
    let msg = head + comm + pdu;
    assert(data.subrange(0, data.len() as int) =~= data);
    lemma_enter_tlv(data, 0, 0x30, msg);
    let p1: int = 1 + spec_encode_length(msg.len()).len() as int;
    lemma_starts_at_split(data, p1, head + comm, pdu);
    lemma_starts_at_split(data, p1, head, comm);
    assert(head =~= spec_tlv(0x02, seq![vb]));
    lemma_read_tlv_at(data, p1, 0x02, seq![vb]);
    let p2: int = p1 + 3;
    lemma_read_tlv_at(data, p2, 0x04, community);
    let p3: int = p2 + comm.len();
    lemma_enter_tlv(data, p3, 0xa2, body);
    let p5: int = p3 + 1 + spec_encode_length(body.len()).len();
    assert(spec_response_header(data) == Ok::<int, SnmpError>(p5));
}

/// The PDU fields of a built GetResponse: parsing reaches the single binding.
proof fn lemma_parse_fields(data: Seq<u8>, pos: int, request_id: u32, oid: Seq<u32>)
    requires
        starts_at(data, pos, spec_pdu_fields(request_id, None) + spec_varbind_list(oid)),
        pos + (spec_pdu_fields(request_id, None) + spec_varbind_list(oid)).len() == data.len(),
        data.len() < 0x1_0000,
    ensures
        spec_response_fields(data, pos) is Ok,
        ({
            let (p, n) = spec_response_fields(data, pos)->Ok_0;
            &&& n == spec_tlv(0x30, spec_tlv(0x06, spec_oid_content(oid)) + seq![0x05u8, 0x00u8]).len()
            &&& starts_at(data, p, spec_tlv(0x30, spec_tlv(0x06, spec_oid_content(oid)) + seq![0x05u8, 0x00u8]))
            &&& p + n == data.len()
        }),
{
    let fields = spec_pdu_fields(request_id, None);
    let list = spec_varbind_list(oid);
    let rid = seq![0x02u8, 0x04u8] + spec_be4(request_id);
    let es = seq![0x02u8, 0x01u8, 0x00u8];
    assert(fields =~= rid + es + es);
    lemma_starts_at_split(data, pos, fields, list);
    lemma_starts_at_split(data, pos, rid + es, es);
    lemma_starts_at_split(data, pos, rid, es);
    assert(rid =~= spec_tlv(0x02, spec_be4(request_id)));
    lemma_read_tlv_at(data, pos, 0x02, spec_be4(request_id));
    let p6: int = pos + 6;
    assert(es =~= spec_tlv(0x02, seq![0x00u8]));
    lemma_read_tlv_at(data, p6, 0x02, seq![0x00u8]);
    let p7: int = p6 + 3;
    lemma_read_tlv_at(data, p7, 0x02, seq![0x00u8]);
    let p8: int = p7 + 3;
    let vbind = spec_tlv(0x30, spec_tlv(0x06, spec_oid_content(oid)) + seq![0x05u8, 0x00u8]);
    assert(p8 == pos + fields.len());
    lemma_enter_tlv(data, p8, 0x30, vbind);
    let p10: int = p8 + 1 + spec_encode_length(vbind.len()).len();
    assert(spec_response_fields(data, pos) == Ok::<(int, nat), SnmpError>((p10, vbind.len())));
}

/// A GetResponse message written by the message builder is parsed back into
/// its single variable binding: the OID bound to the empty NULL value. This
/// holds for every OID whose first two arcs fit the one-byte form, every
/// version, community and request identifier, as long as the message is
/// shorter than 65536 bytes (longer lengths are not representable by the
/// length encoder).
pub proof fn lemma_parse_built_response(
    version: SnmpVersion,
    community: Seq<u8>,
    oid: Seq<u32>,
    request_id: u32,
)
    requires
        oid_encodable(oid),
        spec_build_pdu(0xa2, version, community, oid, None, request_id).len() < 0x1_0000,
    ensures
        spec_parse_response(spec_build_pdu(0xa2, version, community, oid, None, request_id))
            == Ok::<Seq<(Seq<u32>, Seq<u8>)>, SnmpError>(seq![(oid, Seq::<u8>::empty())]),
{
    let data = spec_build_pdu(0xa2, version, community, oid, None, request_id);
    let body = spec_pdu_fields(request_id, None) + spec_varbind_list(oid);
    lemma_parse_header(data, crate::snmp::client::spec_version_byte(version), community, body);
    let p5 = spec_response_header(data)->Ok_0;
    lemma_parse_fields(data, p5, request_id, oid);
    let (p10, n) = spec_response_fields(data, p5)->Ok_0;
    lemma_parse_varbind(data, p10, oid);
}

/// 128 to the power `k`.
spec fn p128(k: nat) -> nat
    decreases k,
{
    if k == 0 {
        1
    } else {
        128 * p128((k - 1) as nat)
    }
}

proof fn lemma_high_groups_len(x: nat, k: nat)
    requires
        x < p128(k),
    ensures
        spec_high_groups(x).len() <= k,
    decreases k,
{
    if x != 0 {
        assert(k > 0);
        lemma_high_groups_len(x / 128, (k - 1) as nat);
    }
}

proof fn lemma_arc_bytes_len(c: u32)
    ensures
        spec_arc_bytes(c).len() <= 5,
{
    if c >= 128 {
        reveal_with_fuel(p128, 5);
        assert(p128(4) == 0x1000_0000);
        lemma_high_groups_len((c / 128) as nat, 4);
    }
}

proof fn lemma_arcs_bytes_len(s: Seq<u32>)
    ensures
        spec_arcs_bytes(s).len() <= 5 * s.len(),
    decreases s.len(),
{
    if s.len() > 0 {
        lemma_arcs_bytes_len(s.drop_last());
        lemma_arc_bytes_len(s.last());
    }
}

proof fn lemma_tlv_len(tag: u8, content: Seq<u8>)
    ensures
        spec_tlv(tag, content).len() <= content.len() + 4,
{
}

/// A built message is at most 45 bytes longer than its community and five
/// bytes per OID arc.
proof fn lemma_build_pdu_len(version: SnmpVersion, community: Seq<u8>, oid: Seq<u32>, request_id: u32)
    requires
        oid.len() >= 2,
    ensures
        spec_build_pdu(0xa2, version, community, oid, None, request_id).len() <= community.len() + 5
            * oid.len() + 45,
{
    lemma_arcs_bytes_len(oid.skip(2));
    let oc = spec_oid_content(oid);
    assert(oc.len() <= 1 + 5 * (oid.len() - 2));
    let inner = spec_tlv(0x06, oc) + seq![0x05u8, 0x00u8];
    lemma_tlv_len(0x06, oc);
    lemma_tlv_len(0x30, inner);
    lemma_tlv_len(0x30, spec_tlv(0x30, inner));
    let vl = spec_varbind_list(oid);
    assert(vl.len() <= oc.len() + 14);
    let fields = spec_pdu_fields(request_id, None);
    assert(fields.len() == 12);
    lemma_tlv_len(0xa2, fields + vl);
    lemma_tlv_len(0x04, community);
    let msg = seq![0x02u8, 0x01u8, crate::snmp::client::spec_version_byte(version)] + spec_tlv(0x04, community)
        + spec_tlv(
        0xa2,
        fields + vl,
    );
    lemma_tlv_len(0x30, msg);
}

/// The parser reads back a GetResponse built for an encodable OID, binding
/// it to an empty (NULL) value, whenever the community and the OID are
/// short enough for the message to stay below 65536 bytes (as they are when
/// the community's length plus five bytes per arc stays below 60000).
pub proof fn lemma_parse_built_response_for_short_input(
    version: SnmpVersion,
    community: Seq<u8>,
    oid: Seq<u32>,
    request_id: u32,
)
    requires
        oid_encodable(oid),
        community.len() + 5 * oid.len() < 60000,
    ensures
        spec_parse_response(spec_build_pdu(0xa2, version, community, oid, None, request_id))
            == Ok::<Seq<(Seq<u32>, Seq<u8>)>, SnmpError>(seq![(oid, Seq::<u8>::empty())]),
{
    lemma_build_pdu_len(version, community, oid, request_id);
    lemma_parse_built_response(version, community, oid, request_id);
}

} // verus!

//! BER (Basic Encoding Rules) primitives used by the SNMP codec.
//!
//! Every reader is specified by a spec function over the byte sequence and a
//! position; the spec returns the outcome together with the position that the
//! reader leaves behind, on success and on failure alike.

use vstd::prelude::*;

use crate::util::text::{push_hex2, push_signed_decimal, push_str, spec_hex2, spec_signed_decimal, string_of};

verus! {

/// Errors raised while decoding SNMP messages.
#[derive(Debug, Clone, Copy, PartialEq, Eq, Structural)]
pub enum SnmpError {
    /// A tag was expected but the data ended.
    TagPastEnd,
    /// A length field was expected but the data ended.
    LengthPastEnd,
    /// A long-form length used more than four bytes or ran past the data.
    InvalidLength,
    /// A value's length runs past the end of the data.
    ValuePastEnd,
    /// An OBJECT IDENTIFIER with no content bytes.
    EmptyOid,
    /// An OBJECT IDENTIFIER whose last sub-identifier is unterminated.
    TruncatedOid,
    /// A response shorter than two bytes.
    ResponseTooShort,
    /// The message did not start with a SEQUENCE; the tag found.
    ExpectedSequence(u8),
    /// The PDU was not a GetResponse; the tag found.
    ExpectedGetResponse(u8),
    /// The agent reported a non-zero error-status.
    ErrorStatus(i32),
    /// The variable-binding list was not a SEQUENCE; the tag found.
    ExpectedVarBindList(u8),
    /// A variable binding's name was not an OBJECT IDENTIFIER; the tag found.
    ExpectedOidTag(u8),
    /// A GET response carried no variable binding.
    NoVarbindGet,
    /// A GETNEXT response carried no variable binding.
    NoVarbindGetNext,
}

/// The name of an SNMP error-status value (RFC 1157 / RFC 3416 names for
/// 1 to 7, "unknown" for any other).
pub open spec fn spec_error_status_name(status: i32) -> Seq<char> {
    if status == 1 {
        "tooBig"@
    } else if status == 2 {
        "noSuchName"@
    } else if status == 3 {
        "badValue"@
    } else if status == 4 {
        "readOnly"@
    } else if status == 5 {
        "genErr"@
    } else if status == 6 {
        "noAccess"@
    } else if status == 7 {
        "wrongType"@
    } else {
        "unknown"@
    }
}

/// The name of an SNMP error-status value.
pub fn error_status_name(status: i32) -> (r: &'static str)
    ensures
        r@ == spec_error_status_name(status),
{
    if status == 1 {
        "tooBig"
    } else if status == 2 {
        "noSuchName"
    } else if status == 3 {
        "badValue"
    } else if status == 4 {
        "readOnly"
    } else if status == 5 {
        "genErr"
    } else if status == 6 {
        "noAccess"
    } else if status == 7 {
        "wrongType"
    } else {
        "unknown"
    }
}

/// The text of an error: a fixed sentence, with the offending tag as two
/// hexadecimal digits, or the error-status number and its name.
pub open spec fn spec_error_message(e: SnmpError) -> Seq<char> {
    match e {
        SnmpError::TagPastEnd => "BER: unexpected end of data reading tag"@,
        SnmpError::LengthPastEnd => "BER: unexpected end of data reading length"@,
        SnmpError::InvalidLength => "BER: invalid length encoding"@,
        SnmpError::ValuePastEnd => "BER: value extends past end of data"@,
        SnmpError::EmptyOid => "BER: empty OID"@,
        SnmpError::TruncatedOid => "BER: truncated OID component"@,
        SnmpError::ResponseTooShort => "SNMP response too short"@,
        SnmpError::ExpectedSequence(t) => "SNMP: expected SEQUENCE (0x30), got 0x"@ + spec_hex2(t),
        SnmpError::ExpectedGetResponse(t) => "SNMP: expected GetResponse PDU (0xa2), got 0x"@
            + spec_hex2(t),
        SnmpError::ErrorStatus(st) => "SNMP error-status: "@ + spec_signed_decimal(st as int) + " ("@
            + spec_error_status_name(st) + ")"@,
        SnmpError::ExpectedVarBindList(t) => "SNMP: expected VarBindList SEQUENCE, got 0x"@
            + spec_hex2(t),
        SnmpError::ExpectedOidTag(t) => "SNMP: expected OID tag (0x06), got 0x"@ + spec_hex2(t),
        SnmpError::NoVarbindGet => "SNMP GET: no varbind in response"@,
        SnmpError::NoVarbindGetNext => "SNMP GETNEXT: no varbind in response"@,
    }
}

fn text_with_tag(prefix: &str, tag: u8) -> (r: String)
    ensures
        r@ == prefix@ + spec_hex2(tag),
{
    let mut s = string_of(prefix);
    push_hex2(&mut s, tag);
    s
}

impl SnmpError {
    /// The error's message.
    pub fn message(&self) -> (r: String)
        ensures
            r@ == spec_error_message(*self),
    {
        match self {
            SnmpError::TagPastEnd => string_of("BER: unexpected end of data reading tag"),
            SnmpError::LengthPastEnd => string_of("BER: unexpected end of data reading length"),
            SnmpError::InvalidLength => string_of("BER: invalid length encoding"),
            SnmpError::ValuePastEnd => string_of("BER: value extends past end of data"),
            SnmpError::EmptyOid => string_of("BER: empty OID"),
            SnmpError::TruncatedOid => string_of("BER: truncated OID component"),
            SnmpError::ResponseTooShort => string_of("SNMP response too short"),
            SnmpError::ExpectedSequence(t) => text_with_tag("SNMP: expected SEQUENCE (0x30), got 0x", *t),
            SnmpError::ExpectedGetResponse(t) => text_with_tag(
                "SNMP: expected GetResponse PDU (0xa2), got 0x",
                *t,
            ),
            SnmpError::ErrorStatus(st) => {
                let mut s = string_of("SNMP error-status: ");
                push_signed_decimal(&mut s, *st as i64);
                push_str(&mut s, " (");
                push_str(&mut s, error_status_name(*st));
                push_str(&mut s, ")");
                s
            },
            SnmpError::ExpectedVarBindList(t) => text_with_tag(
                "SNMP: expected VarBindList SEQUENCE, got 0x",
                *t,
            ),
            SnmpError::ExpectedOidTag(t) => text_with_tag("SNMP: expected OID tag (0x06), got 0x", *t),
            SnmpError::NoVarbindGet => string_of("SNMP GET: no varbind in response"),
            SnmpError::NoVarbindGetNext => string_of("SNMP GETNEXT: no varbind in response"),
        }
    }
}

/// 256 to the power `n`.
pub open spec fn pow256(n: nat) -> nat
    decreases n,
{
    if n == 0 {
        1
    } else {
        256 * pow256((n - 1) as nat)
    }
}

/// The unsigned big-endian value of a byte sequence.
pub open spec fn be_value(s: Seq<u8>) -> nat
    decreases s.len(),
{
    if s.len() == 0 {
        0
    } else {
        be_value(s.drop_last()) * 256 + s.last() as nat
    }
}

/// The two's-complement big-endian value of a byte sequence.
pub open spec fn signed_be(s: Seq<u8>) -> int {
    if s.len() > 0 && s[0] >= 128 {
        be_value(s) - pow256(s.len())
    } else {
        be_value(s) as int
    }
}

pub proof fn lemma_pow256_positive(n: nat)
    ensures
        pow256(n) >= 1,
    decreases n,
{
    if n > 0 {
        lemma_pow256_positive((n - 1) as nat);
    }
}

/// A big-endian value of `n` bytes is below `256^n`.
pub proof fn lemma_be_value_bound(s: Seq<u8>)
    ensures
        be_value(s) < pow256(s.len()),
    decreases s.len(),
{
    if s.len() > 0 {
        lemma_be_value_bound(s.drop_last());
        let a = be_value(s.drop_last());
        let p = pow256(s.drop_last().len());
        assert(a * 256 + s.last() < p * 256) by (nonlinear_arith)
            requires
                a < p,
                s.last() < 256,
        ;
    }
}

/// The first byte of a big-endian number carries the weight `256^(n-1)`.
pub proof fn lemma_be_value_first(s: Seq<u8>)
    requires
        s.len() > 0,
    ensures
        be_value(s) == s[0] * pow256((s.len() - 1) as nat) + be_value(s.drop_first()),
    decreases s.len(),
{
    if s.len() == 1 {
        assert(s.drop_last().len() == 0);
        assert(s.drop_first().len() == 0);
        assert(s.last() == s[0]);
        assert(pow256(0) == 1);
        let x = s[0] as int;
        assert(x * pow256(0) == x) by (nonlinear_arith)
            requires
                pow256(0) == 1,
        ;
        assert(be_value(s.drop_first()) == 0);
        assert(be_value(s.drop_last()) == 0);
        assert(be_value(s) == x);
    } else {
        let t = s.drop_last();
        lemma_be_value_first(t);
        assert(t.drop_first() =~= s.drop_first().drop_last());
        assert(t[0] == s[0]);
        assert(s.drop_first().last() == s.last());
        let p = pow256((t.len() - 1) as nat);
        assert(pow256((s.len() - 1) as nat) == 256 * p);
        let b = be_value(t.drop_first());
        assert(be_value(s.drop_first()) == b * 256 + s.last());
        assert(be_value(s) == be_value(t) * 256 + s.last());
        let x = s[0] as int;
        let q = pow256((s.len() - 1) as nat) as int;
        assert((x * p + b) * 256 + s.last() == x * q + (b * 256 + s.last())) by (nonlinear_arith)
            requires
                q == 256 * p,
        ;
        assert(be_value(t) == x * p + b);
        assert(be_value(s) == (x * p + b) * 256 + s.last());
    }
}

/// Outcome and resulting position of reading one tag byte at `pos`.
pub open spec fn spec_read_tag(data: Seq<u8>, pos: int) -> (Result<u8, SnmpError>, int) {
    if 0 <= pos < data.len() {
        (Ok(data[pos]), pos + 1)
    } else {
        (Err(SnmpError::TagPastEnd), pos)
    }
}

/// Outcome and resulting position of reading a BER length field at `pos`:
/// a short form below 128, or `0x80 | n` followed by `n <= 4` big-endian bytes.
pub open spec fn spec_read_length(data: Seq<u8>, pos: int) -> (Result<nat, SnmpError>, int) {
    if !(0 <= pos < data.len()) {
        (Err(SnmpError::LengthPastEnd), pos)
    } else if data[pos] < 128 {
        (Ok(data[pos] as nat), pos + 1)
    } else {
        let n = data[pos] - 128;
        if n > 4 || pos + 1 + n > data.len() {
            (Err(SnmpError::InvalidLength), pos + 1)
        } else {
            (Ok(be_value(data.subrange(pos + 1, pos + 1 + n))), pos + 1 + n)
        }
    }
}

/// Outcome and resulting position of skipping a whole tag-length-value; the
/// outcome is the number of bytes skipped (tag, length field and value).
pub open spec fn spec_skip_tlv(data: Seq<u8>, pos: int) -> (Result<nat, SnmpError>, int) {
    let (t, p1) = spec_read_tag(data, pos);
    match t {
        Err(e) => (Err(e), p1),
        Ok(_) => {
            let (l, p2) = spec_read_length(data, p1);
            match l {
                Err(e) => (Err(e), p2),
                Ok(n) => if p2 + n > data.len() {
                    (Err(SnmpError::ValuePastEnd), p2)
                } else {
                    (Ok((p2 + n - pos) as nat), p2 + n)
                },
            }
        },
    }
}

/// Outcome and resulting position of reading a tag-length-value: the tag and
/// the content bytes.
pub open spec fn spec_read_tlv(data: Seq<u8>, pos: int) -> (Result<(u8, Seq<u8>), SnmpError>, int) {
    let (t, p1) = spec_read_tag(data, pos);
    match t {
        Err(e) => (Err(e), p1),
        Ok(tag) => {
            let (l, p2) = spec_read_length(data, p1);
            match l {
                Err(e) => (Err(e), p2),
                Ok(n) => if p2 + n > data.len() {
                    (Err(SnmpError::ValuePastEnd), p2)
                } else {
                    (Ok((tag, data.subrange(p2, p2 + n))), p2 + n)
                },
            }
        },
    }
}

/// Read a BER tag byte.
pub fn read_tag(data: &[u8], pos: &mut usize) -> (r: Result<u8, SnmpError>)
    ensures
        (r, *final(pos) as int) == spec_read_tag(data@, *old(pos) as int),
{
    if *pos >= data.len() {
        return Err(SnmpError::TagPastEnd);
    }
    let tag = data[*pos];
    *pos += 1;
    Ok(tag)
}

/// Read a BER length field and return the length value.
pub fn read_length(data: &[u8], pos: &mut usize) -> (r: Result<usize, SnmpError>)
    ensures
        *final(pos) as int == spec_read_length(data@, *old(pos) as int).1,
        match spec_read_length(data@, *old(pos) as int).0 {
            Ok(n) => n <= u32::MAX && r == Ok::<usize, SnmpError>(n as usize),
            Err(e) => r == Err::<usize, SnmpError>(e),
        },
{
    if *pos >= data.len() {
        return Err(SnmpError::LengthPastEnd);
    }
    let first = data[*pos];
    *pos += 1;
    if first < 128 {
        Ok(first as usize)
    } else {
        let num_bytes = (first - 128) as usize;
        if num_bytes > 4 || num_bytes > data.len() - *pos {
            return Err(SnmpError::InvalidLength);
        }
        let start = *pos;
        let mut len: usize = 0;
        let mut i: usize = 0;
        while i < num_bytes
            invariant
                num_bytes <= 4,
                start + num_bytes <= data@.len(),
                data@.len() == data.len(),
                i <= num_bytes,
                len as nat == be_value(data@.subrange(start as int, start + i)),
                len < pow256(i as nat),
            decreases num_bytes - i,
        {
            proof {
                lemma_be_value_bound(data@.subrange(start as int, start + i));
                assert(data@.subrange(start as int, start + i + 1).drop_last()
                    =~= data@.subrange(start as int, start + i));
                reveal_with_fuel(pow256, 5);
                assert(pow256(i as nat) <= 0x100_0000);
            }
            let b = data[start + i];
            assert(len * 256 + b < pow256(i as nat) * 256) by (nonlinear_arith)
                requires
                    len < pow256(i as nat),
                    b < 256,
            ;
            len = len * 256 + b as usize;
            i += 1;
        }
        *pos = start + num_bytes;
        proof {
            reveal_with_fuel(pow256, 5);
            assert(pow256(num_bytes as nat) <= 0x1_0000_0000);
            assert(pow256(4) == 0x1_0000_0000);
        }
        Ok(len)
    }
}

/// Skip a BER TLV (tag + length + value), returning the bytes skipped.
pub fn skip_tlv(data: &[u8], pos: &mut usize) -> (r: Result<usize, SnmpError>)
    ensures
        *final(pos) as int == spec_skip_tlv(data@, *old(pos) as int).1,
        match spec_skip_tlv(data@, *old(pos) as int).0 {
            Ok(n) => r == Ok::<usize, SnmpError>(n as usize),
            Err(e) => r == Err::<usize, SnmpError>(e),
        },
{
    let start = *pos;
    match read_tag(data, pos) {
        Err(e) => return Err(e),
        Ok(_) => {},
    }
    let len = match read_length(data, pos) {
        Err(e) => return Err(e),
        Ok(n) => n,
    };
    if len > data.len() - *pos {
        return Err(SnmpError::ValuePastEnd);
    }
    *pos += len;
    Ok(*pos - start)
}

/// Read the content bytes of a TLV, returning the tag and the bytes.
pub fn read_tlv_value(data: &[u8], pos: &mut usize) -> (r: Result<(u8, Vec<u8>), SnmpError>)
    ensures
        *final(pos) as int == spec_read_tlv(data@, *old(pos) as int).1,
        match spec_read_tlv(data@, *old(pos) as int).0 {
            Ok((tag, bytes)) => r matches Ok((t, v)) && t == tag && v@ == bytes,
            Err(e) => r matches Err(e2) && e2 == e,
        },
{
    let tag = match read_tag(data, pos) {
        Err(e) => return Err(e),
        Ok(t) => t,
    };
    let len = match read_length(data, pos) {
        Err(e) => return Err(e),
        Ok(n) => n,
    };
    if len > data.len() - *pos {
        return Err(SnmpError::ValuePastEnd);
    }
    let value = vstd::slice::slice_to_vec(vstd::slice::slice_subrange(data, *pos, *pos + len));
    *pos += len;
    Ok((tag, value))
}


/// One step of accumulating a base-128 sub-identifier: the previous value
/// shifted left by seven bits (within 32 bits) joined with the low seven bits
/// of `b`.
pub open spec fn arc_step(acc: u32, b: u8) -> u32 {
    ((acc as int % 0x200_0000) * 128 + (b as int % 128)) as u32
}

/// The sub-identifiers encoded by `s`, given the partial value `acc` of a
/// sub-identifier that is still open when `open` holds.
pub open spec fn spec_oid_arcs(s: Seq<u8>, acc: u32, open: bool) -> Result<Seq<u32>, SnmpError>
    decreases s.len(),
{
    if s.len() == 0 {
        if open {
            Err(SnmpError::TruncatedOid)
        } else {
            Ok(Seq::empty())
        }
    } else {
        let c = arc_step(acc, s[0]);
        if s[0] < 128 {
            match spec_oid_arcs(s.drop_first(), 0, false) {
                Ok(r) => Ok(seq![c] + r),
                Err(e) => Err(e),
            }
        } else {
            spec_oid_arcs(s.drop_first(), c, true)
        }
    }
}

/// The OBJECT IDENTIFIER encoded by the content bytes `data`: the first byte
/// holds the first two arcs as `40 * a + b`, the rest are base-128 groups.
pub open spec fn spec_decode_oid(data: Seq<u8>) -> Result<Seq<u32>, SnmpError> {
    if data.len() == 0 {
        Err(SnmpError::EmptyOid)
    } else {
        match spec_oid_arcs(data.drop_first(), 0, false) {
            Ok(r) => Ok(seq![(data[0] / 40) as u32, (data[0] % 40) as u32] + r),
            Err(e) => Err(e),
        }
    }
}

/// Decode an OID from BER-encoded bytes.
pub fn decode_oid(data: &[u8]) -> (r: Result<Vec<u32>, SnmpError>)
    ensures
        match spec_decode_oid(data@) {
            Ok(o) => r matches Ok(v) && v@ == o,
            Err(e) => r matches Err(e2) && e2 == e,
        },
{
    if data.len() == 0 {
        return Err(SnmpError::EmptyOid);
    }
    let mut oid: Vec<u32> = Vec::new();
    oid.push((data[0] / 40) as u32);
    oid.push((data[0] % 40) as u32);
    let mut i: usize = 1;
    let mut component: u32 = 0;
    let mut open: bool = false;
    proof {
        assert(data@.skip(1) =~= data@.drop_first());
        assert(oid@ =~= seq![(data@[0] / 40) as u32, (data@[0] % 40) as u32]);
    }
    while i < data.len()
        invariant
            1 <= i <= data.len(),
            spec_decode_oid(data@) == (match spec_oid_arcs(data@.skip(i as int), component, open) {
                Ok(r) => Ok::<Seq<u32>, SnmpError>(oid@ + r),
                Err(e) => Err(e),
            }),
        decreases data.len() - i,
    {
        let byte = data[i];
        let ghost rest = data@.skip(i as int);
        let ghost prev = oid@;
        proof {
            assert(rest.drop_first() =~= data@.skip(i + 1));
            assert(rest[0] == byte);
        }
        component = (component % 0x200_0000) * 128 + (byte % 128) as u32;
        if byte < 128 {
            oid.push(component);
            component = 0;
            open = false;
            proof {
                match spec_oid_arcs(data@.skip(i + 1), 0, false) {
                    Ok(r) => {
                        assert(prev + (seq![oid@.last()] + r) =~= oid@ + r);
                    },
                    Err(e) => {},
                }
            }
        } else {
            open = true;
        }
        i += 1;
    }
    if open {
        return Err(SnmpError::TruncatedOid);
    }
    proof {
        assert(data@.skip(i as int).len() == 0);
        assert(oid@ + Seq::<u32>::empty() =~= oid@);
    }
    Ok(oid)
}

/// BER length field: short form below 128, one length byte after `0x81`
/// below 256, otherwise two bytes after `0x82` (the length taken modulo
/// 65536).
pub open spec fn spec_encode_length(len: nat) -> Seq<u8> {
    if len < 128 {
        seq![len as u8]
    } else if len < 256 {
        seq![0x81u8, len as u8]
    } else {
        seq![0x82u8, ((len / 256) % 256) as u8, (len % 256) as u8]
    }
}

/// Append a BER length field to `buf`.
pub fn encode_length(buf: &mut Vec<u8>, len: usize)
    ensures
        final(buf)@ == old(buf)@ + spec_encode_length(len as nat),
{
    if len < 128 {
        buf.push(len as u8);
    } else if len < 256 {
        buf.push(0x81);
        buf.push(len as u8);
    } else {
        buf.push(0x82);
        buf.push(((len / 256) % 256) as u8);
        buf.push((len % 256) as u8);
    }
    proof {
        assert(final(buf)@ =~= old(buf)@ + spec_encode_length(len as nat));
    }
}

/// A signed BER INTEGER of 1, 2, 4 or 8 content bytes.
pub open spec fn spec_parse_integer(data: Seq<u8>) -> Option<int> {
    if data.len() == 1 || data.len() == 2 || data.len() == 4 || data.len() == 8 {
        Some(signed_be(data))
    } else {
        None
    }
}

/// A TimeTicks value: four content bytes are unsigned, other widths are
/// read as a signed INTEGER.
pub open spec fn spec_parse_timeticks(data: Seq<u8>) -> Option<int> {
    if data.len() == 4 {
        Some(be_value(data) as int)
    } else {
        spec_parse_integer(data)
    }
}

/// The unsigned big-endian value of at most eight bytes.
fn be_u128(data: &[u8]) -> (r: u128)
    requires
        data@.len() <= 8,
    ensures
        r as nat == be_value(data@),
        r < pow256(data@.len()),
{
    let mut v: u128 = 0;
    let mut i: usize = 0;
    while i < data.len()
        invariant
            i <= data@.len() <= 8,
            v as nat == be_value(data@.subrange(0, i as int)),
            v < pow256(i as nat),
        decreases data.len() - i,
    {
        proof {
            assert(data@.subrange(0, i + 1).drop_last() =~= data@.subrange(0, i as int));
            reveal_with_fuel(pow256, 9);
            assert(pow256(i as nat) <= pow256(7));
            assert(pow256(7) == 0x100_0000_0000_0000);
        }
        let b = data[i];
        assert(v * 256 + b < pow256(i as nat) * 256) by (nonlinear_arith)
            requires
                v < pow256(i as nat),
                b < 256,
        ;
        v = v * 256 + b as u128;
        i += 1;
    }
    proof {
        assert(data@.subrange(0, i as int) =~= data@);
    }
    v
}

/// Parse a signed big-endian INTEGER of 1, 2, 4 or 8 bytes.
pub fn parse_integer(data: &[u8]) -> (r: Option<i64>)
    ensures
        match spec_parse_integer(data@) {
            Some(v) => r == Some(v as i64) && i64::MIN <= v <= i64::MAX,
            None => r is None,
        },
{
    let n = data.len();
    if !(n == 1 || n == 2 || n == 4 || n == 8) {
        return None;
    }
    let u = be_u128(data);
    let full: u128 = if n == 1 {
        0x100
    } else if n == 2 {
        0x1_0000
    } else if n == 4 {
        0x1_0000_0000
    } else {
        0x1_0000_0000_0000_0000
    };
    proof {
        reveal_with_fuel(pow256, 9);
        assert(full == pow256(n as nat));
        lemma_be_value_first(data@);
        lemma_be_value_bound(data@.drop_first());
        let rest = be_value(data@.drop_first()) as int;
        let p = pow256((n - 1) as nat) as int;
        let b0 = data@[0] as int;
        assert(full == 256 * p);
        if data@[0] >= 128 {
            vstd::arithmetic::mul::lemma_mul_inequality(128, b0, p);
            assert(b0 * p + rest >= 128 * p);
        } else {
            vstd::arithmetic::mul::lemma_mul_inequality(b0, 127, p);
            assert(b0 * p + rest < 128 * p);
        }
        assert(p <= 0x100_0000_0000_0000);
    }
    let v: i128 = if data[0] >= 128 {
        u as i128 - full as i128
    } else {
        u as i128
    };
    Some(v as i64)
}

/// Parse a TimeTicks value: four bytes unsigned, other widths as INTEGER.
pub fn parse_timeticks(data: &[u8]) -> (r: Option<i64>)
    ensures
        match spec_parse_timeticks(data@) {
            Some(v) => r == Some(v as i64) && 0 <= v + i64::MAX + 1 && v <= i64::MAX,
            None => r is None,
        },
{
    if data.len() == 4 {
        let u = be_u128(data);
        proof {
            reveal_with_fuel(pow256, 5);
        }
        Some(u as i64)
    } else {
        parse_integer(data)
    }
}

} // verus!

//! Parsing SNMP GetResponse messages.

use vstd::prelude::*;

use crate::snmp::ber::{
    SnmpError,
    decode_oid,
    read_length,
    read_tag,
    read_tlv_value,
    skip_tlv,
    spec_decode_oid,
    spec_read_length,
    spec_read_tag,
    spec_read_tlv,
    spec_skip_tlv,
};

verus! {

/// A variable binding: the OID and the raw content bytes of its value.
pub type VarBind = (Vec<u32>, Vec<u8>);

/// The mathematical view of a list of variable bindings.
pub open spec fn varbinds_view(v: Seq<VarBind>) -> Seq<(Seq<u32>, Seq<u8>)> {
    v.map_values(|p: VarBind| (p.0@, p.1@))
}

/// `prev` followed by the bindings of `r`, or the error of `r`.
pub open spec fn prepend_ok(
    prev: Seq<(Seq<u32>, Seq<u8>)>,
    r: Result<Seq<(Seq<u32>, Seq<u8>)>, SnmpError>,
) -> Result<Seq<(Seq<u32>, Seq<u8>)>, SnmpError> {
    match r {
        Ok(s) => Ok(prev + s),
        Err(e) => Err(e),
    }
}

/// Value tags that mark a missing value: noSuchObject, noSuchInstance and
/// endOfMibView.
pub open spec fn is_exception_tag(tag: u8) -> bool {
    tag == 0x80 || tag == 0x81 || tag == 0x82
}

/// The variable bindings found from `pos` while `pos < end`: each a SEQUENCE
/// of an OID and a value; a binding that is not a SEQUENCE ends the list, and
/// bindings whose value is an exception tag are left out.
pub open spec fn spec_varbinds(data: Seq<u8>, pos: int, end: int) -> Result<Seq<(Seq<u32>, Seq<u8>)>, SnmpError>
    decreases data.len() - pos,
{
    if !(0 <= pos && pos < end && pos < data.len()) {
        Ok(Seq::empty())
    } else {
        let (t, p1) = spec_read_tag(data, pos);
        match t {
            Err(e) => Err(e),
            Ok(tag) => if tag != 0x30 {
                Ok(Seq::empty())
            } else {
                let (l, p2) = spec_read_length(data, p1);
                match l {
                    Err(e) => Err(e),
                    Ok(_) => {
                        let (o, p3) = spec_read_tlv(data, p2);
                        match o {
                            Err(e) => Err(e),
                            Ok((otag, obytes)) => if otag != 0x06 {
                                Err(SnmpError::ExpectedOidTag(otag))
                            } else {
                                match spec_decode_oid(obytes) {
                                    Err(e) => Err(e),
                                    Ok(oid) => {
                                        let (v, p4) = spec_read_tlv(data, p3);
                                        match v {
                                            Err(e) => Err(e),
                                            Ok((vtag, vbytes)) => if is_exception_tag(vtag) {
                                                spec_varbinds(data, p4, end)
                                            } else {
                                                prepend_ok(
                                                    seq![(oid, vbytes)],
                                                    spec_varbinds(data, p4, end),
                                                )
                                            },
                                        }
                                    },
                                }
                            },
                        }
                    },
                }
            },
        }
    }
}

/// The error-status carried by the content bytes of the error-status field:
/// the byte itself when there is exactly one, otherwise 0.
pub open spec fn spec_error_status(bytes: Seq<u8>) -> int {
    if bytes.len() == 1 {
        bytes[0] as int
    } else {
        0
    }
}

/// The message header: a SEQUENCE holding the version and community, then a
/// GetResponse PDU (tag 0xa2). Gives the position after the PDU length.
pub open spec fn spec_response_header(data: Seq<u8>) -> Result<int, SnmpError> {
    if data.len() < 2 {
        Err(SnmpError::ResponseTooShort)
    } else {
        let (t0, p0) = spec_read_tag(data, 0);
        match t0 {
            Err(e) => Err(e),
            Ok(tag) => if tag != 0x30 {
                Err(SnmpError::ExpectedSequence(tag))
            } else {
                let (l0, p1) = spec_read_length(data, p0);
                match l0 {
                    Err(e) => Err(e),
                    Ok(_) => {
                        let (s1, p2) = spec_skip_tlv(data, p1);
                        match s1 {
                            Err(e) => Err(e),
                            Ok(_) => {
                                let (s2, p3) = spec_skip_tlv(data, p2);
                                match s2 {
                                    Err(e) => Err(e),
                                    Ok(_) => {
                                        let (t1, p4) = spec_read_tag(data, p3);
                                        match t1 {
                                            Err(e) => Err(e),
                                            Ok(pdu_tag) => if pdu_tag != 0xa2 {
                                                Err(SnmpError::ExpectedGetResponse(pdu_tag))
                                            } else {
                                                let (l1, p5) = spec_read_length(data, p4);
                                                match l1 {
                                                    Err(e) => Err(e),
                                                    Ok(_) => Ok(p5),
                                                }
                                            },
                                        }
                                    },
                                }
                            },
                        }
                    },
                }
            },
        }
    }
}

/// The PDU fields from `pos`: request-id, error-status (which must be 0),
/// error-index, then the VarBindList header. Gives the position of the first
/// binding and the length of the list.
pub open spec fn spec_response_fields(data: Seq<u8>, pos: int) -> Result<(int, nat), SnmpError> {
    let (s3, p6) = spec_skip_tlv(data, pos);
    match s3 {
        Err(e) => Err(e),
        Ok(_) => {
            let (es, p7) = spec_read_tlv(data, p6);
            match es {
                Err(e) => Err(e),
                Ok((_, bytes)) => if spec_error_status(bytes) != 0 {
                    Err(SnmpError::ErrorStatus(spec_error_status(bytes) as i32))
                } else {
                    let (s4, p8) = spec_skip_tlv(data, p7);
                    match s4 {
                        Err(e) => Err(e),
                        Ok(_) => {
                            let (t2, p9) = spec_read_tag(data, p8);
                            match t2 {
                                Err(e) => Err(e),
                                Ok(list_tag) => if list_tag != 0x30 {
                                    Err(SnmpError::ExpectedVarBindList(list_tag))
                                } else {
                                    let (l2, p10) = spec_read_length(data, p9);
                                    match l2 {
                                        Err(e) => Err(e),
                                        Ok(n) => Ok((p10, n)),
                                    }
                                },
                            }
                        },
                    }
                },
            }
        },
    }
}

/// The variable bindings of an SNMP GetResponse message.
pub open spec fn spec_parse_response(data: Seq<u8>) -> Result<Seq<(Seq<u32>, Seq<u8>)>, SnmpError> {
    match spec_response_header(data) {
        Err(e) => Err(e),
        Ok(p) => match spec_response_fields(data, p) {
            Err(e) => Err(e),
            Ok((start, n)) => spec_varbinds(data, start, start + n),
        },
    }
}

/// Read the message header up to the PDU length.
fn parse_header(data: &[u8]) -> (r: Result<usize, SnmpError>)
    ensures
        match spec_response_header(data@) {
            Ok(p) => r == Ok::<usize, SnmpError>(p as usize) && 0 <= p <= data.len(),
            Err(e) => r == Err::<usize, SnmpError>(e),
        },
{
    if data.len() < 2 {
        return Err(SnmpError::ResponseTooShort);
    }
    let mut pos: usize = 0;
    let tag = match read_tag(data, &mut pos) {
        Err(e) => return Err(e),
        Ok(t) => t,
    };
    if tag != 0x30 {
        return Err(SnmpError::ExpectedSequence(tag));
    }
    match read_length(data, &mut pos) {
        Err(e) => return Err(e),
        Ok(_) => {},
    }
    // Version (INTEGER)
    match skip_tlv(data, &mut pos) {
        Err(e) => return Err(e),
        Ok(_) => {},
    }
    // Community (OCTET STRING)
    match skip_tlv(data, &mut pos) {
        Err(e) => return Err(e),
        Ok(_) => {},
    }
    // PDU (context-specific: 0xa2 = GetResponse)
    let pdu_tag = match read_tag(data, &mut pos) {
        Err(e) => return Err(e),
        Ok(t) => t,
    };
    if pdu_tag != 0xa2 {
        return Err(SnmpError::ExpectedGetResponse(pdu_tag));
    }
    match read_length(data, &mut pos) {
        Err(e) => return Err(e),
        Ok(_) => {},
    }
    Ok(pos)
}

/// Read the PDU fields up to the first variable binding.
fn parse_fields(data: &[u8], pos: usize) -> (r: Result<(usize, usize), SnmpError>)
    requires
        pos <= data@.len(),
    ensures
        match spec_response_fields(data@, pos as int) {
            Ok((p, n)) => r == Ok::<(usize, usize), SnmpError>((p as usize, n as usize)) && 0 <= p
                <= data.len() && n <= u32::MAX,
            Err(e) => r == Err::<(usize, usize), SnmpError>(e),
        },
{
    let mut pos = pos;
    // request-id (INTEGER)
    match skip_tlv(data, &mut pos) {
        Err(e) => return Err(e),
        Ok(_) => {},
    }
    // error-status (INTEGER)
    let error_status_bytes = match read_tlv_value(data, &mut pos) {
        Err(e) => return Err(e),
        Ok((_, bytes)) => bytes,
    };
    let error_status: i32 = if error_status_bytes.len() == 1 {
        error_status_bytes[0] as i32
    } else {
        0
    };
    if error_status != 0 {
        return Err(SnmpError::ErrorStatus(error_status));
    }
    // error-index (INTEGER)
    match skip_tlv(data, &mut pos) {
        Err(e) => return Err(e),
        Ok(_) => {},
    }
    // VarBindList (SEQUENCE)
    let tag = match read_tag(data, &mut pos) {
        Err(e) => return Err(e),
        Ok(t) => t,
    };
    if tag != 0x30 {
        return Err(SnmpError::ExpectedVarBindList(tag));
    }
    let list_len = match read_length(data, &mut pos) {
        Err(e) => return Err(e),
        Ok(n) => n,
    };
    Ok((pos, list_len))
}

/// Read the variable bindings from `start` while within `len` bytes of it.
fn parse_varbinds(data: &[u8], start: usize, len: usize) -> (r: Result<Vec<VarBind>, SnmpError>)
    requires
        start <= data@.len(),
    ensures
        match spec_varbinds(data@, start as int, start + len) {
            Ok(s) => r matches Ok(v) && varbinds_view(v@) == s,
            Err(e) => r matches Err(e2) && e2 == e,
        },
{
    let mut pos = start;
    let mut results: Vec<VarBind> = Vec::new();
    let ghost end = start + len;
    while pos < data.len() && pos - start < len
        invariant
            start <= pos <= data@.len(),
            end == start + len,
            spec_varbinds(data@, start as int, end) == prepend_ok(
                varbinds_view(results@),
                spec_varbinds(data@, pos as int, end),
            ),
        decreases data@.len() - pos,
    {
        let ghost prev = results@;
        let ghost p0 = pos as int;
        // VarBind (SEQUENCE)
        let tag = match read_tag(data, &mut pos) {
            Err(e) => return Err(e),
            Ok(t) => t,
        };
        if tag != 0x30 {
            proof {
                assert(varbinds_view(results@) + Seq::empty() =~= varbinds_view(results@));
            }
            return Ok(results);
        }
        match read_length(data, &mut pos) {
            Err(e) => return Err(e),
            Ok(_) => {},
        }
        // OID
        let (oid_tag, oid_bytes) = match read_tlv_value(data, &mut pos) {
            Err(e) => return Err(e),
            Ok(p) => p,
        };
        if oid_tag != 0x06 {
            return Err(SnmpError::ExpectedOidTag(oid_tag));
        }
        let oid = match decode_oid(oid_bytes.as_slice()) {
            Err(e) => return Err(e),
            Ok(o) => o,
        };
        // Value
        let (value_tag, value_bytes) = match read_tlv_value(data, &mut pos) {
            Err(e) => return Err(e),
            Ok(p) => p,
        };
        // Skip endOfMibView, noSuchObject, noSuchInstance
        if !(value_tag == 0x82 || value_tag == 0x80 || value_tag == 0x81) {
            results.push((oid, value_bytes));
            proof {
                assert(varbinds_view(results@) =~= varbinds_view(prev) + seq![
                    (results@.last().0@, results@.last().1@),
                ]);
                match spec_varbinds(data@, pos as int, end) {
                    Ok(s) => {
                        assert(varbinds_view(prev) + (seq![(results@.last().0@, results@.last().1@)] + s)
                            =~= varbinds_view(results@) + s);
                    },
                    Err(_) => {},
                }
            }
        }
    }
    proof {
        assert(varbinds_view(results@) + Seq::empty() =~= varbinds_view(results@));
    }
    Ok(results)
}

/// The first binding of a list, or none.
pub open spec fn first_only<T>(s: Seq<T>) -> Seq<T> {
    if s.len() > 0 {
        seq![s[0]]
    } else {
        Seq::empty()
    }
}

/// All variable bindings of an SNMP GetResponse.
fn parse_all_varbinds(data: &[u8]) -> (r: Result<Vec<VarBind>, SnmpError>)
    ensures
        match spec_parse_response(data@) {
            Ok(s) => r matches Ok(v) && varbinds_view(v@) == s,
            Err(e) => r matches Err(e2) && e2 == e,
        },
{
    let pos = match parse_header(data) {
        Err(e) => return Err(e),
        Ok(p) => p,
    };
    assert(spec_response_header(data@) == Ok::<int, SnmpError>(pos as int));
    let (start, len) = match parse_fields(data, pos) {
        Err(e) => {
            assert(spec_response_fields(data@, pos as int) == Err::<(int, nat), SnmpError>(e));
            return Err(e);
        },
        Ok(p) => p,
    };
    assert(spec_response_fields(data@, pos as int) == Ok::<(int, nat), SnmpError>((start as int, len as nat)));
    parse_varbinds(data, start, len)
}

/// Parse an SNMP response and extract the first varbind (OID, value).
pub fn parse_snmp_response(data: &[u8]) -> (r: Result<Vec<VarBind>, SnmpError>)
    ensures
        match spec_parse_response(data@) {
            Ok(s) => r matches Ok(v) && varbinds_view(v@) == first_only(s),
            Err(e) => r matches Err(e2) && e2 == e,
        },
{
    let mut varbinds = match parse_all_varbinds(data) {
        Err(e) => return Err(e),
        Ok(v) => v,
    };
    let ghost all = varbinds@;
    varbinds.truncate(1);
    proof {
        assert(varbinds_view(varbinds@) =~= first_only(varbinds_view(all)));
    }
    Ok(varbinds)
}


/// Parse a GET response: the value of its first variable binding.
pub fn parse_get_response(data: &[u8]) -> (r: Result<Vec<u8>, SnmpError>)
    ensures
        match spec_parse_response(data@) {
            Ok(s) => if s.len() > 0 {
                r matches Ok(v) && v@ == s[0].1
            } else {
                r == Err::<Vec<u8>, SnmpError>(SnmpError::NoVarbindGet)
            },
            Err(e) => r == Err::<Vec<u8>, SnmpError>(e),
        },
{
    let varbinds = match parse_snmp_response(data) {
        Err(e) => return Err(e),
        Ok(v) => v,
    };
    proof {
        if let Ok(s) = spec_parse_response(data@) {
            assert(varbinds_view(varbinds@).len() == varbinds@.len());
            if s.len() > 0 {
                assert(varbinds_view(varbinds@)[0] == s[0]);
                assert(varbinds_view(varbinds@)[0] == (varbinds@[0].0@, varbinds@[0].1@));
            }
        }
    }
    if varbinds.len() == 0 {
        return Err(SnmpError::NoVarbindGet);
    }
    let mut varbinds = varbinds;
    let (_, value) = varbinds.swap_remove(0);
    Ok(value)
}

/// Parse a GETNEXT response: its first variable binding.
pub fn parse_getnext_response(data: &[u8]) -> (r: Result<VarBind, SnmpError>)
    ensures
        match spec_parse_response(data@) {
            Ok(s) => if s.len() > 0 {
                r matches Ok(v) && v.0@ == s[0].0 && v.1@ == s[0].1
            } else {
                r == Err::<VarBind, SnmpError>(SnmpError::NoVarbindGetNext)
            },
            Err(e) => r matches Err(e2) && e2 == e,
        },
{
    let varbinds = match parse_snmp_response(data) {
        Err(e) => return Err(e),
        Ok(v) => v,
    };
    proof {
        if let Ok(s) = spec_parse_response(data@) {
            assert(varbinds_view(varbinds@).len() == varbinds@.len());
            if s.len() > 0 {
                assert(varbinds_view(varbinds@)[0] == s[0]);
                assert(varbinds_view(varbinds@)[0] == (varbinds@[0].0@, varbinds@[0].1@));
            }
        }
    }
    if varbinds.len() == 0 {
        return Err(SnmpError::NoVarbindGetNext);
    }
    let mut varbinds = varbinds;
    Ok(varbinds.swap_remove(0))
}

/// Parse a GETBULK response: all of its variable bindings.
pub fn parse_getbulk_response(data: &[u8]) -> (r: Result<Vec<VarBind>, SnmpError>)
    ensures
        match spec_parse_response(data@) {
            Ok(s) => r matches Ok(v) && varbinds_view(v@) == s,
            Err(e) => r matches Err(e2) && e2 == e,
        },
{
    parse_all_varbinds(data)
}

} // verus!

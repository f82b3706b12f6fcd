use netdisco::snmp::ber::{
    decode_oid, encode_length, error_status_name, parse_integer, parse_timeticks, read_length, read_tag,
    read_tlv_value, skip_tlv, SnmpError,
};
use netdisco::snmp::client::SnmpVersion;
use netdisco::snmp::message::{
    build_get_pdu, build_getbulk_pdu, build_getnext_pdu, build_pdu, build_pdu_with_id, encode_oid,
};
use netdisco::snmp::response::{
    parse_get_response, parse_getbulk_response, parse_getnext_response, parse_snmp_response,
};

fn tlv(tag: u8, content: &[u8]) -> Vec<u8> {
    let mut out = vec![tag];
    encode_length(&mut out, content.len());
    out.extend_from_slice(content);
    out
}

fn binding(oid: &[u8], value_tag: u8, value: &[u8]) -> Vec<u8> {
    let mut content = tlv(0x06, oid);
    content.extend(tlv(value_tag, value));
    tlv(0x30, &content)
}

fn response_with(pdu_tag: u8, error_status: u8, list_tag: u8, bindings: &[Vec<u8>]) -> Vec<u8> {
    let list: Vec<u8> = bindings.iter().flatten().copied().collect();
    let mut pdu = tlv(0x02, &[0, 0, 0, 1]);
    pdu.extend(tlv(0x02, &[error_status]));
    pdu.extend(tlv(0x02, &[0]));
    pdu.extend(tlv(list_tag, &list));
    let mut msg = tlv(0x02, &[1]);
    msg.extend(tlv(0x04, b"public"));
    msg.extend(tlv(pdu_tag, &pdu));
    tlv(0x30, &msg)
}

fn response(bindings: &[Vec<u8>]) -> Vec<u8> {
    response_with(0xa2, 0, 0x30, bindings)
}

const SYS_NAME_0: [u8; 8] = [0x2b, 6, 1, 2, 1, 1, 5, 0];

#[test]
fn version_bytes() {
    assert_eq!(SnmpVersion::V1.version_byte(), 0);
    assert_eq!(SnmpVersion::V2c.version_byte(), 1);
    assert_eq!(SnmpVersion::V3.version_byte(), 3);
}

#[test]
fn version_from_number() {
    assert_eq!(SnmpVersion::from(1u8), SnmpVersion::V1);
    assert_eq!(SnmpVersion::from(2u8), SnmpVersion::V2c);
    assert_eq!(SnmpVersion::from(3u8), SnmpVersion::V3);
    assert_eq!(SnmpVersion::from(0u8), SnmpVersion::V3);
    assert_eq!(SnmpVersion::from(9u8), SnmpVersion::V3);
}

#[test]
fn encode_length_forms() {
    let mut b = vec![];
    encode_length(&mut b, 5);
    assert_eq!(b, vec![5]);
    let mut b = vec![0xaa];
    encode_length(&mut b, 127);
    assert_eq!(b, vec![0xaa, 127]);
    let mut b = vec![];
    encode_length(&mut b, 200);
    assert_eq!(b, vec![0x81, 200]);
    let mut b = vec![];
    encode_length(&mut b, 300);
    assert_eq!(b, vec![0x82, 0x01, 0x2c]);
    let mut b = vec![];
    encode_length(&mut b, 65535);
    assert_eq!(b, vec![0x82, 0xff, 0xff]);
}

#[test]
fn read_length_forms_and_errors() {
    let mut pos = 0;
    assert_eq!(read_length(&[0x05], &mut pos), Ok(5));
    assert_eq!(pos, 1);
    let mut pos = 0;
    assert_eq!(read_length(&[0x82, 0x01, 0x2c, 0xff], &mut pos), Ok(300));
    assert_eq!(pos, 3);
    let mut pos = 0;
    assert_eq!(read_length(&[0x84, 0, 1, 0, 0], &mut pos), Ok(65536));
    assert_eq!(pos, 5);
    let mut pos = 1;
    assert_eq!(read_length(&[0x05], &mut pos), Err(SnmpError::LengthPastEnd));
    let mut pos = 0;
    assert_eq!(read_length(&[0x85, 1, 1, 1, 1, 1], &mut pos), Err(SnmpError::InvalidLength));
    assert_eq!(pos, 1);
    let mut pos = 0;
    assert_eq!(read_length(&[0x82, 0x01], &mut pos), Err(SnmpError::InvalidLength));
}

#[test]
fn read_tag_and_tlvs() {
    let data = [0x04, 0x03, b'a', b'b', b'c', 0x05, 0x00];
    let mut pos = 0;
    assert_eq!(read_tag(&data, &mut pos), Ok(0x04));
    assert_eq!(pos, 1);
    let mut pos = 7;
    assert_eq!(read_tag(&data, &mut pos), Err(SnmpError::TagPastEnd));
    let mut pos = 0;
    assert_eq!(skip_tlv(&data, &mut pos), Ok(5));
    assert_eq!(pos, 5);
    let mut pos = 0;
    assert_eq!(read_tlv_value(&data, &mut pos), Ok((0x04, b"abc".to_vec())));
    assert_eq!(pos, 5);
    assert_eq!(read_tlv_value(&data, &mut pos), Ok((0x05, vec![])));
    assert_eq!(pos, 7);
    let mut pos = 0;
    assert_eq!(read_tlv_value(&[0x04, 0x05, 1, 2], &mut pos), Err(SnmpError::ValuePastEnd));
    let mut pos = 0;
    assert_eq!(skip_tlv(&[0x04, 0x05, 1, 2], &mut pos), Err(SnmpError::ValuePastEnd));
}

#[test]
fn decode_oid_values_and_errors() {
    assert_eq!(decode_oid(&[0x2b, 6, 1, 2, 1, 1, 5, 0]), Ok(vec![1, 3, 6, 1, 2, 1, 1, 5, 0]));
    assert_eq!(decode_oid(&[0x2b, 0x86, 0x8d, 0x1f]), Ok(vec![1, 3, 99_999]));
    assert_eq!(decode_oid(&[0x2b, 0x81, 0x00]), Ok(vec![1, 3, 128]));
    assert_eq!(decode_oid(&[]), Err(SnmpError::EmptyOid));
    assert_eq!(decode_oid(&[0x2b, 0x86]), Err(SnmpError::TruncatedOid));
}

#[test]
fn encode_oid_values() {
    assert_eq!(encode_oid(&[1, 3, 6, 1, 2, 1, 1, 5, 0]), vec![0x2b, 6, 1, 2, 1, 1, 5, 0]);
    assert_eq!(encode_oid(&[1, 3, 128]), vec![0x2b, 0x81, 0x00]);
    assert_eq!(encode_oid(&[1, 3, 99_999]), vec![0x2b, 0x86, 0x8d, 0x1f]);
    assert_eq!(encode_oid(&[1]), Vec::<u8>::new());
}

#[test]
fn decode_inverts_encode() {
    for oid in [
        vec![1u32, 3, 6, 1, 2, 1, 2, 2, 1, 2, 7],
        vec![1, 3, 6, 1, 4, 1, 9, 9, 23, 1, 2, 1],
        vec![2, 39, 4_000_000_000, 0, 127, 128, 16384],
        vec![0, 0],
    ] {
        assert_eq!(decode_oid(&encode_oid(&oid)), Ok(oid));
    }
}

#[test]
fn read_length_inverts_encode_length() {
    for n in [0usize, 1, 127, 128, 200, 255, 256, 300, 4096, 65535] {
        let mut buf = vec![];
        encode_length(&mut buf, n);
        let mut pos = 0;
        assert_eq!(read_length(&buf, &mut pos), Ok(n));
        assert_eq!(pos, buf.len());
    }
}

#[test]
fn parse_integer_widths() {
    assert_eq!(parse_integer(&[0x05]), Some(5));
    assert_eq!(parse_integer(&[0xff]), Some(-1));
    assert_eq!(parse_integer(&[0x01, 0x00]), Some(256));
    assert_eq!(parse_integer(&[0x80, 0x00]), Some(-32768));
    assert_eq!(parse_integer(&[0x80, 0, 0, 0]), Some(i32::MIN as i64));
    assert_eq!(parse_integer(&[0x3b, 0x9a, 0xca, 0x00]), Some(1_000_000_000));
    assert_eq!(parse_integer(&[0x80, 0, 0, 0, 0, 0, 0, 0]), Some(i64::MIN));
    assert_eq!(parse_integer(&[0x7f, 0xff, 0xff, 0xff, 0xff, 0xff, 0xff, 0xff]), Some(i64::MAX));
    assert_eq!(parse_integer(&[1, 2, 3]), None);
    assert_eq!(parse_integer(&[]), None);
    assert_eq!(parse_integer(&[0; 5]), None);
}

#[test]
fn parse_timeticks_widths() {
    assert_eq!(parse_timeticks(&[0xff, 0xff, 0xff, 0xff]), Some(4_294_967_295));
    assert_eq!(parse_timeticks(&[0x00, 0x01, 0x86, 0xa0]), Some(100_000));
    assert_eq!(parse_timeticks(&[0xff]), Some(-1));
    assert_eq!(parse_timeticks(&[0x01, 0x00]), Some(256));
    assert_eq!(parse_timeticks(&[1, 2, 3]), None);
}

#[test]
fn build_get_message_bytes() {
    let oid = [1, 3, 6, 1, 2, 1, 1, 1, 0];
    let msg = build_pdu_with_id(0xa0, &SnmpVersion::V2c, "public", &oid, None, 0x1234_5678);
    let expected: Vec<u8> = vec![
        0x30, 0x29, 0x02, 0x01, 0x01, 0x04, 0x06, b'p', b'u', b'b', b'l', b'i', b'c', 0xa0, 0x1c,
        0x02, 0x04, 0x12, 0x34, 0x56, 0x78, 0x02, 0x01, 0x00, 0x02, 0x01, 0x00, 0x30, 0x0e, 0x30,
        0x0c, 0x06, 0x08, 0x2b, 0x06, 0x01, 0x02, 0x01, 0x01, 0x01, 0x00, 0x05, 0x00,
    ];
    assert_eq!(msg, expected);
}

#[test]
fn build_getbulk_message_bytes() {
    let oid = [1, 3, 6, 1, 2, 1, 1, 1, 0];
    let msg = build_pdu_with_id(0xa5, &SnmpVersion::V1, "public", &oid, Some(20), 7);
    let expected: Vec<u8> = vec![
        0x30, 0x29, 0x02, 0x01, 0x00, 0x04, 0x06, b'p', b'u', b'b', b'l', b'i', b'c', 0xa5, 0x1c,
        0x02, 0x04, 0x00, 0x00, 0x00, 0x07, 0x02, 0x01, 0x00, 0x02, 0x01, 0x14, 0x30, 0x0e, 0x30,
        0x0c, 0x06, 0x08, 0x2b, 0x06, 0x01, 0x02, 0x01, 0x01, 0x01, 0x00, 0x05, 0x00,
    ];
    assert_eq!(msg, expected);
    let big = build_pdu_with_id(0xa5, &SnmpVersion::V1, "public", &oid, Some(300), 7);
    assert_eq!(&big[21..28], &[0x02, 0x01, 0x00, 0x02, 0x02, 0x01, 0x2c]);
    let zero = build_pdu_with_id(0xa5, &SnmpVersion::V1, "public", &oid, Some(0), 7);
    assert_eq!(&zero[21..27], &[0x02, 0x01, 0x00, 0x02, 0x01, 0x00]);
}

#[test]
fn built_requests_differ_only_in_request_id() {
    let oid = [1, 3, 6, 1, 2, 1, 1, 5, 0];
    for (msg, tag) in [
        (build_get_pdu(&SnmpVersion::V2c, "public", &oid), 0xa0u8),
        (build_getnext_pdu(&SnmpVersion::V2c, "public", &oid), 0xa1),
        (build_pdu(0xa0, &SnmpVersion::V2c, "public", &oid, None), 0xa0),
    ] {
        let reference = build_pdu_with_id(tag, &SnmpVersion::V2c, "public", &oid, None, 0);
        assert_eq!(msg.len(), reference.len());
        assert_eq!(&msg[..17], &reference[..17]);
        assert_eq!(&msg[17..19], &[0, 0]);
        assert_eq!(&msg[21..], &reference[21..]);
    }
    let bulk = build_getbulk_pdu(&SnmpVersion::V2c, "public", &oid, 10);
    let reference = build_pdu_with_id(0xa5, &SnmpVersion::V2c, "public", &oid, Some(10), 0);
    assert_eq!(&bulk[..17], &reference[..17]);
    assert_eq!(&bulk[21..], &reference[21..]);
}

#[test]
fn parse_response_bindings() {
    let data = response(&[
        binding(&SYS_NAME_0, 0x04, b"sw1"),
        binding(&[0x2b, 6, 1, 2, 1, 1, 3, 0], 0x43, &[0x01, 0x00]),
    ]);
    let parsed = parse_getbulk_response(&data).unwrap();
    assert_eq!(
        parsed,
        vec![
            (vec![1, 3, 6, 1, 2, 1, 1, 5, 0], b"sw1".to_vec()),
            (vec![1, 3, 6, 1, 2, 1, 1, 3, 0], vec![0x01, 0x00]),
        ]
    );
    assert_eq!(
        parse_snmp_response(&data),
        Ok(vec![(vec![1, 3, 6, 1, 2, 1, 1, 5, 0], b"sw1".to_vec())])
    );
    assert_eq!(parse_get_response(&data), Ok(b"sw1".to_vec()));
    assert_eq!(
        parse_getnext_response(&data),
        Ok((vec![1, 3, 6, 1, 2, 1, 1, 5, 0], b"sw1".to_vec()))
    );
}

#[test]
fn parse_response_skips_exceptions() {
    let data = response(&[
        binding(&SYS_NAME_0, 0x81, &[]),
        binding(&[0x2b, 6, 1, 2, 1, 1, 6, 0], 0x04, b"lab"),
        binding(&[0x2b, 6, 1, 2, 1, 1, 7, 0], 0x82, &[]),
    ]);
    assert_eq!(
        parse_snmp_response(&data),
        Ok(vec![(vec![1, 3, 6, 1, 2, 1, 1, 6, 0], b"lab".to_vec())])
    );
    let only_exception = response(&[binding(&SYS_NAME_0, 0x80, &[])]);
    assert_eq!(parse_get_response(&only_exception), Err(SnmpError::NoVarbindGet));
    assert_eq!(parse_getnext_response(&only_exception), Err(SnmpError::NoVarbindGetNext));
    assert_eq!(parse_getbulk_response(&only_exception), Ok(vec![]));
}

#[test]
fn parse_response_errors() {
    assert_eq!(parse_snmp_response(&[]), Err(SnmpError::ResponseTooShort));
    assert_eq!(parse_snmp_response(&[0x30]), Err(SnmpError::ResponseTooShort));
    assert_eq!(parse_snmp_response(&[0x31, 0x00]), Err(SnmpError::ExpectedSequence(0x31)));
    let b = [binding(&SYS_NAME_0, 0x04, b"x")];
    assert_eq!(
        parse_snmp_response(&response_with(0xa0, 0, 0x30, &b)),
        Err(SnmpError::ExpectedGetResponse(0xa0))
    );
    assert_eq!(
        parse_snmp_response(&response_with(0xa2, 2, 0x30, &b)),
        Err(SnmpError::ErrorStatus(2))
    );
    assert_eq!(
        parse_snmp_response(&response_with(0xa2, 0, 0x31, &b)),
        Err(SnmpError::ExpectedVarBindList(0x31))
    );
    let mut bad = tlv(0x04, &SYS_NAME_0);
    bad.extend(tlv(0x04, b"x"));
    assert_eq!(
        parse_snmp_response(&response(&[tlv(0x30, &bad)])),
        Err(SnmpError::ExpectedOidTag(0x04))
    );
    assert_eq!(
        parse_snmp_response(&response(&[binding(&[0x2b, 0x86], 0x04, b"x")])),
        Err(SnmpError::TruncatedOid)
    );
    assert_eq!(
        parse_snmp_response(&response(&[binding(&[], 0x04, b"x")])),
        Err(SnmpError::EmptyOid)
    );
    let mut truncated = response(&b);
    truncated.truncate(truncated.len() - 1);
    assert_eq!(parse_snmp_response(&truncated), Err(SnmpError::ValuePastEnd));
}

#[test]
fn parse_response_stops_at_non_sequence_binding() {
    let data = response(&[binding(&SYS_NAME_0, 0x04, b"sw1"), tlv(0x04, b"junk")]);
    assert_eq!(
        parse_snmp_response(&data),
        Ok(vec![(vec![1, 3, 6, 1, 2, 1, 1, 5, 0], b"sw1".to_vec())])
    );
}

#[test]
fn parse_reads_back_a_built_response() {
    let oid = [1, 3, 6, 1, 2, 1, 2, 2, 1, 2, 300];
    let msg = build_pdu_with_id(0xa2, &SnmpVersion::V2c, "community", &oid, None, 99);
    assert_eq!(parse_snmp_response(&msg), Ok(vec![(oid.to_vec(), vec![])]));
}

#[test]
fn skip_tlv_counts_long_lengths() {
    let mut data = vec![0x04, 0x81, 200];
    data.extend(vec![7u8; 200]);
    data.push(0x05);
    let mut pos = 0;
    assert_eq!(skip_tlv(&data, &mut pos), Ok(203));
    assert_eq!(pos, 203);
}

#[test]
fn first_binding_only() {
    let data = [
        0x30, 0x25, 0x02, 0x01, 0x01, 0x04, 0x01, 0x63, 0xa2, 0x1d, 0x02, 0x01, 0x01, 0x02, 0x01,
        0x00, 0x02, 0x01, 0x00, 0x30, 0x12, 0x30, 0x07, 0x06, 0x02, 0x2b, 0x06, 0x02, 0x01, 0x05,
        0x30, 0x07, 0x06, 0x02, 0x2b, 0x07, 0x02, 0x01, 0x06,
    ];
    assert_eq!(parse_snmp_response(&data), Ok(vec![(vec![1, 3, 6], vec![0x05])]));
    assert_eq!(
        parse_getbulk_response(&data),
        Ok(vec![(vec![1, 3, 6], vec![0x05]), (vec![1, 3, 7], vec![0x06])])
    );
}

#[test]
fn error_status_names_and_messages() {
    let data = [
        0x30, 0x1c, 0x02, 0x01, 0x01, 0x04, 0x01, 0x63, 0xa2, 0x14, 0x02, 0x01, 0x01, 0x02, 0x01,
        0x02, 0x02, 0x01, 0x00, 0x30, 0x09, 0x30, 0x07, 0x06, 0x02, 0x2b, 0x06, 0x02, 0x01, 0x05,
    ];
    let err = parse_snmp_response(&data).unwrap_err();
    assert_eq!(err, SnmpError::ErrorStatus(2));
    assert!(err.message().contains("noSuchName"));
    assert_eq!(err.message(), "SNMP error-status: 2 (noSuchName)");
    let names = ["unknown", "tooBig", "noSuchName", "badValue", "readOnly", "genErr", "noAccess", "wrongType", "unknown"];
    for (i, n) in names.iter().enumerate() {
        assert_eq!(error_status_name(i as i32), *n);
    }
    assert_eq!(error_status_name(-3), "unknown");
    assert_eq!(SnmpError::ErrorStatus(-1).message(), "SNMP error-status: -1 (unknown)");
    assert_eq!(SnmpError::ExpectedSequence(0x31).message(), "SNMP: expected SEQUENCE (0x30), got 0x31");
    assert_eq!(SnmpError::ExpectedGetResponse(0xa0).message(), "SNMP: expected GetResponse PDU (0xa2), got 0xa0");
    assert_eq!(SnmpError::ExpectedVarBindList(0x04).message(), "SNMP: expected VarBindList SEQUENCE, got 0x04");
    assert_eq!(SnmpError::ExpectedOidTag(0x0a).message(), "SNMP: expected OID tag (0x06), got 0x0a");
    assert_eq!(SnmpError::TagPastEnd.message(), "BER: unexpected end of data reading tag");
    assert_eq!(SnmpError::LengthPastEnd.message(), "BER: unexpected end of data reading length");
    assert_eq!(SnmpError::InvalidLength.message(), "BER: invalid length encoding");
    assert_eq!(SnmpError::ValuePastEnd.message(), "BER: value extends past end of data");
    assert_eq!(SnmpError::EmptyOid.message(), "BER: empty OID");
    assert_eq!(SnmpError::TruncatedOid.message(), "BER: truncated OID component");
    assert_eq!(SnmpError::ResponseTooShort.message(), "SNMP response too short");
    assert_eq!(SnmpError::NoVarbindGet.message(), "SNMP GET: no varbind in response");
    assert_eq!(SnmpError::NoVarbindGetNext.message(), "SNMP GETNEXT: no varbind in response");
}

#[test]
fn max_repetitions_is_a_positive_integer() {
    let oid = [1, 3, 6, 1, 2, 1, 2, 2, 1, 2];
    let msg = build_pdu(0xa5, &SnmpVersion::V2c, "public", &oid, Some(200));
    assert_eq!(msg[13], 0xa5);
    assert_eq!(&msg[21..24], &[0x02, 0x01, 0x00]);
    assert_eq!(&msg[24..28], &[0x02, 0x02, 0x00, 0xc8]);
    for (rep, bytes) in [
        (0u32, vec![0x00]),
        (127, vec![0x7f]),
        (128, vec![0x00, 0x80]),
        (255, vec![0x00, 0xff]),
        (256, vec![0x01, 0x00]),
        (0x8000, vec![0x00, 0x80, 0x00]),
        (0x7f_ffff, vec![0x7f, 0xff, 0xff]),
        (0x80_0000, vec![0x00, 0x80, 0x00, 0x00]),
        (u32::MAX, vec![0x00, 0xff, 0xff, 0xff, 0xff]),
    ] {
        let m = build_pdu_with_id(0xa5, &SnmpVersion::V2c, "public", &oid, Some(rep), 1);
        let start = 24;
        assert_eq!(m[start], 0x02);
        assert_eq!(m[start + 1] as usize, bytes.len());
        assert_eq!(&m[start + 2..start + 2 + bytes.len()], &bytes[..]);
    }
}

#[test]
fn parse_reads_back_short_inputs() {
    let oid = [1u32, 3, 6, 1, 4, 1, 9, 9, 23, 1, 2, 1, 1, 6];
    let community = "c".repeat(1000);
    let msg = build_pdu_with_id(0xa2, &SnmpVersion::V1, &community, &oid, None, 5);
    assert_eq!(parse_getbulk_response(&msg), Ok(vec![(oid.to_vec(), vec![])]));
}

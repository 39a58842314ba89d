use component_runtime::igmp::{
    make_v3_possible_floating_point, parse_group_record, parse_no_body,
    parse_v3_possible_floating_point, peek_message_type, verify_checksum, GroupRecordHeader,
    IgmpGroupRecordType, IgmpMessageType, IgmpPacket, Ipv4Addr, MembershipQueryData,
    MembershipReportV3Data, ParseError, ParseMetadata,
};

/// A version 2 general query.
const QUERY_V2: [u8; 8] = [0x11, 0x64, 0xee, 0x9b, 0x00, 0x00, 0x00, 0x00];

/// A version 3 query for 224.0.0.251 with one source, 192.168.1.10.
const QUERY_V3: [u8; 16] = [
    0x11, 0x0a, 0x41, 0xc9, 0xe0, 0x00, 0x00, 0xfb, 0x0a, 0x7d, 0x00, 0x01, 0xc0, 0xa8, 0x01,
    0x0a,
];

const REPORT_V1: [u8; 8] = [0x12, 0x00, 0x0d, 0x04, 0xe0, 0x00, 0x00, 0xfb];

const REPORT_V2: [u8; 8] = [0x16, 0x00, 0x09, 0x04, 0xe0, 0x00, 0x00, 0xfb];

/// A version 3 report with two group records; the second one carries a word of
/// auxiliary data.
const REPORT_V3: [u8; 40] = [
    0x22, 0x00, 0xef, 0xef, 0x00, 0x00, 0x00, 0x02, 0x01, 0x00, 0x00, 0x02, 0xe0, 0x00, 0x00,
    0x01, 0xc0, 0xa8, 0x01, 0x0a, 0xc0, 0xa8, 0x01, 0x0b, 0x02, 0x01, 0x00, 0x01, 0xe0, 0x00,
    0x00, 0x02, 0x0a, 0x00, 0x00, 0x01, 0xde, 0xad, 0xbe, 0xef,
];

const LEAVE_GROUP: [u8; 8] = [0x17, 0x00, 0x08, 0x04, 0xe0, 0x00, 0x00, 0xfb];

const UNKNOWN_TYPE: [u8; 8] = [0x13, 0x00, 0x0c, 0x04, 0xe0, 0x00, 0x00, 0xfb];

fn all_buffers() -> Vec<&'static [u8]> {
    vec![&QUERY_V2, &QUERY_V3, &REPORT_V1, &REPORT_V2, &REPORT_V3, &LEAVE_GROUP]
}

fn parse_and_serialize(bytes: &[u8]) -> IgmpPacket {
    let packet = IgmpPacket::parse(bytes).unwrap();
    assert_eq!(packet.serialize(), bytes);
    packet
}

#[test]
fn membership_query_v2_parse_and_serialize() {
    match parse_and_serialize(&QUERY_V2) {
        IgmpPacket::MembershipQueryV2 { prefix, group_address } => {
            assert_eq!(group_address, Ipv4Addr::new([0, 0, 0, 0]));
            assert_eq!(prefix.max_resp_code, 0x64);
        }
        other => panic!("parsed as {:?}", other),
    }
}

#[test]
fn membership_query_v3_parse_and_serialize() {
    match parse_and_serialize(&QUERY_V3) {
        IgmpPacket::MembershipQueryV3 { prefix, header, sources } => {
            assert_eq!(prefix.max_resp_code, 0x0a);
            assert_eq!(header.group_address, Ipv4Addr::new([224, 0, 0, 251]));
            assert_eq!(header.number_of_sources(), 1);
            assert_eq!(header.suppress_router_side_processing(), true);
            assert_eq!(header.querier_robustness_variable(), 2);
            assert_eq!(header.querier_query_interval(), 125);
            assert_eq!(sources.len(), 1);
            assert_eq!(sources[0], Ipv4Addr::new([192, 168, 1, 10]));
        }
        other => panic!("parsed as {:?}", other),
    }
}

#[test]
fn membership_report_v3_parse_and_serialize() {
    match parse_and_serialize(&REPORT_V3) {
        IgmpPacket::MembershipReportV3 { prefix, header, records, body } => {
            assert_eq!(header.number_of_group_records(), 2);
            assert_eq!(prefix.max_resp_code, 0);
            assert_eq!(body, &REPORT_V3[8..]);
            let mut iter = records.iter();
            // look at first group record:
            let rec1 = iter.next().unwrap();
            assert_eq!(rec1.header.number_of_sources(), 2);
            assert_eq!(rec1.header.record_type, 1);
            assert_eq!(rec1.header.multicast_address, Ipv4Addr::new([224, 0, 0, 1]));
            assert_eq!(rec1.header.record_type(), Some(IgmpGroupRecordType::ModeIsInclude));
            assert_eq!(rec1.sources.len(), 2);
            assert_eq!(rec1.sources[0], Ipv4Addr::new([192, 168, 1, 10]));
            assert_eq!(rec1.sources[1], Ipv4Addr::new([192, 168, 1, 11]));

            // look at second group record:
            let rec2 = iter.next().unwrap();
            assert_eq!(rec2.header.number_of_sources(), 1);
            assert_eq!(rec2.header.record_type, 2);
            assert_eq!(rec2.header.aux_data_len, 1);
            assert_eq!(rec2.header.multicast_address, Ipv4Addr::new([224, 0, 0, 2]));
            assert_eq!(rec2.header.record_type(), Some(IgmpGroupRecordType::ModeIsExclude));
            assert_eq!(rec2.sources.len(), 1);
            assert_eq!(rec2.sources[0], Ipv4Addr::new([10, 0, 0, 1]));

            // assert that no other records came in:
            assert_eq!(iter.next().is_none(), true);
        }
        other => panic!("parsed as {:?}", other),
    }
}

#[test]
fn membership_report_v1_parse_and_serialize() {
    match parse_and_serialize(&REPORT_V1) {
        IgmpPacket::MembershipReportV1 { group_address, .. } => {
            assert_eq!(group_address, Ipv4Addr::new([224, 0, 0, 251]));
        }
        other => panic!("parsed as {:?}", other),
    }
}

#[test]
fn membership_report_v2_parse_and_serialize() {
    match parse_and_serialize(&REPORT_V2) {
        IgmpPacket::MembershipReportV2 { group_address, .. } => {
            assert_eq!(group_address, Ipv4Addr::new([224, 0, 0, 251]));
        }
        other => panic!("parsed as {:?}", other),
    }
}

#[test]
fn leave_group_parse_and_serialize() {
    match parse_and_serialize(&LEAVE_GROUP) {
        IgmpPacket::LeaveGroup { group_address, .. } => {
            assert_eq!(group_address, Ipv4Addr::new([224, 0, 0, 251]));
        }
        other => panic!("parsed as {:?}", other),
    }
}

#[test]
fn test_unknown_type() {
    let packet = IgmpPacket::parse(&UNKNOWN_TYPE);
    assert_eq!(packet.is_err(), true);
    assert_eq!(packet.unwrap_err(), ParseError::NotSupported);
}

#[test]
fn test_full_parses() {
    for buff in all_buffers() {
        let packet = IgmpPacket::parse(buff).unwrap();
        let msg_type = match packet {
            IgmpPacket::MembershipQueryV2 { prefix, .. } => prefix.msg_type,
            IgmpPacket::MembershipQueryV3 { prefix, .. } => prefix.msg_type,
            IgmpPacket::MembershipReportV1 { prefix, .. } => prefix.msg_type,
            IgmpPacket::MembershipReportV2 { prefix, .. } => prefix.msg_type,
            IgmpPacket::MembershipReportV3 { prefix, .. } => prefix.msg_type,
            IgmpPacket::LeaveGroup { prefix, .. } => prefix.msg_type,
        };
        assert_eq!(msg_type, buff[0]);
    }
}

#[test]
fn test_partial_parses() {
    // parsing a part of the buffer should always result in errors and
    // nothing panics.
    for buff in all_buffers() {
        for i in 0..buff.len() {
            let packet = IgmpPacket::parse(&buff[0..i]);
            assert_eq!(packet.is_err(), true)
        }
    }
}

#[test]
fn each_failure_has_its_error() {
    assert_eq!(IgmpPacket::parse(&[]).unwrap_err(), ParseError::Format);
    assert_eq!(IgmpPacket::parse(&[0x11, 0x64, 0xee]).unwrap_err(), ParseError::Format);
    assert_eq!(IgmpPacket::parse(&[0x99, 0, 0, 0]).unwrap_err(), ParseError::NotSupported);
    assert_eq!(IgmpPacket::parse(&QUERY_V2[..7]).unwrap_err(), ParseError::Format);
    // A report that is followed by something.
    let too_long = [0x16, 0x00, 0x09, 0x04, 0xe0, 0x00, 0x00, 0xfb, 0x00, 0x00];
    assert_eq!(IgmpPacket::parse(&too_long).unwrap_err(), ParseError::NotExpected);
    // One bit of the group address flipped.
    let mut damaged = REPORT_V2;
    damaged[7] ^= 0x01;
    assert_eq!(IgmpPacket::parse(&damaged).unwrap_err(), ParseError::Checksum);
    // A version 3 query that says it has two sources and holds one.
    let short = [
        0x11, 0x0a, 0x41, 0xc8, 0xe0, 0x00, 0x00, 0xfb, 0x0a, 0x7d, 0x00, 0x02, 0xc0, 0xa8,
        0x01, 0x0a,
    ];
    assert!(verify_checksum(&short));
    assert_eq!(IgmpPacket::parse(&short).unwrap_err(), ParseError::Format);
    // A version 3 report that says it has three records and holds two.
    let mut fewer = REPORT_V3;
    fewer[7] = 3;
    fewer[3] -= 1;
    assert!(verify_checksum(&fewer));
    assert_eq!(IgmpPacket::parse(&fewer).unwrap_err(), ParseError::Format);
    // A version 3 report that says it has one record and holds two.
    let mut more = REPORT_V3;
    more[7] = 1;
    more[3] += 1;
    assert!(verify_checksum(&more));
    assert_eq!(IgmpPacket::parse(&more).unwrap_err(), ParseError::Format);
}

#[test]
fn a_version_3_query_may_be_followed_by_more() {
    let mut bytes = QUERY_V3.to_vec();
    bytes.extend_from_slice(&[0x00, 0x00, 0x00, 0x00]);
    let packet = IgmpPacket::parse(&bytes).unwrap();
    // What follows the sources is read over and not written back.
    assert_eq!(packet.serialize(), QUERY_V3);
    assert_eq!(packet.body_bytes(), &QUERY_V3[12..]);
}

#[test]
fn checksums_are_ones_complement_sums() {
    assert!(verify_checksum(&QUERY_V2));
    assert!(verify_checksum(&REPORT_V3));
    assert!(!verify_checksum(&[]));
    assert!(!verify_checksum(&[0x00, 0x00]));
    assert!(verify_checksum(&[0xff, 0xff]));
    assert!(verify_checksum(&[0xff, 0xfe, 0x00, 0x01]));
    // A last byte alone is the high byte of a word.
    assert!(verify_checksum(&[0x00, 0xff, 0xff]));
    assert!(!verify_checksum(&[0xff, 0x00, 0xff]));
    // A carry comes back in at the low end.
    assert!(verify_checksum(&[0xff, 0xff, 0xff, 0xff]));
    assert!(verify_checksum(&[0x80, 0x00, 0x80, 0x00, 0xff, 0xfe]));
}

#[test]
fn message_types_have_their_numbers() {
    assert_eq!(IgmpMessageType::from_u8(0x11), Some(IgmpMessageType::MembershipQuery));
    assert_eq!(IgmpMessageType::from_u8(0x12), Some(IgmpMessageType::MembershipReportV1));
    assert_eq!(IgmpMessageType::from_u8(0x16), Some(IgmpMessageType::MembershipReportV2));
    assert_eq!(IgmpMessageType::from_u8(0x22), Some(IgmpMessageType::MembershipReportV3));
    assert_eq!(IgmpMessageType::from_u8(0x17), Some(IgmpMessageType::LeaveGroup));
    assert_eq!(IgmpMessageType::from_u8(0x13), None);
    assert_eq!(IgmpMessageType::LeaveGroup.into_u8(), 0x17);
    assert_eq!(IgmpMessageType::MembershipReportV3.into_u8(), 0x22);
    for code in 0..=255u8 {
        if let Some(kind) = IgmpMessageType::from_u8(code) {
            assert_eq!(kind.into_u8(), code);
        }
        if let Some(kind) = IgmpGroupRecordType::from_u8(code) {
            assert_eq!(kind.into_u8(), code);
            assert!(1 <= code && code <= 6);
        }
    }
    assert_eq!(IgmpGroupRecordType::from_u8(0x06), Some(IgmpGroupRecordType::BlockOldSources));
    assert_eq!(IgmpGroupRecordType::from_u8(0x00), None);
    assert_eq!(IgmpGroupRecordType::from_u8(0x07), None);
}

#[test]
fn peeking_tells_type_and_length() {
    assert_eq!(peek_message_type(&QUERY_V2), Ok((IgmpMessageType::MembershipQuery, false)));
    assert_eq!(peek_message_type(&QUERY_V3), Ok((IgmpMessageType::MembershipQuery, true)));
    assert_eq!(peek_message_type(&REPORT_V3), Ok((IgmpMessageType::MembershipReportV3, true)));
    assert_eq!(peek_message_type(&QUERY_V3[..9]), Ok((IgmpMessageType::MembershipQuery, true)));
    assert_eq!(peek_message_type(&QUERY_V3[..4]), Ok((IgmpMessageType::MembershipQuery, false)));
    assert_eq!(peek_message_type(&QUERY_V3[..3]), Err(ParseError::Format));
    assert_eq!(peek_message_type(&UNKNOWN_TYPE), Err(ParseError::NotSupported));
}

#[test]
fn a_message_without_body_must_end_after_its_header() {
    assert_eq!(parse_no_body(&[]), Ok(()));
    assert_eq!(parse_no_body(&[0]), Err(ParseError::NotExpected));
}

#[test]
fn a_group_record_ends_after_its_auxiliary_data() {
    let (record, end) = parse_group_record(&REPORT_V3, 8).unwrap();
    assert_eq!(end, 24);
    assert_eq!(record.sources.len(), 2);
    let (record, end) = parse_group_record(&REPORT_V3, 24).unwrap();
    assert_eq!(end, 40);
    assert_eq!(record.header.aux_data_len, 1);
    assert_eq!(record.sources, vec![Ipv4Addr::new([10, 0, 0, 1])]);
    assert_eq!(parse_group_record(&REPORT_V3, 40).unwrap_err(), ParseError::Format);
    assert_eq!(parse_group_record(&REPORT_V3[..39], 24).unwrap_err(), ParseError::Format);
    assert_eq!(parse_group_record(&REPORT_V3, 33).unwrap_err(), ParseError::Format);
}

fn query_data() -> MembershipQueryData {
    MembershipQueryData {
        group_address: Ipv4Addr::new([224, 0, 0, 251]),
        sqrv: 0,
        qqic: 0,
        number_of_sources: [0, 0],
    }
}

#[test]
fn counts_are_kept_in_network_order() {
    let mut query = query_data();
    query.set_number_of_sources(0x1234);
    assert_eq!(query.number_of_sources, [0x12, 0x34]);
    assert_eq!(query.number_of_sources(), 0x1234);
    query.set_number_of_sources(1);
    assert_eq!(query.number_of_sources, [0, 1]);

    let mut report = MembershipReportV3Data { reserved: [0, 0], number_of_group_records: [0, 0] };
    report.set_number_of_group_records(0xfffe);
    assert_eq!(report.number_of_group_records, [0xff, 0xfe]);
    assert_eq!(report.number_of_group_records(), 0xfffe);

    let mut record = GroupRecordHeader {
        record_type: 0,
        aux_data_len: 0,
        number_of_sources: [0, 0],
        multicast_address: Ipv4Addr::new([224, 0, 0, 1]),
    };
    record.set_number_of_sources(258);
    assert_eq!(record.number_of_sources, [1, 2]);
    assert_eq!(record.number_of_sources(), 258);
    assert_eq!(record.record_type(), None);
    record.set_record_type(IgmpGroupRecordType::AllowNewSources);
    assert_eq!(record.record_type, 5);
    assert_eq!(record.record_type(), Some(IgmpGroupRecordType::AllowNewSources));
}

#[test]
fn the_flags_of_a_query_share_a_byte() {
    let mut query = query_data();
    assert!(!query.suppress_router_side_processing());
    assert_eq!(query.querier_robustness_variable(), 0);
    query.set_querier_robustness_variable(5);
    assert_eq!(query.sqrv, 5);
    query.set_suppress_router_side_processing(true);
    assert_eq!(query.sqrv, 13);
    assert!(query.suppress_router_side_processing());
    assert_eq!(query.querier_robustness_variable(), 5);
    query.set_suppress_router_side_processing(false);
    assert_eq!(query.sqrv, 5);
    // Only the three low bits of the value are taken, and they are added to
    // the bits that are set already.
    query.set_querier_robustness_variable(0xfa);
    assert_eq!(query.sqrv, 7);
    assert_eq!(MembershipQueryData::DEFAULT_QRV, 2);
    assert_eq!(MembershipQueryData::DEFAULT_QUERY_INTERVAL_SECS, 1250);
}

#[test]
fn times_have_codes() {
    assert_eq!(parse_v3_possible_floating_point(0), 0);
    assert_eq!(parse_v3_possible_floating_point(127), 127);
    assert_eq!(parse_v3_possible_floating_point(0x80), 128);
    assert_eq!(parse_v3_possible_floating_point(0x81), 136);
    assert_eq!(parse_v3_possible_floating_point(0x90), 256);
    assert_eq!(parse_v3_possible_floating_point(0xff), 31744);
    assert_eq!(make_v3_possible_floating_point(0), Some(0));
    assert_eq!(make_v3_possible_floating_point(127), Some(127));
    assert_eq!(make_v3_possible_floating_point(128), Some(0x80));
    assert_eq!(make_v3_possible_floating_point(135), Some(0x80));
    assert_eq!(make_v3_possible_floating_point(136), Some(0x81));
    assert_eq!(make_v3_possible_floating_point(255), Some(0x8f));
    assert_eq!(make_v3_possible_floating_point(256), Some(0x90));
    assert_eq!(make_v3_possible_floating_point(1250), Some(0xb3));
    assert_eq!(make_v3_possible_floating_point(31744), Some(0xff));
    assert_eq!(make_v3_possible_floating_point(31745), None);
    for code in 0..=255u8 {
        assert_eq!(
            make_v3_possible_floating_point(parse_v3_possible_floating_point(code)),
            Some(code)
        );
    }
    let mut query = query_data();
    query.set_querier_query_interval(1250);
    assert_eq!(query.qqic, 0xb3);
    assert_eq!(query.querier_query_interval(), 1216);
    query.set_querier_query_interval(125);
    assert_eq!(query.querier_query_interval(), 125);
}

#[test]
fn a_message_is_header_and_body() {
    assert_eq!(
        IgmpPacket::parse(&QUERY_V2).unwrap().parse_metadata(),
        ParseMetadata { header_len: 8, body_len: 0, footer_len: 0 }
    );
    assert_eq!(
        IgmpPacket::parse(&QUERY_V3).unwrap().parse_metadata(),
        ParseMetadata { header_len: 12, body_len: 4, footer_len: 0 }
    );
    assert_eq!(
        IgmpPacket::parse(&REPORT_V3).unwrap().parse_metadata(),
        ParseMetadata { header_len: 8, body_len: 32, footer_len: 0 }
    );
    assert_eq!(
        IgmpPacket::parse(&LEAVE_GROUP).unwrap().parse_metadata(),
        ParseMetadata { header_len: 8, body_len: 0, footer_len: 0 }
    );
}

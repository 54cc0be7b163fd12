use netflow_generator::config::schema::{
    FieldValue, IPFixConfig, IPFixFlowSet, IPFixHeader, IPFixTemplateField, Record, RecordEntry,
};
use netflow_generator::error::NetflowError;
use netflow_generator::generator::ipfix::{
    build_ipfix_packets, build_ipfix_packets_at, field_name_to_id,
};
use netflow_parser::{NetflowPacket, NetflowParser};

fn field(name: &str, length: u16) -> IPFixTemplateField {
    IPFixTemplateField { field_type: name.to_string(), field_length: length }
}

fn text(key: &str, value: &str) -> RecordEntry {
    RecordEntry { key: key.to_string(), value: FieldValue::Text(value.to_string()) }
}

fn number(key: &str, value: u64) -> RecordEntry {
    RecordEntry { key: key.to_string(), value: FieldValue::Unsigned(value) }
}

fn seven_fields() -> Vec<IPFixTemplateField> {
    vec![
        field("sourceIPv4Address", 4),
        field("destinationIPv4Address", 4),
        field("packetDeltaCount", 8),
        field("octetDeltaCount", 8),
        field("sourceTransportPort", 2),
        field("destinationTransportPort", 2),
        field("protocolIdentifier", 1),
    ]
}

fn ssh_record() -> Record {
    Record {
        entries: vec![
            text("source_ipv4_address", "172.20.0.100"),
            text("destination_ipv4_address", "198.51.100.10"),
            number("packet_delta_count", 500),
            number("octet_delta_count", 125000),
            number("source_transport_port", 50122),
            number("destination_transport_port", 22),
            number("protocol_identifier", 6),
        ],
    }
}

fn template_and_data(records: Vec<Record>) -> IPFixConfig {
    IPFixConfig {
        header: None,
        flowsets: vec![
            IPFixFlowSet::Template { template_id: 300, fields: seven_fields() },
            IPFixFlowSet::Data { template_id: 300, records },
        ],
    }
}

fn sequence_of(packet: &[u8]) -> u32 {
    u32::from_be_bytes([packet[8], packet[9], packet[10], packet[11]])
}

#[test]
fn ipfix_template_and_data_two_records() {
    let config = template_and_data(vec![ssh_record(), ssh_record()]);
    let (packets, next) = build_ipfix_packets_at(&config, 1000, true, 1_700_000_000).unwrap();
    assert_eq!(packets.len(), 2);
    assert_eq!(sequence_of(&packets[0]), 1000);
    assert_eq!(sequence_of(&packets[1]), 1000);
    assert_eq!(next, 1002);
}

#[test]
fn ipfix_template_packet_exact_bytes() {
    let config = template_and_data(vec![ssh_record()]);
    let (packets, _) = build_ipfix_packets_at(&config, 5, true, 1_700_000_000).unwrap();
    let mut expected: Vec<u8> = Vec::new();
    expected.extend_from_slice(&10u16.to_be_bytes());
    expected.extend_from_slice(&52u16.to_be_bytes());
    expected.extend_from_slice(&1_700_000_000u32.to_be_bytes());
    expected.extend_from_slice(&5u32.to_be_bytes());
    expected.extend_from_slice(&1u32.to_be_bytes());
    expected.extend_from_slice(&2u16.to_be_bytes());
    expected.extend_from_slice(&36u16.to_be_bytes());
    expected.extend_from_slice(&300u16.to_be_bytes());
    expected.extend_from_slice(&7u16.to_be_bytes());
    for (id, len) in [(8u16, 4u16), (12, 4), (2, 8), (1, 8), (7, 2), (11, 2), (4, 1)] {
        expected.extend_from_slice(&id.to_be_bytes());
        expected.extend_from_slice(&len.to_be_bytes());
    }
    assert_eq!(packets[0], expected);
}

#[test]
fn ipfix_data_packet_exact_bytes() {
    let config = template_and_data(vec![ssh_record()]);
    let (packets, _) = build_ipfix_packets_at(&config, 5, true, 1_700_000_000).unwrap();
    let mut expected: Vec<u8> = Vec::new();
    expected.extend_from_slice(&10u16.to_be_bytes());
    expected.extend_from_slice(&(16u16 + 4 + 29 + 3).to_be_bytes());
    expected.extend_from_slice(&1_700_000_000u32.to_be_bytes());
    expected.extend_from_slice(&5u32.to_be_bytes());
    expected.extend_from_slice(&1u32.to_be_bytes());
    expected.extend_from_slice(&300u16.to_be_bytes());
    expected.extend_from_slice(&36u16.to_be_bytes());
    expected.extend_from_slice(&[172, 20, 0, 100]);
    expected.extend_from_slice(&[198, 51, 100, 10]);
    expected.extend_from_slice(&500u64.to_be_bytes());
    expected.extend_from_slice(&125000u64.to_be_bytes());
    expected.extend_from_slice(&50122u16.to_be_bytes());
    expected.extend_from_slice(&22u16.to_be_bytes());
    expected.push(6);
    expected.extend_from_slice(&[0, 0, 0]);
    assert_eq!(packets[1], expected);
}

#[test]
fn ipfix_lengths_measure_set_and_message() {
    for n in [0usize, 1, 2, 5, 100] {
        let config = template_and_data(vec![ssh_record(); n]);
        let (packets, _) = build_ipfix_packets_at(&config, 0, false, 0).unwrap();
        let data = &packets[0];
        let message_length = u16::from_be_bytes([data[2], data[3]]) as usize;
        let set_length = u16::from_be_bytes([data[18], data[19]]) as usize;
        assert_eq!(message_length, data.len());
        assert_eq!(set_length, data.len() - 16);
        assert_eq!(set_length % 4, 0);
    }
}

#[test]
fn ipfix_sequence_advances_by_data_records() {
    let config = IPFixConfig {
        header: None,
        flowsets: vec![
            IPFixFlowSet::Template { template_id: 300, fields: seven_fields() },
            IPFixFlowSet::Data { template_id: 300, records: vec![ssh_record(); 2] },
            IPFixFlowSet::Data { template_id: 300, records: vec![ssh_record(); 5] },
        ],
    };
    let mut sequence = 0;
    let mut seen: Vec<u32> = Vec::new();
    for tick in 0..4 {
        let (packets, next) = build_ipfix_packets_at(&config, sequence, tick % 2 == 0, 0).unwrap();
        for p in &packets {
            if p[16..18] != [0, 2] {
                seen.push(sequence_of(p));
            } else {
                assert_eq!(sequence_of(p), sequence);
            }
        }
        assert_eq!(next, sequence + 7);
        sequence = next;
    }
    assert_eq!(seen, vec![0, 2, 7, 9, 14, 16, 21, 23]);
    assert_eq!(sequence, 28);
}

#[test]
fn ipfix_undefined_template_fails() {
    let config = IPFixConfig {
        header: None,
        flowsets: vec![IPFixFlowSet::Data { template_id: 300, records: vec![ssh_record()] }],
    };
    assert!(matches!(
        build_ipfix_packets_at(&config, 0, true, 0),
        Err(NetflowError::Generation(_))
    ));
}

#[test]
fn ipfix_unknown_field_name_fails() {
    let config = IPFixConfig {
        header: None,
        flowsets: vec![
            IPFixFlowSet::Template { template_id: 300, fields: vec![field("IN_BYTES", 4)] },
            IPFixFlowSet::Data { template_id: 300, records: vec![ssh_record()] },
        ],
    };
    assert!(matches!(
        build_ipfix_packets_at(&config, 0, false, 0),
        Err(NetflowError::Generation(_))
    ));
}

#[test]
fn ipfix_without_flowsets_fails() {
    let config = IPFixConfig { header: None, flowsets: vec![] };
    assert!(matches!(
        build_ipfix_packets_at(&config, 0, true, 0),
        Err(NetflowError::Generation(_))
    ));
}

#[test]
fn ipfix_message_longer_than_16_bits_fails() {
    // 8184 records of 8 bytes fit a set, but not a message with its 16-byte header.
    let config = IPFixConfig {
        header: None,
        flowsets: vec![
            IPFixFlowSet::Template { template_id: 300, fields: vec![field("octetDeltaCount", 8)] },
            IPFixFlowSet::Data { template_id: 300, records: vec![ssh_record(); 8190] },
        ],
    };
    assert!(matches!(
        build_ipfix_packets_at(&config, 0, false, 0),
        Err(NetflowError::Generation(_))
    ));
    let config = IPFixConfig {
        header: None,
        flowsets: vec![
            IPFixFlowSet::Template { template_id: 300, fields: vec![field("octetDeltaCount", 8)] },
            IPFixFlowSet::Data { template_id: 300, records: vec![ssh_record(); 8189] },
        ],
    };
    let (packets, _) = build_ipfix_packets_at(&config, 0, false, 0).unwrap();
    assert_eq!(packets[0].len(), 16 + 4 + 8 * 8189);
}

#[test]
fn ipfix_header_overrides_and_clock_default() {
    let header = IPFixHeader {
        export_time: None,
        sequence_number: Some(9),
        observation_domain_id: Some(42),
    };
    let mut config = template_and_data(vec![ssh_record()]);
    config.header = Some(header);
    let (packets, _) = build_ipfix_packets_at(&config, 3, true, u64::MAX).unwrap();
    for p in &packets {
        assert_eq!(&p[0..2], &[0, 10]);
        assert_eq!(&p[4..8], &[0xff; 4]);
        assert_eq!(&p[12..16], &42u32.to_be_bytes());
    }
}

#[test]
fn ipfix_build_with_clock_succeeds() {
    let config = template_and_data(vec![ssh_record()]);
    let (packets, next) = build_ipfix_packets(&config, 0, true).unwrap();
    assert_eq!(packets.len(), 2);
    assert_eq!(next, 1);
}

#[test]
fn ipfix_field_names_map_to_ids() {
    assert_eq!(field_name_to_id("octetDeltaCount"), Some(1));
    assert_eq!(field_name_to_id("sourceIPv4Address"), Some(8));
    assert_eq!(field_name_to_id("flowStartSysUpTime"), Some(22));
    assert_eq!(field_name_to_id("IN_BYTES"), None);
}

#[test]
fn ipfix_packets_decode() {
    let config = template_and_data(vec![ssh_record(), ssh_record()]);
    let (packets, _) = build_ipfix_packets_at(&config, 0, true, 1_700_000_000).unwrap();
    let mut parser = NetflowParser::default();
    for p in &packets {
        let parsed = parser.parse_bytes(p);
        assert!(parsed.error.is_none());
        assert_eq!(parsed.packets.len(), 1);
        assert!(matches!(parsed.packets[0], NetflowPacket::IPFix(_)));
    }
}

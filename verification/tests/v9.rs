use netflow_generator::config::schema::{
    FieldValue, Record, RecordEntry, V9Config, V9FlowSet, V9Header, V9TemplateField,
};
use netflow_generator::error::NetflowError;
use netflow_generator::generator::v9::{
    build_data_packet, build_template_packet, build_v9_packets, build_v9_packets_at,
    field_name_to_id, V9Stamp, V9Template,
};
use netflow_parser::{NetflowPacket, NetflowParser};

fn field(name: &str, length: u16) -> V9TemplateField {
    V9TemplateField { field_type: name.to_string(), field_length: length }
}

fn text(key: &str, value: &str) -> RecordEntry {
    RecordEntry { key: key.to_string(), value: FieldValue::Text(value.to_string()) }
}

fn number(key: &str, value: u64) -> RecordEntry {
    RecordEntry { key: key.to_string(), value: FieldValue::Unsigned(value) }
}

fn seven_fields() -> Vec<V9TemplateField> {
    vec![
        field("IPV4_SRC_ADDR", 4),
        field("IPV4_DST_ADDR", 4),
        field("IN_PKTS", 4),
        field("IN_BYTES", 4),
        field("L4_SRC_PORT", 2),
        field("L4_DST_PORT", 2),
        field("PROTOCOL", 1),
    ]
}

fn http_record() -> Record {
    Record {
        entries: vec![
            text("src_addr", "192.168.10.5"),
            text("dst_addr", "93.184.216.34"),
            number("in_pkts", 50),
            number("in_bytes", 35000),
            number("src_port", 48921),
            number("dst_port", 80),
            number("protocol", 6),
        ],
    }
}

fn template_and_data(records: Vec<Record>) -> V9Config {
    V9Config {
        header: None,
        flowsets: vec![
            V9FlowSet::Template { template_id: 256, fields: seven_fields() },
            V9FlowSet::Data { template_id: 256, records },
        ],
    }
}

fn sequence_of(packet: &[u8]) -> u32 {
    u32::from_be_bytes([packet[12], packet[13], packet[14], packet[15]])
}

#[test]
fn v9_template_and_data_one_record() {
    let config = template_and_data(vec![http_record()]);
    let n = 41;
    let (packets, next) = build_v9_packets_at(&config, n, true, 1_700_000_000).unwrap();
    assert_eq!(packets.len(), 2);
    assert_eq!(sequence_of(&packets[0]), n);
    assert_eq!(sequence_of(&packets[1]), n);
    assert_eq!(next, n + 1);
}

#[test]
fn v9_template_packet_exact_bytes() {
    let config = template_and_data(vec![http_record()]);
    let (packets, _) = build_v9_packets_at(&config, 5, true, 1_700_000_000).unwrap();
    let mut expected: Vec<u8> = Vec::new();
    expected.extend_from_slice(&9u16.to_be_bytes());
    expected.extend_from_slice(&1u16.to_be_bytes());
    expected.extend_from_slice(&360000u32.to_be_bytes());
    expected.extend_from_slice(&1_700_000_000u32.to_be_bytes());
    expected.extend_from_slice(&5u32.to_be_bytes());
    expected.extend_from_slice(&1u32.to_be_bytes());
    expected.extend_from_slice(&0u16.to_be_bytes());
    expected.extend_from_slice(&36u16.to_be_bytes());
    expected.extend_from_slice(&256u16.to_be_bytes());
    expected.extend_from_slice(&7u16.to_be_bytes());
    for (id, len) in [(8u16, 4u16), (12, 4), (2, 4), (1, 4), (7, 2), (11, 2), (4, 1)] {
        expected.extend_from_slice(&id.to_be_bytes());
        expected.extend_from_slice(&len.to_be_bytes());
    }
    assert_eq!(packets[0], expected);
}

#[test]
fn v9_data_packet_exact_bytes() {
    let config = template_and_data(vec![http_record()]);
    let (packets, _) = build_v9_packets_at(&config, 5, true, 1_700_000_000).unwrap();
    let mut expected: Vec<u8> = Vec::new();
    expected.extend_from_slice(&9u16.to_be_bytes());
    expected.extend_from_slice(&1u16.to_be_bytes());
    expected.extend_from_slice(&360000u32.to_be_bytes());
    expected.extend_from_slice(&1_700_000_000u32.to_be_bytes());
    expected.extend_from_slice(&5u32.to_be_bytes());
    expected.extend_from_slice(&1u32.to_be_bytes());
    expected.extend_from_slice(&256u16.to_be_bytes());
    expected.extend_from_slice(&28u16.to_be_bytes());
    expected.extend_from_slice(&[192, 168, 10, 5]);
    expected.extend_from_slice(&[93, 184, 216, 34]);
    expected.extend_from_slice(&50u32.to_be_bytes());
    expected.extend_from_slice(&35000u32.to_be_bytes());
    expected.extend_from_slice(&48921u16.to_be_bytes());
    expected.extend_from_slice(&80u16.to_be_bytes());
    expected.push(6);
    expected.extend_from_slice(&[0, 0, 0]);
    assert_eq!(packets[1], expected);
}

#[test]
fn v9_record_of_length_two_mod_four_gets_two_pad_bytes() {
    let config = V9Config {
        header: None,
        flowsets: vec![
            V9FlowSet::Template {
                template_id: 300,
                fields: vec![field("IPV4_SRC_ADDR", 4), field("L4_SRC_PORT", 2)],
            },
            V9FlowSet::Data {
                template_id: 300,
                records: vec![Record {
                    entries: vec![text("src_addr", "1.2.3.4"), number("src_port", 0xabcd)],
                }],
            },
        ],
    };
    let (packets, _) = build_v9_packets_at(&config, 0, false, 0).unwrap();
    assert_eq!(packets.len(), 1);
    let data = &packets[0];
    assert_eq!(data.len(), 20 + 4 + 6 + 2);
    assert_eq!(&data[20..22], &300u16.to_be_bytes());
    assert_eq!(&data[22..24], &12u16.to_be_bytes());
    assert_eq!(&data[24..30], &[1, 2, 3, 4, 0xab, 0xcd]);
    assert_eq!(&data[30..32], &[0, 0]);
}

#[test]
fn v9_set_length_measures_the_set_and_is_a_multiple_of_four() {
    for lengths in [vec![1u16], vec![2], vec![1, 2], vec![4], vec![4, 1], vec![8, 2, 1]] {
        let fields: Vec<V9TemplateField> = lengths.iter().map(|l| field("IN_BYTES", *l)).collect();
        let config = V9Config {
            header: None,
            flowsets: vec![
                V9FlowSet::Template { template_id: 256, fields },
                V9FlowSet::Data {
                    template_id: 256,
                    records: vec![http_record(), http_record(), http_record()],
                },
            ],
        };
        let (packets, _) = build_v9_packets_at(&config, 0, false, 0).unwrap();
        let data = &packets[0];
        let set_length = u16::from_be_bytes([data[22], data[23]]) as usize;
        assert_eq!(set_length, data.len() - 20);
        assert_eq!(set_length % 4, 0);
        let body: usize = 3 * lengths.iter().map(|l| *l as usize).sum::<usize>();
        assert!(set_length >= 4 + body && set_length < 4 + body + 4);
    }
}

#[test]
fn v9_undefined_template_fails() {
    let config = V9Config {
        header: None,
        flowsets: vec![
            V9FlowSet::Template { template_id: 256, fields: seven_fields() },
            V9FlowSet::Data { template_id: 257, records: vec![http_record()] },
        ],
    };
    assert!(matches!(
        build_v9_packets_at(&config, 0, true, 0),
        Err(NetflowError::Generation(_))
    ));
    assert!(matches!(
        build_v9_packets_at(&config, 0, false, 0),
        Err(NetflowError::Generation(_))
    ));
}

#[test]
fn v9_template_defined_after_its_data_is_found() {
    let config = V9Config {
        header: None,
        flowsets: vec![
            V9FlowSet::Data { template_id: 256, records: vec![http_record()] },
            V9FlowSet::Template { template_id: 256, fields: seven_fields() },
        ],
    };
    let (packets, next) = build_v9_packets_at(&config, 0, true, 0).unwrap();
    assert_eq!(packets.len(), 2);
    // The template message still comes first.
    assert_eq!(&packets[0][20..22], &[0, 0]);
    assert_eq!(&packets[1][20..22], &256u16.to_be_bytes());
    assert_eq!(next, 1);
}

#[test]
fn v9_without_flowsets_fails() {
    let config = V9Config { header: None, flowsets: vec![] };
    assert!(matches!(
        build_v9_packets_at(&config, 0, true, 0),
        Err(NetflowError::Generation(_))
    ));
}

#[test]
fn v9_unknown_field_name_fails() {
    let config = V9Config {
        header: None,
        flowsets: vec![
            V9FlowSet::Template { template_id: 256, fields: vec![field("NOT_A_FIELD", 4)] },
            V9FlowSet::Data { template_id: 256, records: vec![http_record()] },
        ],
    };
    assert!(matches!(
        build_v9_packets_at(&config, 0, true, 0),
        Err(NetflowError::Generation(_))
    ));
    assert!(matches!(
        build_v9_packets_at(&config, 0, false, 0),
        Err(NetflowError::Generation(_))
    ));
}

#[test]
fn v9_templates_are_left_out_when_not_due() {
    let config = template_and_data(vec![http_record(), http_record()]);
    let (packets, next) = build_v9_packets_at(&config, 10, false, 0).unwrap();
    assert_eq!(packets.len(), 1);
    assert_eq!(&packets[0][20..22], &256u16.to_be_bytes());
    assert_eq!(sequence_of(&packets[0]), 10);
    assert_eq!(next, 12);
}

#[test]
fn v9_template_only_entry_emits_nothing_between_refreshes() {
    let config = V9Config {
        header: None,
        flowsets: vec![V9FlowSet::Template { template_id: 256, fields: seven_fields() }],
    };
    let (packets, next) = build_v9_packets_at(&config, 3, false, 0).unwrap();
    assert!(packets.is_empty());
    assert_eq!(next, 3);
    let (packets, next) = build_v9_packets_at(&config, 3, true, 0).unwrap();
    assert_eq!(packets.len(), 1);
    assert_eq!(next, 3);
}

#[test]
fn v9_sequence_advances_by_record_counts() {
    let config = V9Config {
        header: None,
        flowsets: vec![
            V9FlowSet::Template { template_id: 256, fields: seven_fields() },
            V9FlowSet::Data { template_id: 256, records: vec![http_record(); 3] },
            V9FlowSet::Data { template_id: 256, records: vec![http_record(); 2] },
            V9FlowSet::Data { template_id: 256, records: vec![http_record(); 4] },
        ],
    };
    let mut sequence = 100;
    let mut seen: Vec<u32> = Vec::new();
    for tick in 0..3 {
        let (packets, next) = build_v9_packets_at(&config, sequence, tick == 0, 0).unwrap();
        let data = if tick == 0 {
            assert_eq!(sequence_of(&packets[0]), sequence);
            &packets[1..]
        } else {
            &packets[..]
        };
        for p in data {
            seen.push(sequence_of(p));
        }
        assert_eq!(next, sequence + 9);
        sequence = next;
    }
    assert_eq!(seen, vec![100, 103, 105, 109, 112, 114, 118, 121, 123]);
    assert!(seen.windows(2).all(|w| w[0] < w[1]));
}

#[test]
fn v9_sequence_overflow_fails() {
    let config = template_and_data(vec![http_record(), http_record()]);
    assert!(matches!(
        build_v9_packets_at(&config, u32::MAX - 1, true, 0),
        Err(NetflowError::Generation(_))
    ));
    let (_, next) = build_v9_packets_at(&config, u32::MAX - 2, true, 0).unwrap();
    assert_eq!(next, u32::MAX);
}

#[test]
fn v9_missing_key_is_encoded_as_zeros() {
    let config = template_and_data(vec![Record { entries: vec![number("in_pkts", 7)] }]);
    let (packets, _) = build_v9_packets_at(&config, 0, false, 0).unwrap();
    let data = &packets[0];
    assert_eq!(&data[24..32], &[0; 8]);
    assert_eq!(&data[32..36], &7u32.to_be_bytes());
    assert_eq!(&data[36..48], &[0; 12]);
}

#[test]
fn v9_header_overrides_and_clock_default() {
    let header = V9Header {
        sys_up_time: Some(1),
        unix_secs: None,
        sequence_number: Some(77),
        source_id: Some(0xdeadbeef),
    };
    let mut config = template_and_data(vec![http_record()]);
    config.header = Some(header);
    // The low 32 bits of the clock are written.
    let (packets, _) = build_v9_packets_at(&config, 2, true, 0x1_0000_0005).unwrap();
    for p in &packets {
        assert_eq!(&p[0..2], &[0, 9]);
        assert_eq!(&p[4..8], &1u32.to_be_bytes());
        assert_eq!(&p[8..12], &5u32.to_be_bytes());
        assert_eq!(&p[16..20], &0xdeadbeefu32.to_be_bytes());
    }
    assert_eq!(sequence_of(&packets[0]), 2);
}

#[test]
fn v9_too_long_data_flowset_fails() {
    let config = V9Config {
        header: None,
        flowsets: vec![
            V9FlowSet::Template { template_id: 256, fields: vec![field("IN_BYTES", 8)] },
            V9FlowSet::Data { template_id: 256, records: vec![http_record(); 8192] },
        ],
    };
    assert!(matches!(
        build_v9_packets_at(&config, 0, false, 0),
        Err(NetflowError::Generation(_))
    ));
    let config = V9Config {
        header: None,
        flowsets: vec![
            V9FlowSet::Template { template_id: 256, fields: vec![field("IN_BYTES", 8)] },
            V9FlowSet::Data { template_id: 256, records: vec![http_record(); 8191] },
        ],
    };
    let (packets, _) = build_v9_packets_at(&config, 0, false, 0).unwrap();
    assert_eq!(packets[0].len(), 20 + 4 + 8 * 8191);
}

#[test]
fn v9_build_with_clock_succeeds() {
    let config = template_and_data(vec![http_record()]);
    let (packets, next) = build_v9_packets(&config, 0, true).unwrap();
    assert_eq!(packets.len(), 2);
    assert_eq!(next, 1);
}

#[test]
fn v9_template_packet_builder_counts_templates() {
    let a = seven_fields();
    let b = vec![field("IN_BYTES", 4)];
    let templates = vec![
        V9Template { template_id: 256, fields: &a },
        V9Template { template_id: 257, fields: &b },
    ];
    let stamp = V9Stamp { sys_up_time: 1, unix_secs: 2, source_id: 3 };
    let packet = build_template_packet(&stamp, 4, &templates).unwrap();
    assert_eq!(&packet[2..4], &[0, 2]);
    assert_eq!(packet.len(), 20 + 36 + 12);
    assert_eq!(&packet[56..58], &[0, 0]);
    assert_eq!(&packet[58..60], &12u16.to_be_bytes());
    assert_eq!(&packet[60..62], &257u16.to_be_bytes());
}

#[test]
fn v9_data_packet_builder_with_no_records() {
    let stamp = V9Stamp { sys_up_time: 1, unix_secs: 2, source_id: 3 };
    let packet = build_data_packet(&stamp, 4, 256, &seven_fields(), &vec![]).unwrap();
    assert_eq!(packet.len(), 24);
    assert_eq!(&packet[20..24], &[1, 0, 0, 4]);
}

#[test]
fn v9_field_names_map_to_ids() {
    assert_eq!(field_name_to_id("IN_BYTES"), Some(1));
    assert_eq!(field_name_to_id("IPV4_SRC_ADDR"), Some(8));
    assert_eq!(field_name_to_id("OUT_PKTS"), Some(24));
    assert_eq!(field_name_to_id("in_bytes"), None);
    assert_eq!(field_name_to_id(""), None);
}

#[test]
fn v9_packets_decode() {
    let config = template_and_data(vec![http_record(), http_record()]);
    let (packets, _) = build_v9_packets_at(&config, 0, true, 1_700_000_000).unwrap();
    let mut parser = NetflowParser::default();
    for p in &packets {
        let parsed = parser.parse_bytes(p);
        assert!(parsed.error.is_none());
        assert_eq!(parsed.packets.len(), 1);
        assert!(matches!(parsed.packets[0], NetflowPacket::V9(_)));
    }
}

#[test]
fn v9_error_messages_name_the_cause() {
    let config = V9Config {
        header: None,
        flowsets: vec![
            V9FlowSet::Template { template_id: 256, fields: seven_fields() },
            V9FlowSet::Data { template_id: 65535, records: vec![http_record()] },
        ],
    };
    assert_eq!(
        build_v9_packets_at(&config, 0, false, 0).unwrap_err().message(),
        "Data flowset references undefined template ID: 65535"
    );
    let config = V9Config {
        header: None,
        flowsets: vec![V9FlowSet::Template {
            template_id: 256,
            fields: vec![field("IN_BYTES", 4), field("NOT_A_FIELD", 4)],
        }],
    };
    assert_eq!(
        build_v9_packets_at(&config, 0, true, 0).unwrap_err().message(),
        "Unknown field type: NOT_A_FIELD"
    );
}

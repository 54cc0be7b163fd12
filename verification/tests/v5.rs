use netflow_generator::config::schema::{V5Config, V5FlowSet, V5Header};
use netflow_generator::error::NetflowError;
use netflow_generator::generator::v5::{build_v5_packet, build_v5_packet_at};
use netflow_parser::{NetflowPacket, NetflowParser};

fn one_flow() -> V5FlowSet {
    V5FlowSet {
        src_addr: [192, 168, 1, 10],
        dst_addr: [10, 0, 0, 50],
        next_hop: [192, 168, 1, 1],
        input: 1,
        output: 2,
        d_pkts: 100,
        d_octets: 65000,
        first: 350000,
        last: 360000,
        src_port: 54321,
        dst_port: 443,
        tcp_flags: 0x18,
        protocol: 6,
        tos: 0,
        src_as: 65001,
        dst_as: 65002,
        src_mask: 24,
        dst_mask: 24,
    }
}

#[test]
fn test_build_v5_packet() {
    let config = V5Config { header: None, flowsets: vec![one_flow()] };

    let (packet, _) = build_v5_packet(&config, 0).unwrap();

    // Verify packet can be parsed back
    let mut parser = NetflowParser::default();
    let parsed = parser.parse_bytes(&packet);
    assert_eq!(parsed.packets.len(), 1);
}

#[test]
fn v5_single_flow_default_header() {
    let config = V5Config { header: None, flowsets: vec![one_flow()] };
    let (packet, next) = build_v5_packet_at(&config, 7, 1_700_000_000).unwrap();
    assert_eq!(packet.len(), 72);
    assert_eq!(&packet[0..2], &[0x00, 0x05]);
    assert_eq!(&packet[2..4], &[0x00, 0x01]);
    assert_eq!(&packet[24..28], &[192, 168, 1, 10]);
    assert_eq!(next, 8);
}

#[test]
fn v5_exact_bytes() {
    let config = V5Config { header: None, flowsets: vec![one_flow()] };
    let (packet, _) = build_v5_packet_at(&config, 7, 1_700_000_000).unwrap();
    let mut expected: Vec<u8> = Vec::new();
    expected.extend_from_slice(&5u16.to_be_bytes());
    expected.extend_from_slice(&1u16.to_be_bytes());
    expected.extend_from_slice(&360000u32.to_be_bytes());
    expected.extend_from_slice(&1_700_000_000u32.to_be_bytes());
    expected.extend_from_slice(&0u32.to_be_bytes());
    expected.extend_from_slice(&7u32.to_be_bytes());
    expected.extend_from_slice(&[0, 0]);
    expected.extend_from_slice(&0u16.to_be_bytes());
    expected.extend_from_slice(&[192, 168, 1, 10, 10, 0, 0, 50, 192, 168, 1, 1]);
    expected.extend_from_slice(&1u16.to_be_bytes());
    expected.extend_from_slice(&2u16.to_be_bytes());
    expected.extend_from_slice(&100u32.to_be_bytes());
    expected.extend_from_slice(&65000u32.to_be_bytes());
    expected.extend_from_slice(&350000u32.to_be_bytes());
    expected.extend_from_slice(&360000u32.to_be_bytes());
    expected.extend_from_slice(&54321u16.to_be_bytes());
    expected.extend_from_slice(&443u16.to_be_bytes());
    expected.extend_from_slice(&[0, 0x18, 6, 0]);
    expected.extend_from_slice(&65001u16.to_be_bytes());
    expected.extend_from_slice(&65002u16.to_be_bytes());
    expected.extend_from_slice(&[24, 24, 0, 0]);
    assert_eq!(packet, expected);
}

#[test]
fn v5_header_overrides_are_written() {
    let header = V5Header {
        unix_secs: Some(11),
        unix_nsecs: Some(22),
        sys_up_time: Some(33),
        flow_sequence: Some(44),
        engine_type: Some(5),
        engine_id: Some(6),
        sampling_interval: Some(0x4001),
    };
    let config = V5Config { header: Some(header), flowsets: vec![one_flow(), one_flow()] };
    let (packet, next) = build_v5_packet_at(&config, 1000, 1_700_000_000).unwrap();
    assert_eq!(packet.len(), 24 + 48 * 2);
    assert_eq!(&packet[2..4], &[0, 2]);
    assert_eq!(&packet[4..8], &33u32.to_be_bytes());
    assert_eq!(&packet[8..12], &11u32.to_be_bytes());
    assert_eq!(&packet[12..16], &22u32.to_be_bytes());
    // The sequence field carries the exporter's running number.
    assert_eq!(&packet[16..20], &1000u32.to_be_bytes());
    assert_eq!(&packet[20..24], &[5, 6, 0x40, 0x01]);
    assert_eq!(next, 1002);
}

#[test]
fn v5_clock_past_32_bits_saturates() {
    let config = V5Config { header: None, flowsets: vec![one_flow()] };
    let (packet, _) = build_v5_packet_at(&config, 0, u64::MAX).unwrap();
    assert_eq!(&packet[8..12], &[0xff, 0xff, 0xff, 0xff]);
}

#[test]
fn v5_length_is_24_plus_48_per_flow() {
    for n in [1usize, 2, 3, 30, 100] {
        let config = V5Config { header: None, flowsets: vec![one_flow(); n] };
        let (packet, next) = build_v5_packet_at(&config, 0, 0).unwrap();
        assert_eq!(packet.len(), 24 + 48 * n);
        assert_eq!(&packet[0..2], &5u16.to_be_bytes());
        assert_eq!(&packet[2..4], &(n as u16).to_be_bytes());
        assert_eq!(next as usize, n);
    }
}

#[test]
fn v5_without_flowsets_fails() {
    let config = V5Config { header: None, flowsets: vec![] };
    assert!(matches!(build_v5_packet_at(&config, 0, 0), Err(NetflowError::Generation(_))));
}

#[test]
fn v5_with_too_many_flowsets_fails() {
    let config = V5Config { header: None, flowsets: vec![one_flow(); 65536] };
    assert!(matches!(build_v5_packet_at(&config, 0, 0), Err(NetflowError::Generation(_))));
    let config = V5Config { header: None, flowsets: vec![one_flow(); 65535] };
    assert!(build_v5_packet_at(&config, 0, 0).is_ok());
}

#[test]
fn v5_sequence_overflow_fails() {
    let config = V5Config { header: None, flowsets: vec![one_flow(), one_flow()] };
    assert!(matches!(
        build_v5_packet_at(&config, u32::MAX - 1, 0),
        Err(NetflowError::Generation(_))
    ));
    let (_, next) = build_v5_packet_at(&config, u32::MAX - 2, 0).unwrap();
    assert_eq!(next, u32::MAX);
}

#[test]
fn v5_round_trip_through_decoder() {
    let flow = one_flow();
    let config = V5Config { header: None, flowsets: vec![flow] };
    let (packet, _) = build_v5_packet_at(&config, 9, 1_700_000_000).unwrap();
    let parsed = NetflowParser::default().parse_bytes(&packet);
    assert!(parsed.error.is_none());
    assert_eq!(parsed.packets.len(), 1);
    match &parsed.packets[0] {
        NetflowPacket::V5(v5) => {
            assert_eq!(v5.header.version, 5);
            assert_eq!(v5.header.count, 1);
            assert_eq!(v5.header.sys_up_time, 360000);
            assert_eq!(v5.header.unix_secs, 1_700_000_000);
            assert_eq!(v5.header.unix_nsecs, 0);
            assert_eq!(v5.header.flow_sequence, 9);
            assert_eq!(v5.header.engine_type, 0);
            assert_eq!(v5.header.engine_id, 0);
            assert_eq!(v5.header.sampling_interval, 0);
            let f = &v5.flowsets[0];
            assert_eq!(f.src_addr.octets(), flow.src_addr);
            assert_eq!(f.dst_addr.octets(), flow.dst_addr);
            assert_eq!(f.next_hop.octets(), flow.next_hop);
            assert_eq!(f.input, flow.input);
            assert_eq!(f.output, flow.output);
            assert_eq!(f.d_pkts, flow.d_pkts);
            assert_eq!(f.d_octets, flow.d_octets);
            assert_eq!(f.first, flow.first);
            assert_eq!(f.last, flow.last);
            assert_eq!(f.src_port, flow.src_port);
            assert_eq!(f.dst_port, flow.dst_port);
            assert_eq!(f.tcp_flags, flow.tcp_flags);
            assert_eq!(f.protocol_number, flow.protocol);
            assert_eq!(f.tos, flow.tos);
            assert_eq!(f.src_as, flow.src_as);
            assert_eq!(f.dst_as, flow.dst_as);
            assert_eq!(f.src_mask, flow.src_mask);
            assert_eq!(f.dst_mask, flow.dst_mask);
        }
        _ => panic!("decoded as another version"),
    }
}

#[test]
fn v5_same_input_gives_same_bytes() {
    let config = V5Config { header: None, flowsets: vec![one_flow()] };
    let a = build_v5_packet_at(&config, 3, 42).unwrap();
    let b = build_v5_packet_at(&config, 3, 42).unwrap();
    assert_eq!(a, b);
}

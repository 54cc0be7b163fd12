use netflow_generator::config::schema::{V7Config, V7FlowSet, V7Header};
use netflow_generator::error::NetflowError;
use netflow_generator::generator::v7::{build_v7_packet, build_v7_packet_at};
use netflow_parser::{NetflowPacket, NetflowParser};

fn one_flow() -> V7FlowSet {
    V7FlowSet {
        src_addr: [10, 1, 1, 5],
        dst_addr: [172, 16, 0, 100],
        next_hop: [10, 1, 1, 1],
        input: 10,
        output: 20,
        d_pkts: 250,
        d_octets: 150000,
        first: 350000,
        last: 360000,
        src_port: 12345,
        dst_port: 80,
        flags: 0,
        tcp_flags: 0x02,
        protocol: 6,
        tos: 0,
        src_as: 64512,
        dst_as: 64513,
        src_mask: 16,
        dst_mask: 24,
        flags2: 0,
        router_src: [10, 1, 1, 254],
    }
}

#[test]
fn test_build_v7_packet() {
    let config = V7Config { header: None, flowsets: vec![one_flow()] };

    let packet = build_v7_packet(&config).unwrap();

    // Verify packet can be parsed back
    let mut parser = NetflowParser::default();
    let parsed = parser.parse_bytes(&packet);
    assert_eq!(parsed.packets.len(), 1);
}

#[test]
fn v7_exact_bytes() {
    let mut flow = one_flow();
    flow.flags = 0x81;
    flow.flags2 = 0x1234;
    let config = V7Config { header: None, flowsets: vec![flow] };
    let packet = build_v7_packet_at(&config, 1_700_000_000).unwrap();
    let mut expected: Vec<u8> = Vec::new();
    expected.extend_from_slice(&7u16.to_be_bytes());
    expected.extend_from_slice(&1u16.to_be_bytes());
    expected.extend_from_slice(&360000u32.to_be_bytes());
    expected.extend_from_slice(&1_700_000_000u32.to_be_bytes());
    expected.extend_from_slice(&0u32.to_be_bytes());
    expected.extend_from_slice(&0u32.to_be_bytes());
    expected.extend_from_slice(&0u32.to_be_bytes());
    expected.extend_from_slice(&[10, 1, 1, 5, 172, 16, 0, 100, 10, 1, 1, 1]);
    expected.extend_from_slice(&10u16.to_be_bytes());
    expected.extend_from_slice(&20u16.to_be_bytes());
    expected.extend_from_slice(&250u32.to_be_bytes());
    expected.extend_from_slice(&150000u32.to_be_bytes());
    expected.extend_from_slice(&350000u32.to_be_bytes());
    expected.extend_from_slice(&360000u32.to_be_bytes());
    expected.extend_from_slice(&12345u16.to_be_bytes());
    expected.extend_from_slice(&80u16.to_be_bytes());
    expected.extend_from_slice(&[0x81, 0x02, 6, 0]);
    expected.extend_from_slice(&64512u16.to_be_bytes());
    expected.extend_from_slice(&64513u16.to_be_bytes());
    expected.extend_from_slice(&[16, 24]);
    expected.extend_from_slice(&0x1234u16.to_be_bytes());
    expected.extend_from_slice(&[10, 1, 1, 254]);
    assert_eq!(expected.len(), 24 + 52);
    assert_eq!(packet, expected);
}

#[test]
fn v7_header_overrides_are_written() {
    let header = V7Header {
        unix_secs: Some(1),
        unix_nsecs: Some(2),
        sys_up_time: Some(3),
        flow_sequence: Some(4),
        reserved: Some(5),
    };
    let config = V7Config { header: Some(header), flowsets: vec![one_flow(); 3] };
    let packet = build_v7_packet_at(&config, 99).unwrap();
    assert_eq!(packet.len(), 24 + 52 * 3);
    assert_eq!(&packet[0..2], &[0, 7]);
    assert_eq!(&packet[2..4], &[0, 3]);
    assert_eq!(&packet[4..8], &3u32.to_be_bytes());
    assert_eq!(&packet[8..12], &1u32.to_be_bytes());
    assert_eq!(&packet[12..16], &2u32.to_be_bytes());
    assert_eq!(&packet[16..20], &4u32.to_be_bytes());
    assert_eq!(&packet[20..24], &5u32.to_be_bytes());
}

#[test]
fn v7_without_flowsets_fails() {
    let config = V7Config { header: None, flowsets: vec![] };
    assert!(matches!(build_v7_packet_at(&config, 0), Err(NetflowError::Generation(_))));
}

#[test]
fn v7_with_too_many_flowsets_fails() {
    let config = V7Config { header: None, flowsets: vec![one_flow(); 65536] };
    assert!(matches!(build_v7_packet_at(&config, 0), Err(NetflowError::Generation(_))));
}

#[test]
fn v7_round_trip_through_decoder() {
    let flow = one_flow();
    let config = V7Config { header: None, flowsets: vec![flow] };
    let packet = build_v7_packet_at(&config, 1_700_000_000).unwrap();
    let parsed = NetflowParser::default().parse_bytes(&packet);
    assert!(parsed.error.is_none());
    match &parsed.packets[0] {
        NetflowPacket::V7(v7) => {
            assert_eq!(v7.header.count, 1);
            let f = &v7.flowsets[0];
            assert_eq!(f.src_addr.octets(), flow.src_addr);
            assert_eq!(f.router_src.octets(), flow.router_src);
            assert_eq!(f.d_octets, flow.d_octets);
            assert_eq!(f.flags_fields_valid, flow.flags);
            assert_eq!(f.flags_fields_invalid, flow.flags2);
            assert_eq!(f.dst_as, flow.dst_as);
        }
        _ => panic!("decoded as another version"),
    }
}

use netflow_generator::config::schema::{V5Config, V5FlowSet};
use netflow_generator::error::NetflowError;
use netflow_generator::generator::v5::build_v5_packet_at;
use netflow_generator::transmitter::udp::{
    build_udp_packet, calculate_checksum, capture_record_bytes, frame_packets, SocketDestination,
    FRAME_SOURCE_PORT,
};

fn ones_complement_sum(data: &[u8]) -> u32 {
    let mut sum: u32 = 0;
    for pair in data.chunks(2) {
        let hi = pair[0] as u32;
        let lo = if pair.len() == 2 { pair[1] as u32 } else { 0 };
        sum += hi * 256 + lo;
    }
    while sum > 0xffff {
        sum = (sum & 0xffff) + (sum >> 16);
    }
    sum
}

fn v5_packet() -> Vec<u8> {
    let flow = V5FlowSet {
        src_addr: [192, 168, 1, 10],
        dst_addr: [10, 0, 0, 50],
        next_hop: [192, 168, 1, 1],
        input: 1,
        output: 2,
        d_pkts: 100,
        d_octets: 65000,
        first: 350000,
        last: 360000,
        src_port: 54321,
        dst_port: 443,
        tcp_flags: 0x18,
        protocol: 6,
        tos: 0,
        src_as: 65001,
        dst_as: 65002,
        src_mask: 24,
        dst_mask: 24,
    };
    build_v5_packet_at(&V5Config { header: None, flowsets: vec![flow] }, 0, 0).unwrap().0
}

#[test]
fn capture_frame_of_a_v5_packet() {
    let payload = v5_packet();
    assert_eq!(payload.len(), 72);
    let dest = SocketDestination::V4 { ip: [192, 0, 2, 7], port: 9995 };
    let frames = frame_packets(&vec![payload.clone()], &dest).unwrap();
    assert_eq!(frames.len(), 1);
    let frame = &frames[0];
    assert_eq!(frame.len(), 14 + 20 + 8 + 72);
    assert_eq!(&frame[0..6], &[0, 0, 0, 0, 0, 2]);
    assert_eq!(&frame[6..12], &[0, 0, 0, 0, 0, 1]);
    assert_eq!(&frame[12..14], &[0x08, 0x00]);
    assert_eq!(frame[14], 0x45);
    assert_eq!(frame[15], 0);
    assert_eq!(&frame[16..18], &100u16.to_be_bytes());
    assert_eq!(&frame[18..20], &[0, 0]);
    assert_eq!(&frame[20..22], &[0x40, 0]);
    assert_eq!(frame[22], 64);
    assert_eq!(frame[23], 17);
    assert_eq!(&frame[26..30], &[10, 0, 0, 1]);
    assert_eq!(&frame[30..34], &[192, 0, 2, 7]);
    assert_eq!(&frame[34..36], &12345u16.to_be_bytes());
    assert_eq!(&frame[36..38], &9995u16.to_be_bytes());
    assert_eq!(&frame[38..40], &80u16.to_be_bytes());
    assert_eq!(&frame[40..42], &[0, 0]);
    assert_eq!(&frame[42..], &payload[..]);
    assert_eq!(ones_complement_sum(&frame[14..34]), 0xffff);
    assert_eq!(FRAME_SOURCE_PORT, 12345);
}

#[test]
fn header_checksum_validates_for_many_inputs() {
    for len in [0usize, 1, 2, 3, 71, 72, 500, 1472, 65507] {
        for (ip, port) in [([0u8, 0, 0, 0], 0u16), ([255, 255, 255, 255], 65535), ([8, 8, 4, 4], 53)]
        {
            let dest = SocketDestination::V4 { ip, port };
            let frame = build_udp_packet([10, 0, 0, 1], 12345, &dest, &vec![0xa5; len]).unwrap();
            assert_eq!(frame.len(), 42 + len);
            assert_eq!(ones_complement_sum(&frame[14..34]), 0xffff);
            assert_eq!(&frame[16..18], &((28 + len) as u16).to_be_bytes());
            assert_eq!(&frame[38..40], &((8 + len) as u16).to_be_bytes());
        }
    }
}

#[test]
fn known_header_checksum() {
    // 4500 0064 0000 4000 4011 xxxx 0a00 0001 c000 0207
    let dest = SocketDestination::V4 { ip: [192, 0, 2, 7], port: 9995 };
    let frame = build_udp_packet([10, 0, 0, 1], 12345, &dest, &vec![0; 72]).unwrap();
    let sum: u32 = 0x4500 + 0x0064 + 0x4000 + 0x4011 + 0x0a00 + 0x0001 + 0xc000 + 0x0207;
    let folded = (sum & 0xffff) + (sum >> 16);
    let expected = !(folded as u16);
    assert_eq!(&frame[24..26], &expected.to_be_bytes());
}

#[test]
fn ipv6_destination_is_rejected() {
    let dest = SocketDestination::V6 { ip6: [0; 16], port: 2055 };
    assert!(matches!(
        build_udp_packet([10, 0, 0, 1], 12345, &dest, &vec![1, 2, 3]),
        Err(NetflowError::InvalidDestination(_))
    ));
    assert!(matches!(
        frame_packets(&vec![vec![1, 2, 3]], &dest),
        Err(NetflowError::InvalidDestination(_))
    ));
    assert_eq!(frame_packets(&vec![], &dest).unwrap(), Vec::<Vec<u8>>::new());
}

#[test]
fn oversized_payload_is_rejected() {
    let dest = SocketDestination::V4 { ip: [127, 0, 0, 1], port: 2055 };
    assert!(build_udp_packet([10, 0, 0, 1], 1, &dest, &vec![0; 65507]).is_ok());
    assert!(matches!(
        build_udp_packet([10, 0, 0, 1], 1, &dest, &vec![0; 65508]),
        Err(NetflowError::InvalidPacket(_))
    ));
}

#[test]
fn checksum_of_plain_data() {
    assert_eq!(calculate_checksum(&vec![]).unwrap(), 0xffff);
    assert_eq!(calculate_checksum(&vec![0x12, 0x34]).unwrap(), !0x1234u16);
    assert_eq!(calculate_checksum(&vec![0x12]).unwrap(), !0x1200u16);
    assert_eq!(calculate_checksum(&vec![0xff, 0xff, 0x00, 0x01]).unwrap(), !0x0001u16);
    assert_eq!(calculate_checksum(&vec![0xff, 0xff, 0xff, 0xff, 0xff]).unwrap(), !0xff00u16);
    // RFC 1071 example: 0001 f203 f4f5 f6f7 sums to ddf2.
    assert_eq!(
        calculate_checksum(&vec![0x00, 0x01, 0xf2, 0x03, 0xf4, 0xf5, 0xf6, 0xf7]).unwrap(),
        !0xddf2u16
    );
}

#[test]
fn checksum_sum_overflow_is_an_error() {
    // 65538 words of 0xffff exceed 32 bits.
    let data = vec![0xffu8; 2 * 65538];
    assert!(matches!(calculate_checksum(&data), Err(NetflowError::InvalidPacket(_))));
    let data = vec![0xffu8; 2 * 65537];
    assert_eq!(calculate_checksum(&data).unwrap(), 0);
}

#[test]
fn capture_record_is_big_endian() {
    let record = capture_record_bytes(0x01020304, 0x0a0b0c0d, &vec![9, 8, 7]).unwrap();
    assert_eq!(
        record,
        vec![1, 2, 3, 4, 0x0a, 0x0b, 0x0c, 0x0d, 0, 0, 0, 3, 0, 0, 0, 3, 9, 8, 7]
    );
}

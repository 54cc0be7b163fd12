use netflow_generator::generator::samples::{
    generate_all_samples, generate_all_samples_at, sample_ipfix_config, sample_v5_config,
    sample_v7_config, sample_v9_config,
};
use netflow_generator::config::schema::{FieldValue, IPFixFlowSet, V9FlowSet};
use netflow_parser::NetflowParser;

#[test]
fn samples_give_six_packets() {
    let packets = generate_all_samples_at(1_700_000_000).unwrap();
    assert_eq!(packets.len(), 6);
    assert_eq!(packets[0].len(), 72);
    assert_eq!(&packets[0][0..2], &[0, 5]);
    assert_eq!(&packets[0][24..28], &[192, 168, 1, 100]);
    assert_eq!(packets[1].len(), 76);
    assert_eq!(&packets[1][0..2], &[0, 7]);
    assert_eq!(&packets[2][0..2], &[0, 9]);
    assert_eq!(&packets[2][20..22], &[0, 0]);
    assert_eq!(&packets[3][20..22], &256u16.to_be_bytes());
    assert_eq!(&packets[3][24..28], &[192, 168, 10, 5]);
    assert_eq!(&packets[4][0..2], &[0, 10]);
    assert_eq!(&packets[4][16..18], &[0, 2]);
    assert_eq!(&packets[5][16..18], &300u16.to_be_bytes());
    assert_eq!(&packets[5][20..24], &[172, 20, 0, 100]);
}

#[test]
fn samples_decode() {
    let packets = generate_all_samples().unwrap();
    let mut parser = NetflowParser::default();
    for p in &packets {
        let parsed = parser.parse_bytes(p);
        assert!(parsed.error.is_none());
        assert_eq!(parsed.packets.len(), 1);
    }
}

#[test]
fn sample_configurations() {
    let v5 = sample_v5_config();
    assert!(v5.header.is_none());
    assert_eq!(v5.flowsets.len(), 1);
    assert_eq!(v5.flowsets[0].dst_addr, [172, 217, 14, 206]);
    assert_eq!(v5.flowsets[0].d_octets, 95000);
    assert_eq!(v5.flowsets[0].dst_as, 15169);
    let v7 = sample_v7_config();
    assert_eq!(v7.flowsets[0].dst_addr, [8, 8, 8, 8]);
    assert_eq!(v7.flowsets[0].protocol, 17);
    assert_eq!(v7.flowsets[0].router_src, [10, 0, 0, 1]);
    let v9 = sample_v9_config();
    match &v9.flowsets[0] {
        V9FlowSet::Template { template_id, fields } => {
            assert_eq!(*template_id, 256);
            assert_eq!(fields.len(), 7);
            assert_eq!(fields[0].field_type, "IPV4_SRC_ADDR");
            assert_eq!(fields[6].field_length, 1);
        }
        _ => panic!("template expected"),
    }
    match &v9.flowsets[1] {
        V9FlowSet::Data { template_id, records } => {
            assert_eq!(*template_id, 256);
            assert_eq!(records.len(), 1);
            assert_eq!(records[0].entries[3].key, "in_bytes");
            assert!(matches!(records[0].entries[3].value, FieldValue::Unsigned(35000)));
        }
        _ => panic!("data expected"),
    }
    let ipfix = sample_ipfix_config();
    match &ipfix.flowsets[1] {
        IPFixFlowSet::Data { template_id, records } => {
            assert_eq!(*template_id, 300);
            assert_eq!(records[0].entries[1].key, "destination_ipv4_address");
        }
        _ => panic!("data expected"),
    }
}

use netflow_generator::config::schema::{
    Config, Destination, FieldValue, FlowConfig, IPFixConfig, IPFixFlowSet, IPFixHeader,
    IPFixTemplateField, Record, RecordEntry, V5Config, V5FlowSet, V5Header, V7Config, V7FlowSet,
    V7Header, V9Config, V9FlowSet, V9Header, V9TemplateField,
};
use netflow_generator::error::NetflowError;
use netflow_generator::exporter::{
    build_entry, build_group, exporter_identity, group_flows, initial_sequence, ExporterId,
};
use netflow_generator::sequence::SequenceStore;
use netflow_generator::tick::{
    build_exporter_group, generate_packets_from_config, generate_packets_from_config_at,
    merge_group_results, start_sequence,
};

fn v5_flow() -> V5FlowSet {
    V5FlowSet {
        src_addr: [192, 168, 1, 10],
        dst_addr: [10, 0, 0, 50],
        next_hop: [192, 168, 1, 1],
        input: 1,
        output: 2,
        d_pkts: 100,
        d_octets: 65000,
        first: 350000,
        last: 360000,
        src_port: 54321,
        dst_port: 443,
        tcp_flags: 0x18,
        protocol: 6,
        tos: 0,
        src_as: 65001,
        dst_as: 65002,
        src_mask: 24,
        dst_mask: 24,
    }
}

fn v5_entry(engine: Option<(u8, u8)>, flows: usize) -> FlowConfig {
    let header = engine.map(|(engine_type, engine_id)| V5Header {
        unix_secs: None,
        unix_nsecs: None,
        sys_up_time: None,
        flow_sequence: None,
        engine_type: Some(engine_type),
        engine_id: Some(engine_id),
        sampling_interval: None,
    });
    FlowConfig::V5(V5Config { header, flowsets: vec![v5_flow(); flows] })
}

fn v7_entry(sequence: Option<u32>) -> FlowConfig {
    let header = sequence.map(|s| V7Header {
        unix_secs: None,
        unix_nsecs: None,
        sys_up_time: None,
        flow_sequence: Some(s),
        reserved: None,
    });
    FlowConfig::V7(V7Config {
        header,
        flowsets: vec![V7FlowSet {
            src_addr: [10, 1, 1, 5],
            dst_addr: [172, 16, 0, 100],
            next_hop: [10, 1, 1, 1],
            input: 10,
            output: 20,
            d_pkts: 250,
            d_octets: 150000,
            first: 350000,
            last: 360000,
            src_port: 12345,
            dst_port: 80,
            flags: 0,
            tcp_flags: 0x02,
            protocol: 6,
            tos: 0,
            src_as: 64512,
            dst_as: 64513,
            src_mask: 16,
            dst_mask: 24,
            flags2: 0,
            router_src: [10, 1, 1, 254],
        }],
    })
}

fn record() -> Record {
    Record {
        entries: vec![RecordEntry { key: "in_bytes".to_string(), value: FieldValue::Unsigned(9) }],
    }
}

fn v9_entry(source_id: Option<u32>, start: Option<u32>, records: usize) -> FlowConfig {
    let header = if source_id.is_some() || start.is_some() {
        Some(V9Header { sys_up_time: None, unix_secs: None, sequence_number: start, source_id })
    } else {
        None
    };
    FlowConfig::V9(V9Config {
        header,
        flowsets: vec![
            V9FlowSet::Template {
                template_id: 256,
                fields: vec![V9TemplateField {
                    field_type: "IN_BYTES".to_string(),
                    field_length: 4,
                }],
            },
            V9FlowSet::Data { template_id: 256, records: vec![record(); records] },
        ],
    })
}

fn ipfix_entry(domain: Option<u32>, records: usize) -> FlowConfig {
    let header = domain.map(|d| IPFixHeader {
        export_time: None,
        sequence_number: None,
        observation_domain_id: Some(d),
    });
    FlowConfig::IPFix(IPFixConfig {
        header,
        flowsets: vec![
            IPFixFlowSet::Template {
                template_id: 300,
                fields: vec![IPFixTemplateField {
                    field_type: "octetDeltaCount".to_string(),
                    field_length: 8,
                }],
            },
            IPFixFlowSet::Data { template_id: 300, records: vec![record(); records] },
        ],
    })
}

fn config(flows: Vec<FlowConfig>) -> Config {
    Config { flows, destination: Destination::default() }
}

fn v9_sequence(packet: &[u8]) -> u32 {
    u32::from_be_bytes([packet[12], packet[13], packet[14], packet[15]])
}

#[test]
fn identities_follow_the_headers() {
    assert_eq!(
        exporter_identity(&v5_entry(None, 1), 0),
        ExporterId::V5 { engine_type: 0, engine_id: 0 }
    );
    assert_eq!(
        exporter_identity(&v5_entry(Some((3, 4)), 1), 9),
        ExporterId::V5 { engine_type: 3, engine_id: 4 }
    );
    assert_eq!(exporter_identity(&v7_entry(None), 5), ExporterId::V7 { entry: 5 });
    assert_eq!(exporter_identity(&v9_entry(None, None, 1), 0), ExporterId::V9 { source_id: 1 });
    assert_eq!(
        exporter_identity(&v9_entry(Some(77), None, 1), 0),
        ExporterId::V9 { source_id: 77 }
    );
    assert_eq!(
        exporter_identity(&ipfix_entry(None, 1), 0),
        ExporterId::IPFix { observation_domain_id: 1 }
    );
    assert_eq!(
        exporter_identity(&ipfix_entry(Some(8), 1), 0),
        ExporterId::IPFix { observation_domain_id: 8 }
    );
}

#[test]
fn initial_sequence_is_the_configured_one_or_zero() {
    assert_eq!(initial_sequence(&v9_entry(None, None, 1)), 0);
    assert_eq!(initial_sequence(&v9_entry(Some(1), Some(500), 1)), 500);
    assert_eq!(initial_sequence(&v7_entry(Some(12))), 12);
    assert_eq!(initial_sequence(&v5_entry(None, 1)), 0);
}

#[test]
fn flows_are_grouped_by_exporter_in_input_order() {
    let flows = vec![
        v9_entry(Some(2), None, 1),
        v5_entry(None, 1),
        v7_entry(None),
        v9_entry(Some(1), None, 1),
        v9_entry(Some(2), None, 1),
        v7_entry(None),
        v5_entry(Some((0, 0)), 1),
        ipfix_entry(Some(2), 1),
    ];
    let groups = group_flows(&flows);
    let got: Vec<(ExporterId, Vec<usize>)> =
        groups.iter().map(|g| (g.id, g.entries.clone())).collect();
    assert_eq!(
        got,
        vec![
            (ExporterId::V9 { source_id: 2 }, vec![0, 4]),
            (ExporterId::V5 { engine_type: 0, engine_id: 0 }, vec![1, 6]),
            (ExporterId::V7 { entry: 2 }, vec![2]),
            (ExporterId::V9 { source_id: 1 }, vec![3]),
            (ExporterId::V7 { entry: 5 }, vec![5]),
            (ExporterId::IPFix { observation_domain_id: 2 }, vec![7]),
        ]
    );
    assert!(group_flows(&vec![]).is_empty());
}

#[test]
fn store_keeps_the_last_number_per_exporter() {
    let mut store = SequenceStore::new();
    let a = ExporterId::V9 { source_id: 1 };
    let b = ExporterId::IPFix { observation_domain_id: 1 };
    assert_eq!(store.get(a), None);
    store.set(a, 5);
    store.set(b, 6);
    assert_eq!(store.get(a), Some(5));
    assert_eq!(store.get(b), Some(6));
    store.set(a, 9);
    assert_eq!(store.get(a), Some(9));
    assert_eq!(store.get(b), Some(6));
    assert_eq!(store.get(ExporterId::V9 { source_id: 2 }), None);
}

#[test]
fn parallel_exporters_have_independent_sequences() {
    let cfg = config(vec![v9_entry(Some(1), None, 1), v9_entry(Some(2), None, 1)]);
    let mut store = SequenceStore::new();
    let packets = generate_packets_from_config_at(&cfg, &mut store, false, 0).unwrap();
    assert_eq!(packets.len(), 2);
    assert_eq!(v9_sequence(&packets[0]), 0);
    assert_eq!(v9_sequence(&packets[1]), 0);
    assert_eq!(&packets[0][16..20], &1u32.to_be_bytes());
    assert_eq!(&packets[1][16..20], &2u32.to_be_bytes());
    assert_eq!(store.get(ExporterId::V9 { source_id: 1 }), Some(1));
    assert_eq!(store.get(ExporterId::V9 { source_id: 2 }), Some(1));
}

#[test]
fn entries_of_one_exporter_share_the_sequence() {
    let cfg = config(vec![
        v9_entry(None, Some(100), 2),
        v5_entry(None, 3),
        v9_entry(None, Some(7000), 3),
        v5_entry(None, 1),
    ]);
    let mut store = SequenceStore::new();
    let packets = generate_packets_from_config_at(&cfg, &mut store, false, 0).unwrap();
    // v9 group first (entries 0 and 2), then the v5 group (entries 1 and 3).
    assert_eq!(packets.len(), 4);
    assert_eq!(v9_sequence(&packets[0]), 100);
    assert_eq!(v9_sequence(&packets[1]), 102);
    assert_eq!(&packets[2][16..20], &0u32.to_be_bytes());
    assert_eq!(&packets[3][16..20], &3u32.to_be_bytes());
    assert_eq!(store.get(ExporterId::V9 { source_id: 1 }), Some(105));
    assert_eq!(store.get(ExporterId::V5 { engine_type: 0, engine_id: 0 }), Some(4));
}

#[test]
fn sequences_carry_over_from_tick_to_tick() {
    let cfg = config(vec![v9_entry(None, None, 2), ipfix_entry(None, 3), v5_entry(None, 4)]);
    let mut store = SequenceStore::new();
    for tick in 0u32..5 {
        let packets = generate_packets_from_config_at(&cfg, &mut store, tick == 0, 0).unwrap();
        let data = if tick == 0 { &packets[1] } else { &packets[0] };
        assert_eq!(v9_sequence(data), 2 * tick);
        assert_eq!(store.get(ExporterId::V9 { source_id: 1 }), Some(2 * (tick + 1)));
        assert_eq!(
            store.get(ExporterId::IPFix { observation_domain_id: 1 }),
            Some(3 * (tick + 1))
        );
        assert_eq!(
            store.get(ExporterId::V5 { engine_type: 0, engine_id: 0 }),
            Some(4 * (tick + 1))
        );
    }
}

#[test]
fn v7_is_not_tracked() {
    let cfg = config(vec![v7_entry(Some(40))]);
    let mut store = SequenceStore::new();
    for _ in 0..3 {
        let packets = generate_packets_from_config_at(&cfg, &mut store, true, 0).unwrap();
        assert_eq!(&packets[0][16..20], &40u32.to_be_bytes());
        assert_eq!(store.get(ExporterId::V7 { entry: 0 }), None);
    }
}

#[test]
fn failed_tick_leaves_the_store_alone() {
    let broken = FlowConfig::V9(V9Config {
        header: Some(V9Header {
            sys_up_time: None,
            unix_secs: None,
            sequence_number: None,
            source_id: Some(9),
        }),
        flowsets: vec![V9FlowSet::Data { template_id: 256, records: vec![record()] }],
    });
    let cfg = config(vec![v9_entry(None, None, 2), broken]);
    let mut store = SequenceStore::new();
    store.set(ExporterId::V9 { source_id: 1 }, 11);
    let result = generate_packets_from_config_at(&cfg, &mut store, true, 0);
    assert!(matches!(result, Err(NetflowError::Generation(_))));
    assert_eq!(store.get(ExporterId::V9 { source_id: 1 }), Some(11));
    assert_eq!(store.get(ExporterId::V9 { source_id: 9 }), None);
}

#[test]
fn groups_built_apart_merge_to_the_same_tick() {
    let cfg = config(vec![
        v9_entry(Some(1), None, 2),
        ipfix_entry(Some(1), 1),
        v9_entry(Some(1), None, 1),
        v7_entry(None),
    ]);
    let mut whole = SequenceStore::new();
    whole.set(ExporterId::V9 { source_id: 1 }, 50);
    let mut parts = whole.clone();
    let expected = generate_packets_from_config_at(&cfg, &mut whole, true, 123).unwrap();

    let groups = group_flows(&cfg.flows);
    let mut results = Vec::new();
    for group in groups.iter().rev() {
        results.push(build_exporter_group(&cfg.flows, group, &parts, true, 123).unwrap());
    }
    results.reverse();
    let merged = merge_group_results(&mut parts, &results);
    assert_eq!(merged, expected);
    for id in [ExporterId::V9 { source_id: 1 }, ExporterId::IPFix { observation_domain_id: 1 }] {
        assert_eq!(parts.get(id), whole.get(id));
    }
    assert_eq!(parts.get(ExporterId::V9 { source_id: 1 }), Some(53));
    assert_eq!(parts.get(ExporterId::V7 { entry: 3 }), None);
}

#[test]
fn start_comes_from_the_store_or_the_first_entry() {
    let flows = vec![v9_entry(None, Some(30), 1), v9_entry(None, Some(99), 1)];
    let groups = group_flows(&flows);
    let mut store = SequenceStore::new();
    assert_eq!(start_sequence(&store, &flows, &groups[0]), 30);
    store.set(ExporterId::V9 { source_id: 1 }, 4);
    assert_eq!(start_sequence(&store, &flows, &groups[0]), 4);
}

#[test]
fn entry_and_group_builders_thread_the_sequence() {
    let flows = vec![v5_entry(None, 2), v5_entry(None, 5)];
    let (packets, next) = build_entry(&flows[0], 10, true, 0).unwrap();
    assert_eq!(packets.len(), 1);
    assert_eq!(next, 12);
    let (packets, next) = build_group(&flows, &vec![0, 1], 10, true, 0).unwrap();
    assert_eq!(packets.len(), 2);
    assert_eq!(&packets[0][16..20], &10u32.to_be_bytes());
    assert_eq!(&packets[1][16..20], &12u32.to_be_bytes());
    assert_eq!(next, 17);
    let (packets, next) = build_group(&flows, &vec![], 10, true, 0).unwrap();
    assert!(packets.is_empty());
    assert_eq!(next, 10);
}

#[test]
fn tick_with_the_clock_succeeds() {
    let cfg = config(vec![v5_entry(None, 1), v9_entry(None, None, 1)]);
    let mut store = SequenceStore::new();
    let packets = generate_packets_from_config(&cfg, &mut store, true).unwrap();
    assert_eq!(packets.len(), 3);
}

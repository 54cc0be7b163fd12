use netflow_generator::config::schema::{
    Config, Destination, FieldValue, FlowConfig, IPFixConfig, IPFixFlowSet, IPFixTemplateField,
    Record, RecordEntry, V9Config, V9FlowSet, V9TemplateField,
};
use netflow_generator::exporter::ExporterId;
use netflow_generator::refresh::TemplateRefreshClock;
use netflow_generator::sequence::SequenceStore;
use netflow_generator::tick::generate_packets_from_config_at;

fn record() -> Record {
    Record {
        entries: vec![RecordEntry { key: "in_bytes".to_string(), value: FieldValue::Unsigned(1) }],
    }
}

fn two_exporters() -> Config {
    Config {
        flows: vec![
            FlowConfig::V9(V9Config {
                header: None,
                flowsets: vec![
                    V9FlowSet::Template {
                        template_id: 256,
                        fields: vec![V9TemplateField {
                            field_type: "IN_BYTES".to_string(),
                            field_length: 4,
                        }],
                    },
                    V9FlowSet::Data { template_id: 256, records: vec![record()] },
                ],
            }),
            FlowConfig::IPFix(IPFixConfig {
                header: None,
                flowsets: vec![
                    IPFixFlowSet::Template {
                        template_id: 300,
                        fields: vec![IPFixTemplateField {
                            field_type: "octetDeltaCount".to_string(),
                            field_length: 8,
                        }],
                    },
                    IPFixFlowSet::Data { template_id: 300, records: vec![record(), record()] },
                ],
            }),
        ],
        destination: Destination::default(),
    }
}

fn is_template(packet: &[u8]) -> bool {
    match u16::from_be_bytes([packet[0], packet[1]]) {
        9 => packet[20..22] == [0, 0],
        10 => packet[16..18] == [0, 2],
        _ => false,
    }
}

#[test]
fn templates_only_on_first_tick_and_after_the_refresh_interval() {
    let config = two_exporters();
    let mut store = SequenceStore::new();
    let mut clock = TemplateRefreshClock::new(30);
    let mut template_ticks: Vec<u64> = Vec::new();
    for second in 0u64..60 {
        let include_templates = clock.tick(second);
        let packets =
            generate_packets_from_config_at(&config, &mut store, include_templates, second)
                .unwrap();
        let templates = packets.iter().filter(|p| is_template(p)).count();
        let data = packets.len() - templates;
        // Data datagrams appear every tick, one per exporter.
        assert_eq!(data, 2);
        if templates > 0 {
            assert_eq!(templates, 2);
            template_ticks.push(second);
        }
    }
    assert_eq!(template_ticks, vec![0, 30]);
    assert_eq!(store.get(ExporterId::V9 { source_id: 1 }), Some(60));
    assert_eq!(store.get(ExporterId::IPFix { observation_domain_id: 1 }), Some(120));
}

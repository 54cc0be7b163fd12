use netflow_generator::config::schema::{
    FlowConfig, IPFixConfig, IPFixFlowSet, IPFixTemplateField, V9Config, V9FlowSet, V9Header,
    V9TemplateField,
};
use netflow_generator::error::NetflowError;
use netflow_generator::template_cache::{validate_templates, TemplateCache};

fn v9_field(name: &str, length: u16) -> V9TemplateField {
    V9TemplateField { field_type: name.to_string(), field_length: length }
}

fn v9(source_id: u32, templates: Vec<(u16, Vec<V9TemplateField>)>) -> FlowConfig {
    FlowConfig::V9(V9Config {
        header: Some(V9Header {
            sys_up_time: None,
            unix_secs: None,
            sequence_number: None,
            source_id: Some(source_id),
        }),
        flowsets: templates
            .into_iter()
            .map(|(template_id, fields)| V9FlowSet::Template { template_id, fields })
            .collect(),
    })
}

fn ipfix(templates: Vec<u16>) -> FlowConfig {
    FlowConfig::IPFix(IPFixConfig {
        header: None,
        flowsets: templates
            .into_iter()
            .map(|template_id| IPFixFlowSet::Template {
                template_id,
                fields: vec![IPFixTemplateField {
                    field_type: "octetDeltaCount".to_string(),
                    field_length: 8,
                }],
            })
            .collect(),
    })
}

#[test]
fn new_cache_is_empty() {
    let cache = TemplateCache::new();
    assert!(cache.v9_templates().is_empty());
    assert!(cache.ipfix_templates().is_empty());
}

#[test]
fn one_message_per_exporter() {
    let flows = vec![
        v9(7, vec![(256, vec![v9_field("IN_BYTES", 4)])]),
        ipfix(vec![300, 301]),
        v9(8, vec![(256, vec![v9_field("IN_PKTS", 4)])]),
        v9(7, vec![(257, vec![v9_field("PROTOCOL", 1)]), (256, vec![v9_field("IN_BYTES", 4)])]),
    ];
    let cache = TemplateCache::from_config_at(&flows, 1_700_000_000).unwrap();
    let v9_packets = cache.v9_templates();
    assert_eq!(v9_packets.len(), 2);
    // Source 7: templates 256 and 257, each once.
    let p = &v9_packets[0];
    assert_eq!(&p[0..4], &[0, 9, 0, 2]);
    assert_eq!(&p[4..8], &360000u32.to_be_bytes());
    assert_eq!(&p[8..12], &1_700_000_000u32.to_be_bytes());
    assert_eq!(&p[12..16], &[0, 0, 0, 0]);
    assert_eq!(&p[16..20], &7u32.to_be_bytes());
    assert_eq!(p.len(), 20 + 12 + 12);
    assert_eq!(&p[24..26], &256u16.to_be_bytes());
    assert_eq!(&p[36..38], &257u16.to_be_bytes());
    assert_eq!(&v9_packets[1][16..20], &8u32.to_be_bytes());
    let ipfix_packets = cache.ipfix_templates();
    assert_eq!(ipfix_packets.len(), 1);
    assert_eq!(&ipfix_packets[0][0..2], &[0, 10]);
    assert_eq!(ipfix_packets[0].len(), 16 + 12 + 12);
    assert_eq!(&ipfix_packets[0][12..16], &1u32.to_be_bytes());
}

#[test]
fn conflicting_definitions_are_a_configuration_error() {
    let flows = vec![
        v9(7, vec![(256, vec![v9_field("IN_BYTES", 4)])]),
        v9(7, vec![(256, vec![v9_field("IN_BYTES", 8)])]),
    ];
    assert!(matches!(
        TemplateCache::from_config_at(&flows, 0),
        Err(NetflowError::Configuration(_))
    ));
    // The same id under another exporter is no conflict.
    let flows = vec![
        v9(7, vec![(256, vec![v9_field("IN_BYTES", 4)])]),
        v9(8, vec![(256, vec![v9_field("IN_BYTES", 8)])]),
    ];
    assert!(TemplateCache::from_config_at(&flows, 0).is_ok());
}

#[test]
fn exporter_without_templates_is_a_configuration_error() {
    let flows = vec![v9(7, vec![])];
    assert!(matches!(
        TemplateCache::from_config_at(&flows, 0),
        Err(NetflowError::Configuration(_))
    ));
}

#[test]
fn unknown_field_is_a_generation_error() {
    let flows = vec![v9(7, vec![(256, vec![v9_field("NOPE", 4)])])];
    assert!(matches!(TemplateCache::from_config_at(&flows, 0), Err(NetflowError::Generation(_))));
}

#[test]
fn cache_without_template_protocols_is_empty() {
    let cache = TemplateCache::from_config(&vec![]).unwrap();
    assert!(cache.v9_templates().is_empty());
    assert!(cache.ipfix_templates().is_empty());
}

#[test]
fn cache_error_messages_name_the_cause() {
    let flows = vec![
        v9(7, vec![(256, vec![v9_field("IN_BYTES", 4)])]),
        v9(7, vec![(256, vec![v9_field("IN_BYTES", 8)])]),
    ];
    assert_eq!(
        TemplateCache::from_config_at(&flows, 0).unwrap_err().message(),
        "Template ID 256 is used with different field definitions in source_id 7"
    );
    let flows = vec![v9(4000000000, vec![])];
    assert_eq!(
        TemplateCache::from_config_at(&flows, 0).unwrap_err().message(),
        "No templates found for V9 source_id 4000000000"
    );
}

#[test]
fn startup_validation_finds_undefined_and_conflicting_templates() {
    use_validate(&vec![], true);
    use_validate(&vec![v9(7, vec![(256, vec![v9_field("IN_BYTES", 4)])])], true);
    // An exporter without templates is no template error by itself.
    use_validate(&vec![v9(7, vec![])], true);
    // Conflicting redefinition within one exporter.
    use_validate(
        &vec![
            v9(7, vec![(256, vec![v9_field("IN_BYTES", 4)])]),
            v9(7, vec![(256, vec![v9_field("IN_PKTS", 4)])]),
        ],
        false,
    );
    // Undefined reference: the template lives in another entry.
    let data_only = FlowConfig::V9(V9Config {
        header: None,
        flowsets: vec![V9FlowSet::Data { template_id: 256, records: vec![] }],
    });
    use_validate(&vec![v9(1, vec![(256, vec![v9_field("IN_BYTES", 4)])]), data_only], false);
}

fn use_validate(flows: &Vec<FlowConfig>, expected_ok: bool) {
    let result = validate_templates(flows);
    assert_eq!(result.is_ok(), expected_ok);
    if let Err(e) = result {
        assert!(matches!(e, NetflowError::Configuration(_)));
    }
}

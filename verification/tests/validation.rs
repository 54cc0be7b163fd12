use netflow_generator::config::schema::{V9Config, V9FlowSet, V9TemplateField};
use netflow_generator::generator::v9::build_v9_packets_at;
use netflow_generator::generator::validation::{
    check_outcome, validate_ipfix_template, validate_v9_template, PacketKind, ParseOutcome,
};

#[test]
fn test_validation_module_compiles() {
    assert!(true);
}

fn template_only() -> V9Config {
    V9Config {
        header: None,
        flowsets: vec![V9FlowSet::Template {
            template_id: 256,
            fields: vec![
                V9TemplateField { field_type: "IPV4_SRC_ADDR".to_string(), field_length: 4 },
                V9TemplateField { field_type: "PROTOCOL".to_string(), field_length: 1 },
            ],
        }],
    }
}

#[test]
fn v9_template_packet_validates_as_v9() {
    let (packets, _) = build_v9_packets_at(&template_only(), 0, true, 1_700_000_000).unwrap();
    assert_eq!(packets.len(), 1);
    assert!(validate_v9_template(&packets[0]).is_ok());
}

#[test]
fn v9_template_packet_is_not_ipfix() {
    let (packets, _) = build_v9_packets_at(&template_only(), 0, true, 1_700_000_000).unwrap();
    assert!(validate_ipfix_template(&packets[0]).is_err());
}

#[test]
fn empty_buffer_does_not_validate() {
    assert!(validate_v9_template(&[]).is_err());
}

#[test]
fn outcome_with_error_is_rejected() {
    let outcome = ParseOutcome { kinds: vec![PacketKind::V9], failed: true };
    assert!(check_outcome(&outcome, PacketKind::V9).is_err());
    let outcome = ParseOutcome { kinds: vec![PacketKind::V9, PacketKind::V5], failed: false };
    assert!(check_outcome(&outcome, PacketKind::V9).is_err());
    let outcome = ParseOutcome { kinds: vec![PacketKind::V9, PacketKind::V9], failed: false };
    assert!(check_outcome(&outcome, PacketKind::V9).is_ok());
}

//! Built-in demonstration flows, one per protocol version, used when no configuration
//! is given.

use crate::clock::unix_time_secs;
use crate::config::schema::{
    FieldValue, IPFixConfig, IPFixFlowSet, IPFixTemplateField, Record, RecordEntry, V5Config,
    V5FlowSet, V7Config, V7FlowSet, V9Config, V9FlowSet, V9TemplateField,
};
use crate::error::NetflowError;
use crate::generator::flowset::{
    lemma_records_bytes_len, record_len, FieldSpec, Registry,
};
use crate::generator::ipfix::{
    build_ipfix_packets_at, ipfix_buildable, ipfix_field_specs, ipfix_packets, ipfix_templates_of,
};
use crate::generator::v5::{build_v5_packet_at, v5_packet};
use crate::generator::v7::{build_v7_packet_at, v7_packet};
use crate::generator::v9::{build_v9_packets_at, v9_buildable, v9_field_specs, v9_packets, v9_templates_of};
use crate::wire::{buffers, lemma_buffers_add, lemma_buffers_push};
use vstd::prelude::*;
use vstd::string::StringExecFns;

verus! {

/// Whether `config` is the v5 sample: HTTPS traffic from 192.168.1.100:52341 to
/// 172.217.14.206:443, with default header.
pub open spec fn is_sample_v5(config: V5Config) -> bool {
    &&& config.header is None
    &&& config.flowsets@.len() == 1
    &&& config.flowsets@[0].src_addr@ == seq![192u8, 168u8, 1u8, 100u8]
    &&& config.flowsets@[0].dst_addr@ == seq![172u8, 217u8, 14u8, 206u8]
    &&& config.flowsets@[0].next_hop@ == seq![192u8, 168u8, 1u8, 1u8]
    &&& config.flowsets@[0].input == 1
    &&& config.flowsets@[0].output == 2
    &&& config.flowsets@[0].d_pkts == 150
    &&& config.flowsets@[0].d_octets == 95000
    &&& config.flowsets@[0].first == 350000
    &&& config.flowsets@[0].last == 360000
    &&& config.flowsets@[0].src_port == 52341
    &&& config.flowsets@[0].dst_port == 443
    &&& config.flowsets@[0].tcp_flags == 0x18
    &&& config.flowsets@[0].protocol == 6
    &&& config.flowsets@[0].tos == 0
    &&& config.flowsets@[0].src_as == 65000
    &&& config.flowsets@[0].dst_as == 15169
    &&& config.flowsets@[0].src_mask == 24
    &&& config.flowsets@[0].dst_mask == 24
}

/// The v5 sample flow.
pub fn sample_v5_config() -> (config: V5Config)
    ensures
        is_sample_v5(config),
{
    let src_addr: [u8; 4] = [192, 168, 1, 100];
    let dst_addr: [u8; 4] = [172, 217, 14, 206];
    let next_hop: [u8; 4] = [192, 168, 1, 1];
    assert(src_addr@ =~= seq![192u8, 168u8, 1u8, 100u8]);
    assert(dst_addr@ =~= seq![172u8, 217u8, 14u8, 206u8]);
    assert(next_hop@ =~= seq![192u8, 168u8, 1u8, 1u8]);
    let mut flowsets: Vec<V5FlowSet> = Vec::new();
    flowsets.push(
        V5FlowSet {
            src_addr,
            dst_addr,
            next_hop,
            input: 1,
            output: 2,
            d_pkts: 150,
            d_octets: 95000,
            first: 350000,
            last: 360000,
            src_port: 52341,
            dst_port: 443,
            tcp_flags: 0x18,
            protocol: 6,
            tos: 0,
            src_as: 65000,
            dst_as: 15169,
            src_mask: 24,
            dst_mask: 24,
        },
    );
    V5Config { header: None, flowsets }
}

/// Whether `config` is the v7 sample: a DNS query from 10.0.0.50:54123 to 8.8.8.8:53,
/// with default header.
pub open spec fn is_sample_v7(config: V7Config) -> bool {
    &&& config.header is None
    &&& config.flowsets@.len() == 1
    &&& config.flowsets@[0].src_addr@ == seq![10u8, 0u8, 0u8, 50u8]
    &&& config.flowsets@[0].dst_addr@ == seq![8u8, 8u8, 8u8, 8u8]
    &&& config.flowsets@[0].next_hop@ == seq![10u8, 0u8, 0u8, 1u8]
    &&& config.flowsets@[0].input == 10
    &&& config.flowsets@[0].output == 20
    &&& config.flowsets@[0].d_pkts == 2
    &&& config.flowsets@[0].d_octets == 128
    &&& config.flowsets@[0].first == 355000
    &&& config.flowsets@[0].last == 355100
    &&& config.flowsets@[0].src_port == 54123
    &&& config.flowsets@[0].dst_port == 53
    &&& config.flowsets@[0].flags == 0
    &&& config.flowsets@[0].tcp_flags == 0
    &&& config.flowsets@[0].protocol == 17
    &&& config.flowsets@[0].tos == 0
    &&& config.flowsets@[0].src_as == 64512
    &&& config.flowsets@[0].dst_as == 15169
    &&& config.flowsets@[0].src_mask == 16
    &&& config.flowsets@[0].dst_mask == 8
    &&& config.flowsets@[0].flags2 == 0
    &&& config.flowsets@[0].router_src@ == seq![10u8, 0u8, 0u8, 1u8]
}

/// The v7 sample flow.
pub fn sample_v7_config() -> (config: V7Config)
    ensures
        is_sample_v7(config),
{
    let src_addr: [u8; 4] = [10, 0, 0, 50];
    let dst_addr: [u8; 4] = [8, 8, 8, 8];
    let next_hop: [u8; 4] = [10, 0, 0, 1];
    let router_src: [u8; 4] = [10, 0, 0, 1];
    assert(src_addr@ =~= seq![10u8, 0u8, 0u8, 50u8]);
    assert(dst_addr@ =~= seq![8u8, 8u8, 8u8, 8u8]);
    assert(next_hop@ =~= seq![10u8, 0u8, 0u8, 1u8]);
    assert(router_src@ =~= seq![10u8, 0u8, 0u8, 1u8]);
    let mut flowsets: Vec<V7FlowSet> = Vec::new();
    flowsets.push(
        V7FlowSet {
            src_addr,
            dst_addr,
            next_hop,
            input: 10,
            output: 20,
            d_pkts: 2,
            d_octets: 128,
            first: 355000,
            last: 355100,
            src_port: 54123,
            dst_port: 53,
            flags: 0,
            tcp_flags: 0,
            protocol: 17,
            tos: 0,
            src_as: 64512,
            dst_as: 15169,
            src_mask: 16,
            dst_mask: 8,
            flags2: 0,
            router_src,
        },
    );
    V7Config { header: None, flowsets }
}

/// Whether a record entry holds the given text under the given key.
pub open spec fn entry_is_text(entry: RecordEntry, key: Seq<char>, text: Seq<char>) -> bool {
    &&& entry.key@ == key
    &&& entry.value matches FieldValue::Text(t)
    &&& t@ == text
}

/// Whether a record entry holds the given number under the given key.
pub open spec fn entry_is_number(entry: RecordEntry, key: Seq<char>, number: u64) -> bool {
    entry.key@ == key && entry.value == FieldValue::Unsigned(number)
}

/// A record entry that holds a text.
fn text_entry(key: &str, text: &str) -> (entry: RecordEntry)
    ensures
        entry_is_text(entry, key@, text@),
{
    RecordEntry { key: String::from_str(key), value: FieldValue::Text(String::from_str(text)) }
}

/// A record entry that holds a number.
fn number_entry(key: &str, number: u64) -> (entry: RecordEntry)
    ensures
        entry_is_number(entry, key@, number),
{
    RecordEntry { key: String::from_str(key), value: FieldValue::Unsigned(number) }
}

/// Whether a template field has the given name and length.
pub open spec fn v9_field_is(field: V9TemplateField, name: Seq<char>, length: u16) -> bool {
    field.field_type@ == name && field.field_length == length
}

/// A template field with the given name and length.
fn v9_field(name: &str, length: u16) -> (field: V9TemplateField)
    ensures
        v9_field_is(field, name@, length),
{
    V9TemplateField { field_type: String::from_str(name), field_length: length }
}

/// Whether `config` is the v9 sample: template 256 with addresses, packet and byte
/// counts, ports and protocol, and one record of HTTP traffic from 192.168.10.5:48921
/// to 93.184.216.34:80.
pub open spec fn is_sample_v9(config: V9Config) -> bool {
    &&& config.header is None
    &&& config.flowsets@.len() == 2
    &&& config.flowsets@[0] matches V9FlowSet::Template { template_id, fields }
    &&& template_id == 256
    &&& fields@.len() == 7
    &&& v9_field_is(fields@[0], "IPV4_SRC_ADDR"@, 4)
    &&& v9_field_is(fields@[1], "IPV4_DST_ADDR"@, 4)
    &&& v9_field_is(fields@[2], "IN_PKTS"@, 4)
    &&& v9_field_is(fields@[3], "IN_BYTES"@, 4)
    &&& v9_field_is(fields@[4], "L4_SRC_PORT"@, 2)
    &&& v9_field_is(fields@[5], "L4_DST_PORT"@, 2)
    &&& v9_field_is(fields@[6], "PROTOCOL"@, 1)
    &&& config.flowsets@[1] matches V9FlowSet::Data { template_id: data_id, records }
    &&& data_id == 256
    &&& records@.len() == 1
    &&& records@[0].entries@.len() == 7
    &&& entry_is_text(records@[0].entries@[0], "src_addr"@, "192.168.10.5"@)
    &&& entry_is_text(records@[0].entries@[1], "dst_addr"@, "93.184.216.34"@)
    &&& entry_is_number(records@[0].entries@[2], "in_pkts"@, 50)
    &&& entry_is_number(records@[0].entries@[3], "in_bytes"@, 35000)
    &&& entry_is_number(records@[0].entries@[4], "src_port"@, 48921)
    &&& entry_is_number(records@[0].entries@[5], "dst_port"@, 80)
    &&& entry_is_number(records@[0].entries@[6], "protocol"@, 6)
}

/// The v9 sample flow.
pub fn sample_v9_config() -> (config: V9Config)
    ensures
        is_sample_v9(config),
{
    let mut fields: Vec<V9TemplateField> = Vec::new();
    fields.push(v9_field("IPV4_SRC_ADDR", 4));
    fields.push(v9_field("IPV4_DST_ADDR", 4));
    fields.push(v9_field("IN_PKTS", 4));
    fields.push(v9_field("IN_BYTES", 4));
    fields.push(v9_field("L4_SRC_PORT", 2));
    fields.push(v9_field("L4_DST_PORT", 2));
    fields.push(v9_field("PROTOCOL", 1));
    let mut entries: Vec<RecordEntry> = Vec::new();
    entries.push(text_entry("src_addr", "192.168.10.5"));
    entries.push(text_entry("dst_addr", "93.184.216.34"));
    entries.push(number_entry("in_pkts", 50));
    entries.push(number_entry("in_bytes", 35000));
    entries.push(number_entry("src_port", 48921));
    entries.push(number_entry("dst_port", 80));
    entries.push(number_entry("protocol", 6));
    let mut records: Vec<Record> = Vec::new();
    records.push(Record { entries });
    let mut flowsets: Vec<V9FlowSet> = Vec::new();
    flowsets.push(V9FlowSet::Template { template_id: 256, fields });
    flowsets.push(V9FlowSet::Data { template_id: 256, records });
    V9Config { header: None, flowsets }
}

/// Whether a template field has the given name and length.
pub open spec fn ipfix_field_is(field: IPFixTemplateField, name: Seq<char>, length: u16) -> bool {
    field.field_type@ == name && field.field_length == length
}

/// A template field with the given name and length.
fn ipfix_field(name: &str, length: u16) -> (field: IPFixTemplateField)
    ensures
        ipfix_field_is(field, name@, length),
{
    IPFixTemplateField { field_type: String::from_str(name), field_length: length }
}

/// Whether `config` is the IPFIX sample: template 300 with addresses, packet and byte
/// counts, ports and protocol, and one record of an SSH session from
/// 172.20.0.100:50122 to 198.51.100.10:22.
pub open spec fn is_sample_ipfix(config: IPFixConfig) -> bool {
    &&& config.header is None
    &&& config.flowsets@.len() == 2
    &&& config.flowsets@[0] matches IPFixFlowSet::Template { template_id, fields }
    &&& template_id == 300
    &&& fields@.len() == 7
    &&& ipfix_field_is(fields@[0], "sourceIPv4Address"@, 4)
    &&& ipfix_field_is(fields@[1], "destinationIPv4Address"@, 4)
    &&& ipfix_field_is(fields@[2], "packetDeltaCount"@, 8)
    &&& ipfix_field_is(fields@[3], "octetDeltaCount"@, 8)
    &&& ipfix_field_is(fields@[4], "sourceTransportPort"@, 2)
    &&& ipfix_field_is(fields@[5], "destinationTransportPort"@, 2)
    &&& ipfix_field_is(fields@[6], "protocolIdentifier"@, 1)
    &&& config.flowsets@[1] matches IPFixFlowSet::Data { template_id: data_id, records }
    &&& data_id == 300
    &&& records@.len() == 1
    &&& records@[0].entries@.len() == 7
    &&& entry_is_text(records@[0].entries@[0], "source_ipv4_address"@, "172.20.0.100"@)
    &&& entry_is_text(records@[0].entries@[1], "destination_ipv4_address"@, "198.51.100.10"@)
    &&& entry_is_number(records@[0].entries@[2], "packet_delta_count"@, 500)
    &&& entry_is_number(records@[0].entries@[3], "octet_delta_count"@, 125000)
    &&& entry_is_number(records@[0].entries@[4], "source_transport_port"@, 50122)
    &&& entry_is_number(records@[0].entries@[5], "destination_transport_port"@, 22)
    &&& entry_is_number(records@[0].entries@[6], "protocol_identifier"@, 6)
}

/// The IPFIX sample flow.
pub fn sample_ipfix_config() -> (config: IPFixConfig)
    ensures
        is_sample_ipfix(config),
{
    let mut fields: Vec<IPFixTemplateField> = Vec::new();
    fields.push(ipfix_field("sourceIPv4Address", 4));
    fields.push(ipfix_field("destinationIPv4Address", 4));
    fields.push(ipfix_field("packetDeltaCount", 8));
    fields.push(ipfix_field("octetDeltaCount", 8));
    fields.push(ipfix_field("sourceTransportPort", 2));
    fields.push(ipfix_field("destinationTransportPort", 2));
    fields.push(ipfix_field("protocolIdentifier", 1));
    let mut entries: Vec<RecordEntry> = Vec::new();
    entries.push(text_entry("source_ipv4_address", "172.20.0.100"));
    entries.push(text_entry("destination_ipv4_address", "198.51.100.10"));
    entries.push(number_entry("packet_delta_count", 500));
    entries.push(number_entry("octet_delta_count", 125000));
    entries.push(number_entry("source_transport_port", 50122));
    entries.push(number_entry("destination_transport_port", 22));
    entries.push(number_entry("protocol_identifier", 6));
    let mut records: Vec<Record> = Vec::new();
    records.push(Record { entries });
    let mut flowsets: Vec<IPFixFlowSet> = Vec::new();
    flowsets.push(IPFixFlowSet::Template { template_id: 300, fields });
    flowsets.push(IPFixFlowSet::Data { template_id: 300, records });
    IPFixConfig { header: None, flowsets }
}

/// The length of a record laid out by seven fields.
proof fn lemma_record_len_of_seven(fields: Seq<FieldSpec>)
    requires
        fields.len() == 7,
    ensures
        record_len(fields) == fields[0].length + fields[1].length + fields[2].length
            + fields[3].length + fields[4].length + fields[5].length + fields[6].length,
{
    let f6 = fields.drop_last();
    let f5 = f6.drop_last();
    let f4 = f5.drop_last();
    let f3 = f4.drop_last();
    let f2 = f3.drop_last();
    let f1 = f2.drop_last();
    let f0 = f1.drop_last();
    assert(record_len(f0) == 0);
    assert(record_len(f1) == record_len(f0) + f1.last().length);
    assert(record_len(f2) == record_len(f1) + f2.last().length);
    assert(record_len(f3) == record_len(f2) + f3.last().length);
    assert(record_len(f4) == record_len(f3) + f4.last().length);
    assert(record_len(f5) == record_len(f4) + f5.last().length);
    assert(record_len(f6) == record_len(f5) + f6.last().length);
    assert(record_len(fields) == record_len(f6) + fields.last().length);
}

/// The v9 sample can be built from sequence number 0.
pub proof fn lemma_sample_v9_buildable(config: V9Config, include_templates: bool)
    requires
        is_sample_v9(config),
    ensures
        v9_buildable(config, 0, include_templates),
{
    let flowsets = config.flowsets@;
    let fields = flowsets[0]->Template_fields@;
    let records = flowsets[1]->Data_records@;
    let one = flowsets.drop_last();
    let none = one.drop_last();
    assert(none.len() == 0);
    assert(one.last() == flowsets[0]);
    assert(flowsets.last() == flowsets[1]);
    let templates = v9_templates_of(flowsets);
    assert(v9_templates_of(none) =~= Seq::empty());
    assert(v9_templates_of(one) =~= seq![(256u16, fields)]);
    assert(templates =~= seq![(256u16, fields)]);
    assert(crate::generator::v9::v9_record_count(none) == 0);
    assert(crate::generator::v9::v9_record_count(one) == 0);
    assert(crate::generator::v9::v9_record_count(flowsets) == 1);
    assert(crate::generator::v9::v9_fields_known(fields)) by {
        assert forall|i: int| 0 <= i < fields.len() implies crate::generator::v9::v9_field_id(
            #[trigger] fields[i].field_type@,
        ) is Some by {
            if i == 0 {
            } else if i == 1 {
            } else if i == 2 {
            } else if i == 3 {
            } else if i == 4 {
            } else if i == 5 {
            } else {
                assert(i == 6);
            }
        }
    }
    let specs = v9_field_specs(fields);
    lemma_record_len_of_seven(specs);
    lemma_records_bytes_len(Registry::V9, specs, records);
    assert(records.len() * record_len(specs) == record_len(specs)) by (nonlinear_arith)
        requires
            records.len() == 1,
    ;
    assert(templates[0].1 == fields);
    assert(crate::generator::v9::find_template(templates, 256) == Some(fields));
    assert forall|i: int| 0 <= i < flowsets.len() implies crate::generator::v9::v9_flowset_ok(
        templates,
        #[trigger] flowsets[i],
    ) by {
        if i == 0 {
        } else {
            assert(i == 1);
        }
    }
}

/// The IPFIX sample can be built from sequence number 0.
pub proof fn lemma_sample_ipfix_buildable(config: IPFixConfig, include_templates: bool)
    requires
        is_sample_ipfix(config),
    ensures
        ipfix_buildable(config, 0, include_templates),
{
    let flowsets = config.flowsets@;
    let fields = flowsets[0]->Template_fields@;
    let records = flowsets[1]->Data_records@;
    let one = flowsets.drop_last();
    let none = one.drop_last();
    assert(none.len() == 0);
    assert(one.last() == flowsets[0]);
    assert(flowsets.last() == flowsets[1]);
    let templates = ipfix_templates_of(flowsets);
    assert(ipfix_templates_of(none) =~= Seq::empty());
    assert(ipfix_templates_of(one) =~= seq![(300u16, fields)]);
    assert(templates =~= seq![(300u16, fields)]);
    assert(crate::generator::ipfix::ipfix_record_count(none) == 0);
    assert(crate::generator::ipfix::ipfix_record_count(one) == 0);
    assert(crate::generator::ipfix::ipfix_record_count(flowsets) == 1);
    assert(crate::generator::ipfix::ipfix_fields_known(fields)) by {
        assert forall|i: int| 0 <= i < fields.len() implies crate::generator::ipfix::ipfix_field_id(
            #[trigger] fields[i].field_type@,
        ) is Some by {
            if i == 0 {
            } else if i == 1 {
            } else if i == 2 {
            } else if i == 3 {
            } else if i == 4 {
            } else if i == 5 {
            } else {
                assert(i == 6);
            }
        }
    }
    let specs = ipfix_field_specs(fields);
    lemma_record_len_of_seven(specs);
    lemma_records_bytes_len(Registry::IPFix, specs, records);
    assert(records.len() * record_len(specs) == record_len(specs)) by (nonlinear_arith)
        requires
            records.len() == 1,
    ;
    assert(templates[0].1 == fields);
    assert(crate::generator::ipfix::find_template(templates, 300) == Some(fields));
    let sets = crate::generator::ipfix::ipfix_template_sets(templates);
    assert(templates.drop_last() =~= Seq::empty());
    assert(crate::generator::ipfix::ipfix_template_sets(templates.drop_last()) =~= Seq::empty());
    crate::generator::flowset::lemma_template_fields_len(specs);
    assert(sets.len() == 36);
    assert forall|i: int| 0 <= i < flowsets.len() implies crate::generator::ipfix::ipfix_flowset_ok(
        templates,
        #[trigger] flowsets[i],
    ) by {
        if i == 0 {
        } else {
            assert(i == 1);
        }
    }
}

/// The packets of the four samples: the v5 packet, the v7 packet, the v9 template and
/// data messages, and the IPFIX template and data messages, all from sequence number 0.
pub open spec fn sample_packets(
    v5: V5Config,
    v7: V7Config,
    v9: V9Config,
    ipfix: IPFixConfig,
    now_secs: u64,
) -> Seq<Seq<u8>> {
    seq![v5_packet(v5, 0, now_secs), v7_packet(v7, now_secs)] + v9_packets(v9, 0, true, now_secs)
        + ipfix_packets(ipfix, 0, true, now_secs)
}

/// Builds the packets of the four samples at a given clock reading. This always
/// succeeds.
pub fn generate_all_samples_at(now_secs: u64) -> (res: Result<Vec<Vec<u8>>, NetflowError>)
    ensures
        res matches Ok(packets) && exists|
            v5: V5Config,
            v7: V7Config,
            v9: V9Config,
            ipfix: IPFixConfig,
        |
            {
                &&& is_sample_v5(v5)
                &&& is_sample_v7(v7)
                &&& is_sample_v9(v9)
                &&& is_sample_ipfix(ipfix)
                &&& buffers(packets@) == #[trigger] sample_packets(v5, v7, v9, ipfix, now_secs)
            },
{
    let v5 = sample_v5_config();
    let v7 = sample_v7_config();
    let v9 = sample_v9_config();
    let ipfix = sample_ipfix_config();
    proof {
        lemma_sample_v9_buildable(v9, true);
        lemma_sample_ipfix_buildable(ipfix, true);
    }
    let mut packets: Vec<Vec<u8>> = Vec::new();
    let (v5_bytes, _) = build_v5_packet_at(&v5, 0, now_secs)?;
    proof {
        lemma_buffers_push(packets@, v5_bytes);
    }
    packets.push(v5_bytes);
    let v7_bytes = build_v7_packet_at(&v7, now_secs)?;
    proof {
        lemma_buffers_push(packets@, v7_bytes);
    }
    packets.push(v7_bytes);
    let (mut v9_packets, _) = build_v9_packets_at(&v9, 0, true, now_secs)?;
    proof {
        lemma_buffers_add(packets@, v9_packets@);
    }
    packets.append(&mut v9_packets);
    let (mut ipfix_packets, _) = build_ipfix_packets_at(&ipfix, 0, true, now_secs)?;
    proof {
        lemma_buffers_add(packets@, ipfix_packets@);
    }
    packets.append(&mut ipfix_packets);
    assert(buffers(packets@) =~= sample_packets(v5, v7, v9, ipfix, now_secs));
    Ok(packets)
}

/// Builds the packets of the four samples, stamped with the current time.
///
/// Fails only when the system clock cannot be read; the packets that come out are
/// those that [`generate_all_samples_at`] builds for some clock reading.
pub fn generate_all_samples() -> (res: Result<Vec<Vec<u8>>, NetflowError>)
    ensures
        res matches Ok(packets) ==> exists|
            v5: V5Config,
            v7: V7Config,
            v9: V9Config,
            ipfix: IPFixConfig,
            now_secs: u64,
        |
            {
                &&& is_sample_v5(v5)
                &&& is_sample_v7(v7)
                &&& is_sample_v9(v9)
                &&& is_sample_ipfix(ipfix)
                &&& buffers(packets@) == #[trigger] sample_packets(v5, v7, v9, ipfix, now_secs)
            },
        res matches Err(e) ==> e is Generation,
{
    match unix_time_secs() {
        Some(now_secs) => generate_all_samples_at(now_secs),
        None => Err(NetflowError::generation("Failed to get system time")),
    }
}

} // verus!

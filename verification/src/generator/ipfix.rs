//! IPFIX: a 16-byte header per message that holds the message length, templates in a
//! message of their own, and one message per data set. The sequence number counts
//! exported data records.

use crate::clock::{saturate_secs, saturated_secs, unix_time_secs};
use crate::config::schema::{IPFixConfig, IPFixFlowSet, IPFixTemplateField, Record};
use crate::error::NetflowError;
use crate::generator::flowset::{
    encode_records, encode_template_body, is_set_chain, lemma_set_chain_append,
    lemma_set_chain_one, lemma_set_shape, lemma_template_fields_len, push_set, records_bytes,
    set_bytes,
    set_fits, set_len, template_body, total_records, FieldSpec, Registry,
};
use crate::text::{joined, joined_number, str_eq};
use crate::wire::{
    be16, be32, buffers, lemma_buffers_push, push_be16, push_be32, push_bytes, read_be16, read_be32,
};
use vstd::prelude::*;

verus! {

/// The id of an IPFIX information element name, if the registry holds the name.
pub open spec fn ipfix_field_id(name: Seq<char>) -> Option<u16> {
    if name == "octetDeltaCount"@ {
        Some(1)
    } else if name == "packetDeltaCount"@ {
        Some(2)
    } else if name == "deltaFlowCount"@ {
        Some(3)
    } else if name == "protocolIdentifier"@ {
        Some(4)
    } else if name == "ipClassOfService"@ {
        Some(5)
    } else if name == "tcpControlBits"@ {
        Some(6)
    } else if name == "sourceTransportPort"@ {
        Some(7)
    } else if name == "sourceIPv4Address"@ {
        Some(8)
    } else if name == "sourceIPv4PrefixLength"@ {
        Some(9)
    } else if name == "ingressInterface"@ {
        Some(10)
    } else if name == "destinationTransportPort"@ {
        Some(11)
    } else if name == "destinationIPv4Address"@ {
        Some(12)
    } else if name == "destinationIPv4PrefixLength"@ {
        Some(13)
    } else if name == "egressInterface"@ {
        Some(14)
    } else if name == "ipNextHopIPv4Address"@ {
        Some(15)
    } else if name == "bgpSourceAsNumber"@ {
        Some(16)
    } else if name == "bgpDestinationAsNumber"@ {
        Some(17)
    } else if name == "bgpNextHopIPv4Address"@ {
        Some(18)
    } else if name == "flowEndSysUpTime"@ {
        Some(21)
    } else if name == "flowStartSysUpTime"@ {
        Some(22)
    } else {
        None
    }
}

/// Maps an IPFIX information element name to its id.
pub fn field_name_to_id(name: &str) -> (id: Option<u16>)
    ensures
        id == ipfix_field_id(name@),
{
    if str_eq(name, "octetDeltaCount") {
        Some(1)
    } else if str_eq(name, "packetDeltaCount") {
        Some(2)
    } else if str_eq(name, "deltaFlowCount") {
        Some(3)
    } else if str_eq(name, "protocolIdentifier") {
        Some(4)
    } else if str_eq(name, "ipClassOfService") {
        Some(5)
    } else if str_eq(name, "tcpControlBits") {
        Some(6)
    } else if str_eq(name, "sourceTransportPort") {
        Some(7)
    } else if str_eq(name, "sourceIPv4Address") {
        Some(8)
    } else if str_eq(name, "sourceIPv4PrefixLength") {
        Some(9)
    } else if str_eq(name, "ingressInterface") {
        Some(10)
    } else if str_eq(name, "destinationTransportPort") {
        Some(11)
    } else if str_eq(name, "destinationIPv4Address") {
        Some(12)
    } else if str_eq(name, "destinationIPv4PrefixLength") {
        Some(13)
    } else if str_eq(name, "egressInterface") {
        Some(14)
    } else if str_eq(name, "ipNextHopIPv4Address") {
        Some(15)
    } else if str_eq(name, "bgpSourceAsNumber") {
        Some(16)
    } else if str_eq(name, "bgpDestinationAsNumber") {
        Some(17)
    } else if str_eq(name, "bgpNextHopIPv4Address") {
        Some(18)
    } else if str_eq(name, "flowEndSysUpTime") {
        Some(21)
    } else if str_eq(name, "flowStartSysUpTime") {
        Some(22)
    } else {
        None
    }
}

/// Whether the registry holds every field name of a template.
pub open spec fn ipfix_fields_known(fields: Seq<IPFixTemplateField>) -> bool {
    forall|i: int| 0 <= i < fields.len() ==> ipfix_field_id(#[trigger] fields[i].field_type@) is Some
}

/// The fields of a template with their names resolved to type ids.
pub open spec fn ipfix_field_specs(fields: Seq<IPFixTemplateField>) -> Seq<FieldSpec> {
    Seq::new(
        fields.len(),
        |i: int|
            FieldSpec {
                id: match ipfix_field_id(fields[i].field_type@) {
                    Some(id) => id,
                    None => 0,
                },
                length: fields[i].field_length,
            },
    )
}

/// Resolves the field names of a template; `None` when the registry lacks one.
fn resolve_fields(fields: &Vec<IPFixTemplateField>) -> (res: Option<Vec<FieldSpec>>)
    ensures
        res is Some <==> ipfix_fields_known(fields@),
        res matches Some(specs) ==> specs@ == ipfix_field_specs(fields@),
{
    let mut specs: Vec<FieldSpec> = Vec::new();
    let mut i: usize = 0;
    while i < fields.len()
        invariant
            i <= fields.len(),
            specs@.len() == i,
            forall|j: int| 0 <= j < i ==> ipfix_field_id(#[trigger] fields@[j].field_type@) is Some,
            forall|j: int| 0 <= j < i ==> specs@[j] == ipfix_field_specs(fields@)[j],
        decreases fields.len() - i,
    {
        match field_name_to_id(fields[i].field_type.as_str()) {
            Some(id) => {
                specs.push(FieldSpec { id, length: fields[i].field_length });
            },
            None => {
                return None;
            },
        }
        i = i + 1;
    }
    assert(specs@ =~= ipfix_field_specs(fields@));
    Some(specs)
}

/// The error for a template that names a field the registry lacks.
fn unknown_field_error(fields: &Vec<IPFixTemplateField>) -> (e: NetflowError)
    ensures
        e is Generation,
{
    let mut i: usize = 0;
    while i < fields.len()
        invariant
            i <= fields.len(),
        decreases fields.len() - i,
    {
        if field_name_to_id(fields[i].field_type.as_str()).is_none() {
            return NetflowError::Generation(
                joined("Unknown field type: ", fields[i].field_type.as_str()),
            );
        }
        i = i + 1;
    }
    NetflowError::generation("Unknown field type")
}

/// The header values that all messages of one build share.
#[derive(Debug, Clone, Copy)]
pub struct IpfixStamp {
    pub export_time: u32,
    pub observation_domain_id: u32,
}

/// The 16 header bytes of a message of `length` bytes.
pub open spec fn ipfix_header_bytes(length: u16, stamp: IpfixStamp, sequence_number: u32) -> Seq<
    u8,
> {
    be16(10) + be16(length) + be32(stamp.export_time) + be32(sequence_number) + be32(
        stamp.observation_domain_id,
    )
}

/// A message around the given sets: the header, holding the length of the whole
/// message, and the sets.
pub open spec fn ipfix_message(stamp: IpfixStamp, sequence_number: u32, sets: Seq<u8>) -> Seq<u8> {
    ipfix_header_bytes((16 + sets.len()) as u16, stamp, sequence_number) + sets
}

/// Whether a message around sets of `sets_len` bytes fits the 16-bit message length.
pub open spec fn ipfix_message_fits(sets_len: nat) -> bool {
    16 + sets_len <= 0xffff
}

/// The sequence number that a message carries in its header.
pub open spec fn ipfix_sequence_of(message: Seq<u8>) -> int {
    read_be32(message, 8)
}

/// A template definition: its id and its fields.
#[derive(Debug, Clone, Copy)]
pub struct IPFixTemplate<'a> {
    pub template_id: u16,
    pub fields: &'a Vec<IPFixTemplateField>,
}

/// Template definitions as id and field list.
pub open spec fn template_specs(templates: Seq<IPFixTemplate>) -> Seq<(u16, Seq<IPFixTemplateField>)> {
    Seq::new(templates.len(), |i: int| (templates[i].template_id, templates[i].fields@))
}

/// A template can be written when the registry holds its field names and its set fits
/// the 16-bit length.
pub open spec fn ipfix_template_ok(fields: Seq<IPFixTemplateField>) -> bool {
    ipfix_fields_known(fields) && set_fits(4 + 4 * fields.len())
}

/// The template set of one template: set id 2 around the template record.
pub open spec fn ipfix_template_set(template_id: u16, fields: Seq<IPFixTemplateField>) -> Seq<u8> {
    set_bytes(2, template_body(template_id, ipfix_field_specs(fields)))
}

/// The template sets of several templates, in order.
pub open spec fn ipfix_template_sets(templates: Seq<(u16, Seq<IPFixTemplateField>)>) -> Seq<u8>
    decreases templates.len(),
{
    if templates.len() == 0 {
        Seq::empty()
    } else {
        ipfix_template_sets(templates.drop_last()) + ipfix_template_set(
            templates.last().0,
            templates.last().1,
        )
    }
}

/// Templates can be written into one message when each can be written and the message
/// fits its 16-bit length.
pub open spec fn ipfix_templates_ok(templates: Seq<(u16, Seq<IPFixTemplateField>)>) -> bool {
    &&& forall|i: int| 0 <= i < templates.len() ==> ipfix_template_ok(#[trigger] templates[i].1)
    &&& ipfix_message_fits(ipfix_template_sets(templates).len())
}

/// The template message: the header, then one template set per template.
pub open spec fn ipfix_template_packet(
    stamp: IpfixStamp,
    sequence_number: u32,
    templates: Seq<(u16, Seq<IPFixTemplateField>)>,
) -> Seq<u8> {
    ipfix_message(stamp, sequence_number, ipfix_template_sets(templates))
}

/// The template sets grow with the template list.
pub proof fn lemma_ipfix_template_sets_prefix(templates: Seq<(u16, Seq<IPFixTemplateField>)>, k: int)
    requires
        0 <= k <= templates.len(),
    ensures
        ipfix_template_sets(templates.take(k)).len() <= ipfix_template_sets(templates).len(),
    decreases templates.len(),
{
    if k < templates.len() {
        lemma_ipfix_template_sets_prefix(templates.drop_last(), k);
        assert(templates.drop_last().take(k) =~= templates.take(k));
    } else {
        assert(templates.take(k) =~= templates);
    }
}

/// Wraps sets into a message.
fn wrap_message(stamp: &IpfixStamp, sequence_number: u32, sets: &Vec<u8>) -> (packet: Vec<u8>)
    requires
        ipfix_message_fits(sets@.len()),
    ensures
        packet@ == ipfix_message(*stamp, sequence_number, sets@),
{
    let mut packet: Vec<u8> = Vec::new();
    push_be16(&mut packet, 10);
    push_be16(&mut packet, (16 + sets.len()) as u16);
    push_be32(&mut packet, stamp.export_time);
    push_be32(&mut packet, sequence_number);
    push_be32(&mut packet, stamp.observation_domain_id);
    push_bytes(&mut packet, sets);
    assert(packet@ =~= ipfix_message(*stamp, sequence_number, sets@));
    packet
}

/// Builds the message that defines the given templates.
pub fn build_template_packet(
    stamp: &IpfixStamp,
    sequence_number: u32,
    templates: &Vec<IPFixTemplate>,
) -> (res: Result<Vec<u8>, NetflowError>)
    ensures
        res is Ok <==> ipfix_templates_ok(template_specs(templates@)),
        res matches Ok(bytes) ==> bytes@ == ipfix_template_packet(
            *stamp,
            sequence_number,
            template_specs(templates@),
        ),
        res matches Err(e) ==> e is Generation,
{
    let ghost specs = template_specs(templates@);
    let mut sets: Vec<u8> = Vec::new();
    let mut i: usize = 0;
    assert(sets@ =~= ipfix_template_sets(specs.take(0)));
    while i < templates.len()
        invariant
            i <= templates.len(),
            specs == template_specs(templates@),
            sets@ == ipfix_template_sets(specs.take(i as int)),
            ipfix_message_fits(sets@.len()),
            forall|j: int| 0 <= j < i ==> ipfix_template_ok(#[trigger] specs[j].1),
        decreases templates.len() - i,
    {
        let fields = templates[i].fields;
        assert(specs[i as int].1 == fields@);
        if fields.len() > 0x3ffd {
            return Err(NetflowError::generation("Too many fields in template"));
        }
        let resolved = match resolve_fields(fields) {
            Some(resolved) => resolved,
            None => {
                return Err(unknown_field_error(fields));
            },
        };
        let body = encode_template_body(templates[i].template_id, &resolved);
        push_set(&mut sets, 2, &body);
        proof {
            let next = specs.take(i + 1);
            assert(next.drop_last() =~= specs.take(i as int));
            assert(next.last() == specs[i as int]);
            assert(sets@ =~= ipfix_template_sets(next));
        }
        if sets.len() > 0xffff - 16 {
            proof {
                lemma_ipfix_template_sets_prefix(specs, i + 1);
            }
            return Err(NetflowError::generation("Packet length exceeds u16::MAX"));
        }
        i = i + 1;
    }
    proof {
        assert(specs.take(templates.len() as int) =~= specs);
    }
    Ok(wrap_message(stamp, sequence_number, &sets))
}

/// A data set can be written when the registry holds the field names of its template,
/// unless it has no records, its length fits the 16-bit set length, and the message
/// around it fits the 16-bit message length.
pub open spec fn ipfix_data_ok(fields: Seq<IPFixTemplateField>, records: Seq<Record>) -> bool {
    let body_len = records_bytes(Registry::IPFix, ipfix_field_specs(fields), records).len();
    &&& records.len() > 0 ==> ipfix_fields_known(fields)
    &&& set_fits(body_len)
    &&& ipfix_message_fits(set_len(body_len))
}

/// The data set for the given records: the template id as set id around the records
/// laid out by the template.
pub open spec fn ipfix_data_set(
    template_id: u16,
    fields: Seq<IPFixTemplateField>,
    records: Seq<Record>,
) -> Seq<u8> {
    set_bytes(template_id, records_bytes(Registry::IPFix, ipfix_field_specs(fields), records))
}

/// The data message: the header, then the data set.
pub open spec fn ipfix_data_packet(
    stamp: IpfixStamp,
    sequence_number: u32,
    template_id: u16,
    fields: Seq<IPFixTemplateField>,
    records: Seq<Record>,
) -> Seq<u8> {
    ipfix_message(stamp, sequence_number, ipfix_data_set(template_id, fields, records))
}

/// Builds the message that carries the records of one data set.
pub fn build_data_packet(
    stamp: &IpfixStamp,
    sequence_number: u32,
    template_id: u16,
    template_fields: &Vec<IPFixTemplateField>,
    records: &Vec<Record>,
) -> (res: Result<Vec<u8>, NetflowError>)
    ensures
        res is Ok <==> ipfix_data_ok(template_fields@, records@),
        res matches Ok(bytes) ==> bytes@ == ipfix_data_packet(
            *stamp,
            sequence_number,
            template_id,
            template_fields@,
            records@,
        ),
        res matches Err(e) ==> e is Generation,
{
    let body = if records.len() == 0 {
        Vec::new()
    } else {
        let resolved = match resolve_fields(template_fields) {
            Some(resolved) => resolved,
            None => {
                return Err(unknown_field_error(template_fields));
            },
        };
        match encode_records(Registry::IPFix, &resolved, records) {
            Some(body) => body,
            None => {
                return Err(NetflowError::generation("Set length overflow"));
            },
        }
    };
    let mut sets: Vec<u8> = Vec::new();
    push_set(&mut sets, template_id, &body);
    proof {
        lemma_set_shape(template_id, body@);
        assert(sets@ =~= ipfix_data_set(template_id, template_fields@, records@));
    }
    if sets.len() > 0xffff - 16 {
        return Err(NetflowError::generation("Packet length exceeds u16::MAX"));
    }
    Ok(wrap_message(stamp, sequence_number, &sets))
}

/// The template definitions among the sets of an entry, in order.
pub open spec fn ipfix_templates_of(flowsets: Seq<IPFixFlowSet>) -> Seq<(u16, Seq<IPFixTemplateField>)>
    decreases flowsets.len(),
{
    if flowsets.len() == 0 {
        Seq::empty()
    } else {
        let front = ipfix_templates_of(flowsets.drop_last());
        match flowsets.last() {
            IPFixFlowSet::Template { template_id, fields } => front.push((template_id, fields@)),
            IPFixFlowSet::Data { .. } => front,
        }
    }
}

/// The fields of the first template with the given id, if one is defined.
pub open spec fn find_template(templates: Seq<(u16, Seq<IPFixTemplateField>)>, template_id: u16)
    -> Option<Seq<IPFixTemplateField>>
    decreases templates.len(),
{
    if templates.len() == 0 {
        None
    } else if templates[0].0 == template_id {
        Some(templates[0].1)
    } else {
        find_template(templates.drop_first(), template_id)
    }
}

/// How many records the data sets among `flowsets` hold together.
pub open spec fn ipfix_record_count(flowsets: Seq<IPFixFlowSet>) -> nat
    decreases flowsets.len(),
{
    if flowsets.len() == 0 {
        0
    } else {
        ipfix_record_count(flowsets.drop_last()) + match flowsets.last() {
            IPFixFlowSet::Template { .. } => 0nat,
            IPFixFlowSet::Data { records, .. } => records.len() as nat,
        }
    }
}

/// Whether one set, if it holds data, names a defined template and can be written
/// by it.
pub open spec fn ipfix_flowset_ok(templates: Seq<(u16, Seq<IPFixTemplateField>)>, flowset: IPFixFlowSet)
    -> bool {
    match flowset {
        IPFixFlowSet::Template { .. } => true,
        IPFixFlowSet::Data { template_id, records } => match find_template(templates, template_id) {
            Some(fields) => ipfix_data_ok(fields, records@),
            None => false,
        },
    }
}

/// Whether every data set names a defined template and can be written by it.
pub open spec fn ipfix_data_flowsets_ok(
    templates: Seq<(u16, Seq<IPFixTemplateField>)>,
    flowsets: Seq<IPFixFlowSet>,
) -> bool {
    forall|i: int| 0 <= i < flowsets.len() ==> ipfix_flowset_ok(templates, #[trigger] flowsets[i])
}

/// The data messages of an entry, one per data set in order. Each carries the
/// sequence number reached by the records of the data sets before it.
pub open spec fn ipfix_data_packets(
    stamp: IpfixStamp,
    sequence: u32,
    templates: Seq<(u16, Seq<IPFixTemplateField>)>,
    flowsets: Seq<IPFixFlowSet>,
) -> Seq<Seq<u8>>
    decreases flowsets.len(),
{
    if flowsets.len() == 0 {
        Seq::empty()
    } else {
        let front = ipfix_data_packets(stamp, sequence, templates, flowsets.drop_last());
        match flowsets.last() {
            IPFixFlowSet::Template { .. } => front,
            IPFixFlowSet::Data { template_id, records } => front.push(
                ipfix_data_packet(
                    stamp,
                    (sequence + ipfix_record_count(flowsets.drop_last())) as u32,
                    template_id,
                    match find_template(templates, template_id) {
                        Some(fields) => fields,
                        None => Seq::empty(),
                    },
                    records@,
                ),
            ),
        }
    }
}

/// The header values shared by the messages built for `config`: overrides where the
/// entry has them, else `now_secs` held to 32 bits and observation domain 1.
pub open spec fn ipfix_stamp(config: IPFixConfig, now_secs: u64) -> IpfixStamp {
    let h = config.header;
    IpfixStamp {
        export_time: if h is Some && h->0.export_time is Some {
            h->0.export_time->0
        } else {
            saturated_secs(now_secs)
        },
        observation_domain_id: if h is Some && h->0.observation_domain_id is Some {
            h->0.observation_domain_id->0
        } else {
            1
        },
    }
}

/// Whether a build of `config` starts with a template message.
pub open spec fn ipfix_emits_templates(config: IPFixConfig, include_templates: bool) -> bool {
    include_templates && ipfix_templates_of(config.flowsets@).len() > 0
}

/// An IPFIX entry can be built from sequence number `sequence` when it has a set, its
/// templates can be written if they are to be sent, every data set names a
/// template of the entry and can be written by it, and counting its records does not
/// carry the sequence past 32 bits.
pub open spec fn ipfix_buildable(config: IPFixConfig, sequence: u32, include_templates: bool) -> bool {
    &&& config.flowsets.len() > 0
    &&& ipfix_emits_templates(config, include_templates) ==> ipfix_templates_ok(
        ipfix_templates_of(config.flowsets@),
    )
    &&& ipfix_data_flowsets_ok(ipfix_templates_of(config.flowsets@), config.flowsets@)
    &&& sequence + ipfix_record_count(config.flowsets@) <= u32::MAX
}

/// The messages built for `config`: the template message if templates are to be sent
/// and the entry defines any, then the data messages.
pub open spec fn ipfix_packets(
    config: IPFixConfig,
    sequence: u32,
    include_templates: bool,
    now_secs: u64,
) -> Seq<Seq<u8>> {
    let templates = ipfix_templates_of(config.flowsets@);
    let stamp = ipfix_stamp(config, now_secs);
    let data = ipfix_data_packets(stamp, sequence, templates, config.flowsets@);
    if ipfix_emits_templates(config, include_templates) {
        seq![ipfix_template_packet(stamp, sequence, templates)] + data
    } else {
        data
    }
}

/// The record count grows with the flowset list.
pub proof fn lemma_ipfix_record_count_prefix(flowsets: Seq<IPFixFlowSet>, k: int)
    requires
        0 <= k <= flowsets.len(),
    ensures
        ipfix_record_count(flowsets.take(k)) <= ipfix_record_count(flowsets),
    decreases flowsets.len(),
{
    if k < flowsets.len() {
        lemma_ipfix_record_count_prefix(flowsets.drop_last(), k);
        assert(flowsets.drop_last().take(k) =~= flowsets.take(k));
    } else {
        assert(flowsets.take(k) =~= flowsets);
    }
}

/// Collects the template definitions of an entry, in order.
pub fn collect_templates<'a>(flowsets: &'a Vec<IPFixFlowSet>) -> (templates: Vec<IPFixTemplate<'a>>)
    ensures
        template_specs(templates@) == ipfix_templates_of(flowsets@),
{
    let mut templates: Vec<IPFixTemplate<'a>> = Vec::new();
    let mut i: usize = 0;
    assert(template_specs(templates@) =~= ipfix_templates_of(flowsets@.take(0)));
    while i < flowsets.len()
        invariant
            i <= flowsets.len(),
            template_specs(templates@) == ipfix_templates_of(flowsets@.take(i as int)),
        decreases flowsets.len() - i,
    {
        let ghost before = templates@;
        match &flowsets[i] {
            IPFixFlowSet::Template { template_id, fields } => {
                templates.push(IPFixTemplate { template_id: *template_id, fields });
                assert(template_specs(templates@) =~= template_specs(before).push(
                    (*template_id, fields@),
                ));
            },
            IPFixFlowSet::Data { .. } => {},
        }
        proof {
            let next = flowsets@.take(i + 1);
            assert(next.drop_last() =~= flowsets@.take(i as int));
            assert(next.last() == flowsets@[i as int]);
        }
        i = i + 1;
    }
    proof {
        assert(flowsets@.take(flowsets.len() as int) =~= flowsets@);
    }
    templates
}

/// Finds the fields of the first template with the given id.
pub fn lookup_template<'a>(templates: &Vec<IPFixTemplate<'a>>, template_id: u16) -> (found: Option<
    &'a Vec<IPFixTemplateField>,
>)
    ensures
        match found {
            Some(fields) => find_template(template_specs(templates@), template_id) == Some(
                fields@,
            ),
            None => find_template(template_specs(templates@), template_id) is None,
        },
{
    let ghost specs = template_specs(templates@);
    let mut i: usize = 0;
    assert(specs.skip(0) =~= specs);
    while i < templates.len()
        invariant
            i <= templates.len(),
            specs == template_specs(templates@),
            find_template(specs, template_id) == find_template(specs.skip(i as int), template_id),
        decreases templates.len() - i,
    {
        assert(specs.skip(i as int)[0] == specs[i as int]);
        if templates[i].template_id == template_id {
            return Some(templates[i].fields);
        }
        assert(specs.skip(i as int).drop_first() =~= specs.skip(i + 1));
        i = i + 1;
    }
    None
}

/// The header values shared by the messages built for `config`.
fn get_header_values(config: &IPFixConfig, now_secs: u64) -> (stamp: IpfixStamp)
    ensures
        stamp == ipfix_stamp(*config, now_secs),
{
    let mut export_time: u32 = saturate_secs(now_secs);
    let mut observation_domain_id: u32 = 1;
    if let Some(h) = config.header {
        if let Some(v) = h.export_time {
            export_time = v;
        }
        if let Some(v) = h.observation_domain_id {
            observation_domain_id = v;
        }
    }
    IpfixStamp { export_time, observation_domain_id }
}

/// Builds the messages of an IPFIX entry at a given clock reading.
///
/// `sequence` is the number of data records the exporter has sent before; the second
/// component of the result is that number after these messages. The template message,
/// when there is one, carries `sequence` and does not advance it.
pub fn build_ipfix_packets_at(
    config: &IPFixConfig,
    sequence: u32,
    include_templates: bool,
    now_secs: u64,
) -> (res: Result<(Vec<Vec<u8>>, u32), NetflowError>)
    ensures
        res is Ok <==> ipfix_buildable(*config, sequence, include_templates),
        res matches Ok((packets, next)) ==> {
            &&& buffers(packets@) == ipfix_packets(*config, sequence, include_templates, now_secs)
            &&& next == sequence + ipfix_record_count(config.flowsets@)
        },
        res matches Err(e) ==> e is Generation,
{
    if config.flowsets.len() == 0 {
        return Err(
            NetflowError::generation(
                "IPFIX configuration must contain at least one template or data set",
            ),
        );
    }
    let stamp = get_header_values(config, now_secs);
    let templates = collect_templates(&config.flowsets);
    let ghost specs = ipfix_templates_of(config.flowsets@);
    let mut packets: Vec<Vec<u8>> = Vec::new();
    if include_templates && templates.len() > 0 {
        let packet = build_template_packet(&stamp, sequence, &templates)?;
        proof {
            lemma_buffers_push(packets@, packet);
        }
        packets.push(packet);
    }
    let ghost head = buffers(packets@);
    let mut current: u32 = sequence;
    let mut i: usize = 0;
    assert(buffers(packets@) =~= head + ipfix_data_packets(
        stamp,
        sequence,
        specs,
        config.flowsets@.take(0),
    ));
    while i < config.flowsets.len()
        invariant
            i <= config.flowsets.len(),
            specs == ipfix_templates_of(config.flowsets@),
            specs == template_specs(templates@),
            stamp == ipfix_stamp(*config, now_secs),
            current == sequence + ipfix_record_count(config.flowsets@.take(i as int)),
            buffers(packets@) == head + ipfix_data_packets(
                stamp,
                sequence,
                specs,
                config.flowsets@.take(i as int),
            ),
            forall|j: int| 0 <= j < i ==> ipfix_flowset_ok(specs, #[trigger] config.flowsets@[j]),
        decreases config.flowsets.len() - i,
    {
        proof {
            let next = config.flowsets@.take(i + 1);
            assert(next.drop_last() =~= config.flowsets@.take(i as int));
            assert(next.last() == config.flowsets@[i as int]);
        }
        match &config.flowsets[i] {
            IPFixFlowSet::Template { .. } => {},
            IPFixFlowSet::Data { template_id, records } => {
                let fields = match lookup_template(&templates, *template_id) {
                    Some(fields) => fields,
                    None => {
                        return Err(
                            NetflowError::Generation(
                                joined_number(
                                    "Data flowset references undefined template ID: ",
                                    *template_id as u64,
                                ),
                            ),
                        );
                    },
                };
                let packet = build_data_packet(&stamp, current, *template_id, fields, records)?;
                if records.len() > (u32::MAX - current) as usize {
                    proof {
                        lemma_ipfix_record_count_prefix(config.flowsets@, i + 1);
                    }
                    return Err(NetflowError::generation("Sequence number overflow"));
                }
                proof {
                    lemma_buffers_push(packets@, packet);
                }
                packets.push(packet);
                current = current + records.len() as u32;
            },
        }
        i = i + 1;
    }
    proof {
        assert(config.flowsets@.take(config.flowsets.len() as int) =~= config.flowsets@);
    }
    Ok((packets, current))
}

/// Builds the messages of an IPFIX entry, stamped with the current time where the header
/// names none.
///
/// Fails when the system clock cannot be read, and otherwise exactly when
/// [`build_ipfix_packets_at`] does; the messages that come out are those that function
/// builds for some clock reading.
pub fn build_ipfix_packets(config: &IPFixConfig, sequence: u32, include_templates: bool) -> (res: Result<
    (Vec<Vec<u8>>, u32),
    NetflowError,
>)
    ensures
        res is Ok ==> ipfix_buildable(*config, sequence, include_templates),
        res matches Ok((packets, next)) ==> {
            &&& exists|now_secs: u64|
                buffers(packets@) == ipfix_packets(*config, sequence, include_templates, now_secs)
            &&& next == sequence + ipfix_record_count(config.flowsets@)
        },
        res matches Err(e) ==> e is Generation,
{
    match unix_time_secs() {
        Some(now_secs) => build_ipfix_packets_at(config, sequence, include_templates, now_secs),
        None => Err(NetflowError::generation("Failed to get system time")),
    }
}

/// The record lists of the data sets of an entry, in order.
pub open spec fn ipfix_data_of(flowsets: Seq<IPFixFlowSet>) -> Seq<Seq<Record>>
    decreases flowsets.len(),
{
    if flowsets.len() == 0 {
        Seq::empty()
    } else {
        let front = ipfix_data_of(flowsets.drop_last());
        match flowsets.last() {
            IPFixFlowSet::Template { .. } => front,
            IPFixFlowSet::Data { records, .. } => front.push(records@),
        }
    }
}

/// The record count of an entry is the total over its data sets.
pub proof fn lemma_ipfix_record_count_is_total(flowsets: Seq<IPFixFlowSet>)
    ensures
        ipfix_record_count(flowsets) == total_records(ipfix_data_of(flowsets)),
    decreases flowsets.len(),
{
    if flowsets.len() > 0 {
        lemma_ipfix_record_count_is_total(flowsets.drop_last());
        match flowsets.last() {
            IPFixFlowSet::Template { .. } => {},
            IPFixFlowSet::Data { records, .. } => {
                assert(ipfix_data_of(flowsets).drop_last() =~= ipfix_data_of(flowsets.drop_last()));
            },
        }
    }
}

/// A message carries the sequence number it was built with, whatever its length.
pub proof fn lemma_ipfix_sequence_of_message(
    stamp: IpfixStamp,
    sequence_number: u32,
    sets: Seq<u8>,
)
    ensures
        ipfix_sequence_of(ipfix_message(stamp, sequence_number, sets)) == sequence_number,
{
    let length = (16 + sets.len()) as u16;
    let m = ipfix_message(stamp, sequence_number, sets);
    let front = be16(10) + be16(length) + be32(stamp.export_time);
    let back = be32(stamp.observation_domain_id) + sets;
    assert(m =~= front + be32(sequence_number) + back);
    crate::wire::lemma_read_be32(front, sequence_number, back);
}

/// What the header of a message says: version 10, the length of the whole message, and
/// the sequence number.
pub proof fn lemma_ipfix_message_fields(stamp: IpfixStamp, sequence_number: u32, sets: Seq<u8>)
    requires
        ipfix_message_fits(sets.len()),
    ensures
        ipfix_message(stamp, sequence_number, sets).len() == 16 + sets.len(),
        read_be16(ipfix_message(stamp, sequence_number, sets), 0) == 10,
        read_be16(ipfix_message(stamp, sequence_number, sets), 2) == 16 + sets.len(),
        ipfix_sequence_of(ipfix_message(stamp, sequence_number, sets)) == sequence_number,
{
    let length = (16 + sets.len()) as u16;
    let m = ipfix_message(stamp, sequence_number, sets);
    let front = be16(10) + be16(length) + be32(stamp.export_time);
    let back = be32(stamp.observation_domain_id) + sets;
    assert(m =~= front + be32(sequence_number) + back);
    crate::wire::lemma_read_be32(front, sequence_number, back);
    let tail10 = be16(length) + be32(stamp.export_time) + be32(sequence_number) + back;
    assert(m =~= Seq::<u8>::empty() + be16(10) + tail10);
    crate::wire::lemma_read_be16(Seq::<u8>::empty(), 10, tail10);
    let tail_len = be32(stamp.export_time) + be32(sequence_number) + back;
    assert(m =~= be16(10) + be16(length) + tail_len);
    crate::wire::lemma_read_be16(be16(10), length, tail_len);
}

/// In a data message, the length field of the set holds the distance from the set id to
/// the end of the message, and that distance is a multiple of four; the length field of
/// the header holds the length of the message.
pub proof fn lemma_ipfix_data_packet_shape(
    stamp: IpfixStamp,
    sequence_number: u32,
    template_id: u16,
    fields: Seq<IPFixTemplateField>,
    records: Seq<Record>,
)
    requires
        ipfix_data_ok(fields, records),
    ensures
        ({
            let m = ipfix_data_packet(stamp, sequence_number, template_id, fields, records);
            &&& m.len() >= 20
            &&& read_be16(m, 16) == template_id
            &&& read_be16(m, 18) == m.len() - 16
            &&& (m.len() - 16) % 4 == 0
            &&& ipfix_sequence_of(m) == sequence_number
            &&& read_be16(m, 0) == 10
            &&& read_be16(m, 2) == m.len()
        }),
{
    let body = records_bytes(Registry::IPFix, ipfix_field_specs(fields), records);
    let set = set_bytes(template_id, body);
    let m = ipfix_message(stamp, sequence_number, set);
    lemma_set_shape(template_id, body);
    lemma_ipfix_message_fields(stamp, sequence_number, set);
    assert(m[16] == set[0] && m[17] == set[1] && m[18] == set[2] && m[19] == set[3]);
}

/// The sequence numbers of the data messages of an entry: message `k` carries the
/// starting number plus the records of the data sets before it.
pub proof fn lemma_ipfix_data_sequence_numbers(
    stamp: IpfixStamp,
    sequence: u32,
    templates: Seq<(u16, Seq<IPFixTemplateField>)>,
    flowsets: Seq<IPFixFlowSet>,
)
    requires
        sequence + ipfix_record_count(flowsets) <= u32::MAX,
    ensures
        ipfix_data_packets(stamp, sequence, templates, flowsets).len() == ipfix_data_of(flowsets).len(),
        forall|k: int|
            0 <= k < ipfix_data_of(flowsets).len() ==> ipfix_sequence_of(
                #[trigger] ipfix_data_packets(stamp, sequence, templates, flowsets)[k],
            ) == sequence + total_records(ipfix_data_of(flowsets).take(k)),
    decreases flowsets.len(),
{
    if flowsets.len() > 0 {
        let front = flowsets.drop_last();
        lemma_ipfix_record_count_prefix(flowsets, flowsets.len() - 1);
        assert(flowsets.take(flowsets.len() - 1) =~= front);
        lemma_ipfix_data_sequence_numbers(stamp, sequence, templates, front);
        lemma_ipfix_record_count_is_total(front);
        let packets = ipfix_data_packets(stamp, sequence, templates, flowsets);
        let lists = ipfix_data_of(flowsets);
        match flowsets.last() {
            IPFixFlowSet::Template { .. } => {},
            IPFixFlowSet::Data { template_id, records } => {
                let fields = match find_template(templates, template_id) {
                    Some(fields) => fields,
                    None => Seq::empty(),
                };
                let at = (sequence + ipfix_record_count(front)) as u32;
                lemma_ipfix_sequence_of_message(
                    stamp,
                    at,
                    ipfix_data_set(template_id, fields, records@),
                );
                assert forall|k: int| 0 <= k < lists.len() implies ipfix_sequence_of(
                    #[trigger] packets[k],
                ) == sequence + total_records(lists.take(k)) by {
                    if k < lists.len() - 1 {
                        assert(lists.take(k) =~= ipfix_data_of(front).take(k));
                    } else {
                        assert(lists.take(k) =~= ipfix_data_of(front));
                    }
                }
            },
        }
    }
}

/// How a build numbers its messages. The template message, when there is one, comes
/// first and carries the starting sequence number; data message `k` carries the
/// starting number plus the records of the data sets before it; and the number
/// handed back is the starting number plus all records. So each data message's number
/// exceeds its predecessor's by the predecessor's record count, and a template message
/// carries the number of the data message that follows it.
pub proof fn lemma_ipfix_sequence_numbers(
    config: IPFixConfig,
    sequence: u32,
    include_templates: bool,
    now_secs: u64,
)
    requires
        sequence + ipfix_record_count(config.flowsets@) <= u32::MAX,
    ensures
        ({
            let packets = ipfix_packets(config, sequence, include_templates, now_secs);
            let lists = ipfix_data_of(config.flowsets@);
            let first = if ipfix_emits_templates(config, include_templates) {
                1int
            } else {
                0int
            };
            &&& packets.len() == first + lists.len()
            &&& first == 1 ==> ipfix_sequence_of(packets[0]) == sequence
            &&& forall|k: int|
                0 <= k < lists.len() ==> ipfix_sequence_of(#[trigger] packets[first + k]) == sequence
                    + total_records(lists.take(k))
            &&& sequence + ipfix_record_count(config.flowsets@) == sequence + total_records(lists)
        }),
{
    let templates = ipfix_templates_of(config.flowsets@);
    let stamp = ipfix_stamp(config, now_secs);
    let data = ipfix_data_packets(stamp, sequence, templates, config.flowsets@);
    let packets = ipfix_packets(config, sequence, include_templates, now_secs);
    let lists = ipfix_data_of(config.flowsets@);
    lemma_ipfix_data_sequence_numbers(stamp, sequence, templates, config.flowsets@);
    lemma_ipfix_record_count_is_total(config.flowsets@);
    if ipfix_emits_templates(config, include_templates) {
        lemma_ipfix_sequence_of_message(stamp, sequence, ipfix_template_sets(templates));
        assert forall|k: int| 0 <= k < lists.len() implies ipfix_sequence_of(
            #[trigger] packets[1 + k],
        ) == sequence + total_records(lists.take(k)) by {
            assert(packets[1 + k] == data[k]);
        }
    }
}

/// Whether a message has the shape of a data message: the length field of its set
/// holds the distance from the set id to the end of the message, that distance is a
/// multiple of four, and the length field of the header holds the length of the
/// message.
pub open spec fn ipfix_data_shape(message: Seq<u8>) -> bool {
    &&& message.len() >= 20
    &&& read_be16(message, 0) == 10
    &&& read_be16(message, 18) == message.len() - 16
    &&& (message.len() - 16) % 4 == 0
    &&& read_be16(message, 2) == message.len()
}

/// Every data message of an entry has the shape of a data message.
pub proof fn lemma_ipfix_data_packets_shape(
    stamp: IpfixStamp,
    sequence: u32,
    templates: Seq<(u16, Seq<IPFixTemplateField>)>,
    flowsets: Seq<IPFixFlowSet>,
)
    requires
        ipfix_data_flowsets_ok(templates, flowsets),
    ensures
        forall|k: int|
            0 <= k < ipfix_data_packets(stamp, sequence, templates, flowsets).len() ==> ipfix_data_shape(
                #[trigger] ipfix_data_packets(stamp, sequence, templates, flowsets)[k],
            ),
    decreases flowsets.len(),
{
    if flowsets.len() > 0 {
        let front = flowsets.drop_last();
        assert forall|i: int| 0 <= i < front.len() implies ipfix_flowset_ok(
            templates,
            #[trigger] front[i],
        ) by {
            assert(front[i] == flowsets[i]);
        }
        lemma_ipfix_data_packets_shape(stamp, sequence, templates, front);
        assert(ipfix_flowset_ok(templates, flowsets[flowsets.len() - 1]));
        match flowsets.last() {
            IPFixFlowSet::Template { .. } => {
                assert(ipfix_data_packets(stamp, sequence, templates, flowsets)
                    == ipfix_data_packets(stamp, sequence, templates, front));
            },
            IPFixFlowSet::Data { template_id, records } => {
                let fields = find_template(templates, template_id)->0;
                let at = (sequence + ipfix_record_count(front)) as u32;
                lemma_ipfix_data_packet_shape(stamp, at, template_id, fields, records@);
                let packets = ipfix_data_packets(stamp, sequence, templates, flowsets);
                let before = ipfix_data_packets(stamp, sequence, templates, front);
                assert(packets == before.push(
                    ipfix_data_packet(stamp, at, template_id, fields, records@),
                ));
                assert forall|k: int| 0 <= k < packets.len() implies ipfix_data_shape(
                    #[trigger] packets[k],
                ) by {
                    if k < before.len() {
                        assert(packets[k] == before[k]);
                    }
                }
            },
        }
    }
}

/// Every data message that a build emits has the shape of a data message.
pub proof fn lemma_ipfix_packets_shape(
    config: IPFixConfig,
    sequence: u32,
    include_templates: bool,
    now_secs: u64,
)
    requires
        ipfix_buildable(config, sequence, include_templates),
    ensures
        ({
            let packets = ipfix_packets(config, sequence, include_templates, now_secs);
            let first = if ipfix_emits_templates(config, include_templates) {
                1int
            } else {
                0int
            };
            forall|k: int| first <= k < packets.len() ==> ipfix_data_shape(#[trigger] packets[k])
        }),
{
    let templates = ipfix_templates_of(config.flowsets@);
    let stamp = ipfix_stamp(config, now_secs);
    let data = ipfix_data_packets(stamp, sequence, templates, config.flowsets@);
    let packets = ipfix_packets(config, sequence, include_templates, now_secs);
    lemma_ipfix_data_packets_shape(stamp, sequence, templates, config.flowsets@);
    if ipfix_emits_templates(config, include_templates) {
        assert forall|k: int| 1 <= k < packets.len() implies ipfix_data_shape(
            #[trigger] packets[k],
        ) by {
            assert(packets[k] == data[k - 1]);
        }
    }
}

/// The template sets of templates that can be written form a chain, one set each.
pub proof fn lemma_ipfix_template_sets_chain(templates: Seq<(u16, Seq<IPFixTemplateField>)>)
    requires
        forall|i: int| 0 <= i < templates.len() ==> ipfix_template_ok(#[trigger] templates[i].1),
    ensures
        is_set_chain(ipfix_template_sets(templates), templates.len()),
    decreases templates.len(),
{
    if templates.len() > 0 {
        let front = templates.drop_last();
        assert forall|i: int| 0 <= i < front.len() implies ipfix_template_ok(
            #[trigger] front[i].1,
        ) by {
            assert(front[i] == templates[i]);
        }
        lemma_ipfix_template_sets_chain(front);
        let last = templates.last();
        assert(ipfix_template_ok(templates[templates.len() - 1].1));
        let specs = ipfix_field_specs(last.1);
        lemma_template_fields_len(specs);
        lemma_set_chain_one(2, template_body(last.0, specs));
        lemma_set_chain_append(
            ipfix_template_sets(front),
            front.len(),
            ipfix_template_set(last.0, last.1),
            1,
        );
    }
}

/// In a template message, every set is measured by its length field, its header holds the
/// length of the message, and it carries the sequence number it was built with.
pub proof fn lemma_ipfix_template_packet_shape(
    stamp: IpfixStamp,
    sequence_number: u32,
    templates: Seq<(u16, Seq<IPFixTemplateField>)>,
)
    requires
        ipfix_templates_ok(templates),
    ensures
        ({
            let m = ipfix_template_packet(stamp, sequence_number, templates);
            &&& read_be16(m, 0) == 10
            &&& read_be16(m, 2) == m.len()
            &&& ipfix_sequence_of(m) == sequence_number
            &&& is_set_chain(m.skip(16), templates.len())
        }),
{
    let sets = ipfix_template_sets(templates);
    let m = ipfix_template_packet(stamp, sequence_number, templates);
    lemma_ipfix_template_sets_chain(templates);
    lemma_ipfix_message_fields(stamp, sequence_number, sets);
    assert(m.skip(16) =~= sets);
}

/// In a data message, the one set is measured by its length field.
pub proof fn lemma_ipfix_data_packet_chain(
    stamp: IpfixStamp,
    sequence_number: u32,
    template_id: u16,
    fields: Seq<IPFixTemplateField>,
    records: Seq<Record>,
)
    requires
        ipfix_data_ok(fields, records),
    ensures
        ({
            let m = ipfix_data_packet(stamp, sequence_number, template_id, fields, records);
            &&& read_be16(m, 0) == 10
            &&& read_be16(m, 2) == m.len()
            &&& is_set_chain(m.skip(16), 1)
        }),
{
    let body = records_bytes(Registry::IPFix, ipfix_field_specs(fields), records);
    let set = set_bytes(template_id, body);
    let m = ipfix_data_packet(stamp, sequence_number, template_id, fields, records);
    lemma_set_chain_one(template_id, body);
    lemma_ipfix_message_fields(stamp, sequence_number, set);
    assert(m.skip(16) =~= set);
}

} // verus!

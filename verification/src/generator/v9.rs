//! NetFlow v9: a 20-byte header per message, templates in a message of their own, and
//! one message per data flowset. The sequence number counts exported flow records.

use crate::clock::unix_time_secs;
use crate::config::schema::{Record, V9Config, V9FlowSet, V9TemplateField};
use crate::error::NetflowError;
use crate::generator::flowset::{
    encode_records, encode_template_body, is_set_chain, lemma_set_chain_append,
    lemma_set_chain_one, lemma_set_shape, lemma_template_fields_len, push_set, records_bytes,
    set_bytes,
    set_fits, template_body, total_records, FieldSpec, Registry,
};
use crate::text::{joined, joined_number, str_eq};
use crate::wire::{be16, be32, buffers, lemma_buffers_push, push_be16, push_be32, read_be16, read_be32};
use vstd::prelude::*;

verus! {

/// The type id of a NetFlow v9 field name, if the registry holds the name.
pub open spec fn v9_field_id(name: Seq<char>) -> Option<u16> {
    if name == "IN_BYTES"@ {
        Some(1)
    } else if name == "IN_PKTS"@ {
        Some(2)
    } else if name == "FLOWS"@ {
        Some(3)
    } else if name == "PROTOCOL"@ {
        Some(4)
    } else if name == "SRC_TOS"@ {
        Some(5)
    } else if name == "TCP_FLAGS"@ {
        Some(6)
    } else if name == "L4_SRC_PORT"@ {
        Some(7)
    } else if name == "IPV4_SRC_ADDR"@ {
        Some(8)
    } else if name == "SRC_MASK"@ {
        Some(9)
    } else if name == "INPUT_SNMP"@ {
        Some(10)
    } else if name == "L4_DST_PORT"@ {
        Some(11)
    } else if name == "IPV4_DST_ADDR"@ {
        Some(12)
    } else if name == "DST_MASK"@ {
        Some(13)
    } else if name == "OUTPUT_SNMP"@ {
        Some(14)
    } else if name == "IPV4_NEXT_HOP"@ {
        Some(15)
    } else if name == "SRC_AS"@ {
        Some(16)
    } else if name == "DST_AS"@ {
        Some(17)
    } else if name == "BGP_IPV4_NEXT_HOP"@ {
        Some(18)
    } else if name == "MUL_DST_PKTS"@ {
        Some(19)
    } else if name == "MUL_DST_BYTES"@ {
        Some(20)
    } else if name == "LAST_SWITCHED"@ {
        Some(21)
    } else if name == "FIRST_SWITCHED"@ {
        Some(22)
    } else if name == "OUT_BYTES"@ {
        Some(23)
    } else if name == "OUT_PKTS"@ {
        Some(24)
    } else {
        None
    }
}

/// Maps a NetFlow v9 field name to its type id.
pub fn field_name_to_id(name: &str) -> (id: Option<u16>)
    ensures
        id == v9_field_id(name@),
{
    if str_eq(name, "IN_BYTES") {
        Some(1)
    } else if str_eq(name, "IN_PKTS") {
        Some(2)
    } else if str_eq(name, "FLOWS") {
        Some(3)
    } else if str_eq(name, "PROTOCOL") {
        Some(4)
    } else if str_eq(name, "SRC_TOS") {
        Some(5)
    } else if str_eq(name, "TCP_FLAGS") {
        Some(6)
    } else if str_eq(name, "L4_SRC_PORT") {
        Some(7)
    } else if str_eq(name, "IPV4_SRC_ADDR") {
        Some(8)
    } else if str_eq(name, "SRC_MASK") {
        Some(9)
    } else if str_eq(name, "INPUT_SNMP") {
        Some(10)
    } else if str_eq(name, "L4_DST_PORT") {
        Some(11)
    } else if str_eq(name, "IPV4_DST_ADDR") {
        Some(12)
    } else if str_eq(name, "DST_MASK") {
        Some(13)
    } else if str_eq(name, "OUTPUT_SNMP") {
        Some(14)
    } else if str_eq(name, "IPV4_NEXT_HOP") {
        Some(15)
    } else if str_eq(name, "SRC_AS") {
        Some(16)
    } else if str_eq(name, "DST_AS") {
        Some(17)
    } else if str_eq(name, "BGP_IPV4_NEXT_HOP") {
        Some(18)
    } else if str_eq(name, "MUL_DST_PKTS") {
        Some(19)
    } else if str_eq(name, "MUL_DST_BYTES") {
        Some(20)
    } else if str_eq(name, "LAST_SWITCHED") {
        Some(21)
    } else if str_eq(name, "FIRST_SWITCHED") {
        Some(22)
    } else if str_eq(name, "OUT_BYTES") {
        Some(23)
    } else if str_eq(name, "OUT_PKTS") {
        Some(24)
    } else {
        None
    }
}

/// Whether the registry holds every field name of a template.
pub open spec fn v9_fields_known(fields: Seq<V9TemplateField>) -> bool {
    forall|i: int| 0 <= i < fields.len() ==> v9_field_id(#[trigger] fields[i].field_type@) is Some
}

/// The fields of a template with their names resolved to type ids.
pub open spec fn v9_field_specs(fields: Seq<V9TemplateField>) -> Seq<FieldSpec> {
    Seq::new(
        fields.len(),
        |i: int|
            FieldSpec {
                id: match v9_field_id(fields[i].field_type@) {
                    Some(id) => id,
                    None => 0,
                },
                length: fields[i].field_length,
            },
    )
}

/// Resolves the field names of a template; `None` when the registry lacks one.
fn resolve_fields(fields: &Vec<V9TemplateField>) -> (res: Option<Vec<FieldSpec>>)
    ensures
        res is Some <==> v9_fields_known(fields@),
        res matches Some(specs) ==> specs@ == v9_field_specs(fields@),
{
    let mut specs: Vec<FieldSpec> = Vec::new();
    let mut i: usize = 0;
    while i < fields.len()
        invariant
            i <= fields.len(),
            specs@.len() == i,
            forall|j: int| 0 <= j < i ==> v9_field_id(#[trigger] fields@[j].field_type@) is Some,
            forall|j: int| 0 <= j < i ==> specs@[j] == v9_field_specs(fields@)[j],
        decreases fields.len() - i,
    {
        match field_name_to_id(fields[i].field_type.as_str()) {
            Some(id) => {
                specs.push(FieldSpec { id, length: fields[i].field_length });
            },
            None => {
                return None;
            },
        }
        i = i + 1;
    }
    assert(specs@ =~= v9_field_specs(fields@));
    Some(specs)
}

/// The error for a template that names a field the registry lacks.
fn unknown_field_error(fields: &Vec<V9TemplateField>) -> (e: NetflowError)
    ensures
        e is Generation,
{
    let mut i: usize = 0;
    while i < fields.len()
        invariant
            i <= fields.len(),
        decreases fields.len() - i,
    {
        if field_name_to_id(fields[i].field_type.as_str()).is_none() {
            return NetflowError::Generation(
                joined("Unknown field type: ", fields[i].field_type.as_str()),
            );
        }
        i = i + 1;
    }
    NetflowError::generation("Unknown field type")
}

/// The header values that all messages of one build share.
#[derive(Debug, Clone, Copy)]
pub struct V9Stamp {
    pub sys_up_time: u32,
    pub unix_secs: u32,
    pub source_id: u32,
}

/// The 20 header bytes of a message with `count` flowsets.
pub open spec fn v9_header_bytes(count: u16, stamp: V9Stamp, sequence_number: u32) -> Seq<u8> {
    be16(9) + be16(count) + be32(stamp.sys_up_time) + be32(stamp.unix_secs) + be32(sequence_number)
        + be32(stamp.source_id)
}

/// The sequence number that a message carries in its header.
pub open spec fn v9_sequence_of(message: Seq<u8>) -> int {
    read_be32(message, 12)
}

/// A template definition: its id and its fields.
#[derive(Debug, Clone, Copy)]
pub struct V9Template<'a> {
    pub template_id: u16,
    pub fields: &'a Vec<V9TemplateField>,
}

/// Template definitions as id and field list.
pub open spec fn template_specs(templates: Seq<V9Template>) -> Seq<(u16, Seq<V9TemplateField>)> {
    Seq::new(templates.len(), |i: int| (templates[i].template_id, templates[i].fields@))
}

/// A template can be written when the registry holds its field names and its flowset
/// fits the 16-bit length.
pub open spec fn v9_template_ok(fields: Seq<V9TemplateField>) -> bool {
    v9_fields_known(fields) && set_fits(4 + 4 * fields.len())
}

/// The template flowset of one template: flowset id 0 around the template record.
pub open spec fn v9_template_set(template_id: u16, fields: Seq<V9TemplateField>) -> Seq<u8> {
    set_bytes(0, template_body(template_id, v9_field_specs(fields)))
}

/// The template flowsets of several templates, in order.
pub open spec fn v9_template_sets(templates: Seq<(u16, Seq<V9TemplateField>)>) -> Seq<u8>
    decreases templates.len(),
{
    if templates.len() == 0 {
        Seq::empty()
    } else {
        v9_template_sets(templates.drop_last()) + v9_template_set(
            templates.last().0,
            templates.last().1,
        )
    }
}

/// Templates can be written into one message when there are at most 65535 of them and
/// each can be written.
pub open spec fn v9_templates_ok(templates: Seq<(u16, Seq<V9TemplateField>)>) -> bool {
    &&& templates.len() <= 0xffff
    &&& forall|i: int| 0 <= i < templates.len() ==> v9_template_ok(#[trigger] templates[i].1)
}

/// The template message: a header counting the template flowsets, then the flowsets.
pub open spec fn v9_template_packet(
    stamp: V9Stamp,
    sequence_number: u32,
    templates: Seq<(u16, Seq<V9TemplateField>)>,
) -> Seq<u8> {
    v9_header_bytes(templates.len() as u16, stamp, sequence_number) + v9_template_sets(templates)
}

/// Appends the 20 header bytes.
fn push_header(out: &mut Vec<u8>, count: u16, stamp: &V9Stamp, sequence_number: u32)
    ensures
        final(out)@ == old(out)@ + v9_header_bytes(count, *stamp, sequence_number),
{
    push_be16(out, 9);
    push_be16(out, count);
    push_be32(out, stamp.sys_up_time);
    push_be32(out, stamp.unix_secs);
    push_be32(out, sequence_number);
    push_be32(out, stamp.source_id);
    assert(out@ =~= old(out)@ + v9_header_bytes(count, *stamp, sequence_number));
}

/// Builds the message that defines the given templates.
pub fn build_template_packet(
    stamp: &V9Stamp,
    sequence_number: u32,
    templates: &Vec<V9Template>,
) -> (res: Result<Vec<u8>, NetflowError>)
    ensures
        res is Ok <==> v9_templates_ok(template_specs(templates@)),
        res matches Ok(bytes) ==> bytes@ == v9_template_packet(
            *stamp,
            sequence_number,
            template_specs(templates@),
        ),
        res matches Err(e) ==> e is Generation,
{
    let ghost specs = template_specs(templates@);
    if templates.len() > 0xffff {
        return Err(NetflowError::generation("Too many template flowsets (max 65535)"));
    }
    let mut packet: Vec<u8> = Vec::new();
    push_header(&mut packet, templates.len() as u16, stamp, sequence_number);
    let ghost head = packet@;
    let mut i: usize = 0;
    assert(packet@ =~= head + v9_template_sets(specs.take(0)));
    while i < templates.len()
        invariant
            i <= templates.len(),
            specs == template_specs(templates@),
            packet@ == head + v9_template_sets(specs.take(i as int)),
            forall|j: int| 0 <= j < i ==> v9_template_ok(#[trigger] specs[j].1),
        decreases templates.len() - i,
    {
        let fields = templates[i].fields;
        assert(specs[i as int].1 == fields@);
        if fields.len() > 0x3ffd {
            return Err(NetflowError::generation("Template flowset length overflow"));
        }
        let resolved = match resolve_fields(fields) {
            Some(resolved) => resolved,
            None => {
                return Err(unknown_field_error(fields));
            },
        };
        let body = encode_template_body(templates[i].template_id, &resolved);
        push_set(&mut packet, 0, &body);
        proof {
            let next = specs.take(i + 1);
            assert(next.drop_last() =~= specs.take(i as int));
            assert(next.last() == specs[i as int]);
            assert(packet@ =~= head + v9_template_sets(next));
        }
        i = i + 1;
    }
    proof {
        assert(specs.take(templates.len() as int) =~= specs);
        assert(packet@ =~= v9_template_packet(*stamp, sequence_number, specs));
    }
    Ok(packet)
}

/// A data flowset can be written when the registry holds the field names of its
/// template, unless it has no records, and its length fits the 16-bit field.
pub open spec fn v9_data_ok(fields: Seq<V9TemplateField>, records: Seq<Record>) -> bool {
    &&& records.len() > 0 ==> v9_fields_known(fields)
    &&& set_fits(records_bytes(Registry::V9, v9_field_specs(fields), records).len())
}

/// The data flowset for the given records: the template id as flowset id around the
/// records laid out by the template.
pub open spec fn v9_data_set(
    template_id: u16,
    fields: Seq<V9TemplateField>,
    records: Seq<Record>,
) -> Seq<u8> {
    set_bytes(template_id, records_bytes(Registry::V9, v9_field_specs(fields), records))
}

/// The data message: a header counting one flowset, then the data flowset.
pub open spec fn v9_data_packet(
    stamp: V9Stamp,
    sequence_number: u32,
    template_id: u16,
    fields: Seq<V9TemplateField>,
    records: Seq<Record>,
) -> Seq<u8> {
    v9_header_bytes(1, stamp, sequence_number) + v9_data_set(template_id, fields, records)
}

/// Builds the message that carries the records of one data flowset.
pub fn build_data_packet(
    stamp: &V9Stamp,
    sequence_number: u32,
    template_id: u16,
    template_fields: &Vec<V9TemplateField>,
    records: &Vec<Record>,
) -> (res: Result<Vec<u8>, NetflowError>)
    ensures
        res is Ok <==> v9_data_ok(template_fields@, records@),
        res matches Ok(bytes) ==> bytes@ == v9_data_packet(
            *stamp,
            sequence_number,
            template_id,
            template_fields@,
            records@,
        ),
        res matches Err(e) ==> e is Generation,
{
    let mut packet: Vec<u8> = Vec::new();
    push_header(&mut packet, 1, stamp, sequence_number);
    let body = if records.len() == 0 {
        Vec::new()
    } else {
        let resolved = match resolve_fields(template_fields) {
            Some(resolved) => resolved,
            None => {
                return Err(unknown_field_error(template_fields));
            },
        };
        match encode_records(Registry::V9, &resolved, records) {
            Some(body) => body,
            None => {
                return Err(NetflowError::generation("Flowset length overflow"));
            },
        }
    };
    push_set(&mut packet, template_id, &body);
    assert(packet@ =~= v9_data_packet(
        *stamp,
        sequence_number,
        template_id,
        template_fields@,
        records@,
    ));
    Ok(packet)
}

/// The template definitions among the flowsets of an entry, in order.
pub open spec fn v9_templates_of(flowsets: Seq<V9FlowSet>) -> Seq<(u16, Seq<V9TemplateField>)>
    decreases flowsets.len(),
{
    if flowsets.len() == 0 {
        Seq::empty()
    } else {
        let front = v9_templates_of(flowsets.drop_last());
        match flowsets.last() {
            V9FlowSet::Template { template_id, fields } => front.push((template_id, fields@)),
            V9FlowSet::Data { .. } => front,
        }
    }
}

/// The fields of the first template with the given id, if one is defined.
pub open spec fn find_template(templates: Seq<(u16, Seq<V9TemplateField>)>, template_id: u16)
    -> Option<Seq<V9TemplateField>>
    decreases templates.len(),
{
    if templates.len() == 0 {
        None
    } else if templates[0].0 == template_id {
        Some(templates[0].1)
    } else {
        find_template(templates.drop_first(), template_id)
    }
}

/// How many records the data flowsets among `flowsets` hold together.
pub open spec fn v9_record_count(flowsets: Seq<V9FlowSet>) -> nat
    decreases flowsets.len(),
{
    if flowsets.len() == 0 {
        0
    } else {
        v9_record_count(flowsets.drop_last()) + match flowsets.last() {
            V9FlowSet::Template { .. } => 0nat,
            V9FlowSet::Data { records, .. } => records.len() as nat,
        }
    }
}

/// Whether one flowset, if it holds data, names a defined template and can be written
/// by it.
pub open spec fn v9_flowset_ok(templates: Seq<(u16, Seq<V9TemplateField>)>, flowset: V9FlowSet)
    -> bool {
    match flowset {
        V9FlowSet::Template { .. } => true,
        V9FlowSet::Data { template_id, records } => match find_template(templates, template_id) {
            Some(fields) => v9_data_ok(fields, records@),
            None => false,
        },
    }
}

/// Whether every data flowset names a defined template and can be written by it.
pub open spec fn v9_data_flowsets_ok(
    templates: Seq<(u16, Seq<V9TemplateField>)>,
    flowsets: Seq<V9FlowSet>,
) -> bool {
    forall|i: int| 0 <= i < flowsets.len() ==> v9_flowset_ok(templates, #[trigger] flowsets[i])
}

/// The data messages of an entry, one per data flowset in order. Each carries the
/// sequence number reached by the records of the data flowsets before it.
pub open spec fn v9_data_packets(
    stamp: V9Stamp,
    sequence: u32,
    templates: Seq<(u16, Seq<V9TemplateField>)>,
    flowsets: Seq<V9FlowSet>,
) -> Seq<Seq<u8>>
    decreases flowsets.len(),
{
    if flowsets.len() == 0 {
        Seq::empty()
    } else {
        let front = v9_data_packets(stamp, sequence, templates, flowsets.drop_last());
        match flowsets.last() {
            V9FlowSet::Template { .. } => front,
            V9FlowSet::Data { template_id, records } => front.push(
                v9_data_packet(
                    stamp,
                    (sequence + v9_record_count(flowsets.drop_last())) as u32,
                    template_id,
                    match find_template(templates, template_id) {
                        Some(fields) => fields,
                        None => Seq::empty(),
                    },
                    records@,
                ),
            ),
        }
    }
}

/// The header values shared by the messages built for `config`: overrides where the
/// entry has them, else an uptime of 360000, the low 32 bits of `now_secs`, and source
/// id 1.
pub open spec fn v9_stamp(config: V9Config, now_secs: u64) -> V9Stamp {
    let h = config.header;
    V9Stamp {
        sys_up_time: if h is Some && h->0.sys_up_time is Some {
            h->0.sys_up_time->0
        } else {
            360000
        },
        unix_secs: if h is Some && h->0.unix_secs is Some {
            h->0.unix_secs->0
        } else {
            (now_secs % 0x1_0000_0000) as u32
        },
        source_id: if h is Some && h->0.source_id is Some {
            h->0.source_id->0
        } else {
            1
        },
    }
}

/// Whether a build of `config` starts with a template message.
pub open spec fn v9_emits_templates(config: V9Config, include_templates: bool) -> bool {
    include_templates && v9_templates_of(config.flowsets@).len() > 0
}

/// A v9 entry can be built from sequence number `sequence` when it has a flowset, its
/// templates can be written if they are to be sent, every data flowset names a
/// template of the entry and can be written by it, and counting its records does not
/// carry the sequence past 32 bits.
pub open spec fn v9_buildable(config: V9Config, sequence: u32, include_templates: bool) -> bool {
    &&& config.flowsets.len() > 0
    &&& v9_emits_templates(config, include_templates) ==> v9_templates_ok(
        v9_templates_of(config.flowsets@),
    )
    &&& v9_data_flowsets_ok(v9_templates_of(config.flowsets@), config.flowsets@)
    &&& sequence + v9_record_count(config.flowsets@) <= u32::MAX
}

/// The messages built for `config`: the template message if templates are to be sent
/// and the entry defines any, then the data messages.
pub open spec fn v9_packets(
    config: V9Config,
    sequence: u32,
    include_templates: bool,
    now_secs: u64,
) -> Seq<Seq<u8>> {
    let templates = v9_templates_of(config.flowsets@);
    let stamp = v9_stamp(config, now_secs);
    let data = v9_data_packets(stamp, sequence, templates, config.flowsets@);
    if v9_emits_templates(config, include_templates) {
        seq![v9_template_packet(stamp, sequence, templates)] + data
    } else {
        data
    }
}

/// The record count grows with the flowset list.
pub proof fn lemma_v9_record_count_prefix(flowsets: Seq<V9FlowSet>, k: int)
    requires
        0 <= k <= flowsets.len(),
    ensures
        v9_record_count(flowsets.take(k)) <= v9_record_count(flowsets),
    decreases flowsets.len(),
{
    if k < flowsets.len() {
        lemma_v9_record_count_prefix(flowsets.drop_last(), k);
        assert(flowsets.drop_last().take(k) =~= flowsets.take(k));
    } else {
        assert(flowsets.take(k) =~= flowsets);
    }
}

/// Collects the template definitions of an entry, in order.
pub fn collect_templates<'a>(flowsets: &'a Vec<V9FlowSet>) -> (templates: Vec<V9Template<'a>>)
    ensures
        template_specs(templates@) == v9_templates_of(flowsets@),
{
    let mut templates: Vec<V9Template<'a>> = Vec::new();
    let mut i: usize = 0;
    assert(template_specs(templates@) =~= v9_templates_of(flowsets@.take(0)));
    while i < flowsets.len()
        invariant
            i <= flowsets.len(),
            template_specs(templates@) == v9_templates_of(flowsets@.take(i as int)),
        decreases flowsets.len() - i,
    {
        let ghost before = templates@;
        match &flowsets[i] {
            V9FlowSet::Template { template_id, fields } => {
                templates.push(V9Template { template_id: *template_id, fields });
                assert(template_specs(templates@) =~= template_specs(before).push(
                    (*template_id, fields@),
                ));
            },
            V9FlowSet::Data { .. } => {},
        }
        proof {
            let next = flowsets@.take(i + 1);
            assert(next.drop_last() =~= flowsets@.take(i as int));
            assert(next.last() == flowsets@[i as int]);
        }
        i = i + 1;
    }
    proof {
        assert(flowsets@.take(flowsets.len() as int) =~= flowsets@);
    }
    templates
}

/// Finds the fields of the first template with the given id.
pub fn lookup_template<'a>(templates: &Vec<V9Template<'a>>, template_id: u16) -> (found: Option<
    &'a Vec<V9TemplateField>,
>)
    ensures
        match found {
            Some(fields) => find_template(template_specs(templates@), template_id) == Some(
                fields@,
            ),
            None => find_template(template_specs(templates@), template_id) is None,
        },
{
    let ghost specs = template_specs(templates@);
    let mut i: usize = 0;
    assert(specs.skip(0) =~= specs);
    while i < templates.len()
        invariant
            i <= templates.len(),
            specs == template_specs(templates@),
            find_template(specs, template_id) == find_template(specs.skip(i as int), template_id),
        decreases templates.len() - i,
    {
        assert(specs.skip(i as int)[0] == specs[i as int]);
        if templates[i].template_id == template_id {
            return Some(templates[i].fields);
        }
        assert(specs.skip(i as int).drop_first() =~= specs.skip(i + 1));
        i = i + 1;
    }
    None
}

/// The header values shared by the messages built for `config`.
fn get_header_values(config: &V9Config, now_secs: u64) -> (stamp: V9Stamp)
    ensures
        stamp == v9_stamp(*config, now_secs),
{
    let mut sys_up_time: u32 = 360000;
    let mut unix_secs: u32 = (now_secs % 0x1_0000_0000) as u32;
    let mut source_id: u32 = 1;
    if let Some(h) = config.header {
        if let Some(v) = h.sys_up_time {
            sys_up_time = v;
        }
        if let Some(v) = h.unix_secs {
            unix_secs = v;
        }
        if let Some(v) = h.source_id {
            source_id = v;
        }
    }
    V9Stamp { sys_up_time, unix_secs, source_id }
}

/// Builds the messages of a v9 entry at a given clock reading.
///
/// `sequence` is the number of flow records the exporter has sent before; the second
/// component of the result is that number after these messages. The template message,
/// when there is one, carries `sequence` and does not advance it.
pub fn build_v9_packets_at(
    config: &V9Config,
    sequence: u32,
    include_templates: bool,
    now_secs: u64,
) -> (res: Result<(Vec<Vec<u8>>, u32), NetflowError>)
    ensures
        res is Ok <==> v9_buildable(*config, sequence, include_templates),
        res matches Ok((packets, next)) ==> {
            &&& buffers(packets@) == v9_packets(*config, sequence, include_templates, now_secs)
            &&& next == sequence + v9_record_count(config.flowsets@)
        },
        res matches Err(e) ==> e is Generation,
{
    if config.flowsets.len() == 0 {
        return Err(
            NetflowError::generation(
                "V9 configuration must contain at least one template or data flowset",
            ),
        );
    }
    let stamp = get_header_values(config, now_secs);
    let templates = collect_templates(&config.flowsets);
    let ghost specs = v9_templates_of(config.flowsets@);
    let mut packets: Vec<Vec<u8>> = Vec::new();
    if include_templates && templates.len() > 0 {
        let packet = build_template_packet(&stamp, sequence, &templates)?;
        proof {
            lemma_buffers_push(packets@, packet);
        }
        packets.push(packet);
    }
    let ghost head = buffers(packets@);
    let mut current: u32 = sequence;
    let mut i: usize = 0;
    assert(buffers(packets@) =~= head + v9_data_packets(
        stamp,
        sequence,
        specs,
        config.flowsets@.take(0),
    ));
    while i < config.flowsets.len()
        invariant
            i <= config.flowsets.len(),
            specs == v9_templates_of(config.flowsets@),
            specs == template_specs(templates@),
            stamp == v9_stamp(*config, now_secs),
            current == sequence + v9_record_count(config.flowsets@.take(i as int)),
            buffers(packets@) == head + v9_data_packets(
                stamp,
                sequence,
                specs,
                config.flowsets@.take(i as int),
            ),
            forall|j: int| 0 <= j < i ==> v9_flowset_ok(specs, #[trigger] config.flowsets@[j]),
        decreases config.flowsets.len() - i,
    {
        proof {
            let next = config.flowsets@.take(i + 1);
            assert(next.drop_last() =~= config.flowsets@.take(i as int));
            assert(next.last() == config.flowsets@[i as int]);
        }
        match &config.flowsets[i] {
            V9FlowSet::Template { .. } => {},
            V9FlowSet::Data { template_id, records } => {
                let fields = match lookup_template(&templates, *template_id) {
                    Some(fields) => fields,
                    None => {
                        return Err(
                            NetflowError::Generation(
                                joined_number(
                                    "Data flowset references undefined template ID: ",
                                    *template_id as u64,
                                ),
                            ),
                        );
                    },
                };
                let packet = build_data_packet(&stamp, current, *template_id, fields, records)?;
                if records.len() > (u32::MAX - current) as usize {
                    proof {
                        lemma_v9_record_count_prefix(config.flowsets@, i + 1);
                    }
                    return Err(NetflowError::generation("Sequence number overflow"));
                }
                proof {
                    lemma_buffers_push(packets@, packet);
                }
                packets.push(packet);
                current = current + records.len() as u32;
            },
        }
        i = i + 1;
    }
    proof {
        assert(config.flowsets@.take(config.flowsets.len() as int) =~= config.flowsets@);
    }
    Ok((packets, current))
}

/// Builds the messages of a v9 entry, stamped with the current time where the header
/// names none.
///
/// Fails when the system clock cannot be read, and otherwise exactly when
/// [`build_v9_packets_at`] does; the messages that come out are those that function
/// builds for some clock reading.
pub fn build_v9_packets(config: &V9Config, sequence: u32, include_templates: bool) -> (res: Result<
    (Vec<Vec<u8>>, u32),
    NetflowError,
>)
    ensures
        res is Ok ==> v9_buildable(*config, sequence, include_templates),
        res matches Ok((packets, next)) ==> {
            &&& exists|now_secs: u64|
                buffers(packets@) == v9_packets(*config, sequence, include_templates, now_secs)
            &&& next == sequence + v9_record_count(config.flowsets@)
        },
        res matches Err(e) ==> e is Generation,
{
    match unix_time_secs() {
        Some(now_secs) => build_v9_packets_at(config, sequence, include_templates, now_secs),
        None => Err(NetflowError::generation("Failed to get system time")),
    }
}

/// The record lists of the data flowsets of an entry, in order.
pub open spec fn v9_data_of(flowsets: Seq<V9FlowSet>) -> Seq<Seq<Record>>
    decreases flowsets.len(),
{
    if flowsets.len() == 0 {
        Seq::empty()
    } else {
        let front = v9_data_of(flowsets.drop_last());
        match flowsets.last() {
            V9FlowSet::Template { .. } => front,
            V9FlowSet::Data { records, .. } => front.push(records@),
        }
    }
}

/// The record count of an entry is the total over its data flowsets.
pub proof fn lemma_v9_record_count_is_total(flowsets: Seq<V9FlowSet>)
    ensures
        v9_record_count(flowsets) == total_records(v9_data_of(flowsets)),
    decreases flowsets.len(),
{
    if flowsets.len() > 0 {
        lemma_v9_record_count_is_total(flowsets.drop_last());
        match flowsets.last() {
            V9FlowSet::Template { .. } => {},
            V9FlowSet::Data { records, .. } => {
                assert(v9_data_of(flowsets).drop_last() =~= v9_data_of(flowsets.drop_last()));
            },
        }
    }
}

/// What the header of a message says: version 9, the flowset count, and the sequence
/// number.
pub proof fn lemma_v9_header_fields(
    count: u16,
    stamp: V9Stamp,
    sequence_number: u32,
    rest: Seq<u8>,
)
    ensures
        read_be16(v9_header_bytes(count, stamp, sequence_number) + rest, 0) == 9,
        read_be16(v9_header_bytes(count, stamp, sequence_number) + rest, 2) == count,
        v9_sequence_of(v9_header_bytes(count, stamp, sequence_number) + rest) == sequence_number,
        v9_header_bytes(count, stamp, sequence_number).len() == 20,
{
    let h = v9_header_bytes(count, stamp, sequence_number);
    let m = h + rest;
    let front = be16(9) + be16(count) + be32(stamp.sys_up_time) + be32(stamp.unix_secs);
    assert(m =~= front + be32(sequence_number) + (be32(stamp.source_id) + rest));
    crate::wire::lemma_read_be32(front, sequence_number, be32(stamp.source_id) + rest);
    assert(m =~= Seq::<u8>::empty() + be16(9) + (be16(count) + be32(stamp.sys_up_time) + be32(
        stamp.unix_secs,
    ) + be32(sequence_number) + be32(stamp.source_id) + rest));
    crate::wire::lemma_read_be16(
        Seq::<u8>::empty(),
        9,
        be16(count) + be32(stamp.sys_up_time) + be32(stamp.unix_secs) + be32(sequence_number)
            + be32(stamp.source_id) + rest,
    );
    assert(m =~= be16(9) + be16(count) + (be32(stamp.sys_up_time) + be32(stamp.unix_secs) + be32(
        sequence_number,
    ) + be32(stamp.source_id) + rest));
    crate::wire::lemma_read_be16(
        be16(9),
        count,
        be32(stamp.sys_up_time) + be32(stamp.unix_secs) + be32(sequence_number) + be32(
            stamp.source_id,
        ) + rest,
    );
}

/// In a data message, the length field of the flowset holds the distance from the
/// flowset id to the end of the message, and that distance is a multiple of four.
pub proof fn lemma_v9_data_packet_shape(
    stamp: V9Stamp,
    sequence_number: u32,
    template_id: u16,
    fields: Seq<V9TemplateField>,
    records: Seq<Record>,
)
    requires
        v9_data_ok(fields, records),
    ensures
        ({
            let m = v9_data_packet(stamp, sequence_number, template_id, fields, records);
            &&& m.len() >= 24
            &&& read_be16(m, 20) == template_id
            &&& read_be16(m, 22) == m.len() - 20
            &&& (m.len() - 20) % 4 == 0
            &&& v9_sequence_of(m) == sequence_number
            &&& read_be16(m, 0) == 9
            &&& read_be16(m, 2) == 1
        }),
{
    let body = records_bytes(Registry::V9, v9_field_specs(fields), records);
    let set = set_bytes(template_id, body);
    let h = v9_header_bytes(1, stamp, sequence_number);
    let m = h + set;
    lemma_set_shape(template_id, body);
    lemma_v9_header_fields(1, stamp, sequence_number, set);
    assert(m[20] == set[0] && m[21] == set[1] && m[22] == set[2] && m[23] == set[3]);
}

/// The sequence numbers of the data messages of an entry: message `k` carries the
/// starting number plus the records of the data flowsets before it.
pub proof fn lemma_v9_data_sequence_numbers(
    stamp: V9Stamp,
    sequence: u32,
    templates: Seq<(u16, Seq<V9TemplateField>)>,
    flowsets: Seq<V9FlowSet>,
)
    requires
        sequence + v9_record_count(flowsets) <= u32::MAX,
    ensures
        v9_data_packets(stamp, sequence, templates, flowsets).len() == v9_data_of(flowsets).len(),
        forall|k: int|
            0 <= k < v9_data_of(flowsets).len() ==> v9_sequence_of(
                #[trigger] v9_data_packets(stamp, sequence, templates, flowsets)[k],
            ) == sequence + total_records(v9_data_of(flowsets).take(k)),
    decreases flowsets.len(),
{
    if flowsets.len() > 0 {
        let front = flowsets.drop_last();
        lemma_v9_record_count_prefix(flowsets, flowsets.len() - 1);
        assert(flowsets.take(flowsets.len() - 1) =~= front);
        lemma_v9_data_sequence_numbers(stamp, sequence, templates, front);
        lemma_v9_record_count_is_total(front);
        let packets = v9_data_packets(stamp, sequence, templates, flowsets);
        let lists = v9_data_of(flowsets);
        match flowsets.last() {
            V9FlowSet::Template { .. } => {},
            V9FlowSet::Data { template_id, records } => {
                let fields = match find_template(templates, template_id) {
                    Some(fields) => fields,
                    None => Seq::empty(),
                };
                let at = (sequence + v9_record_count(front)) as u32;
                lemma_v9_header_fields(1, stamp, at, v9_data_set(template_id, fields, records@));
                assert forall|k: int| 0 <= k < lists.len() implies v9_sequence_of(
                    #[trigger] packets[k],
                ) == sequence + total_records(lists.take(k)) by {
                    if k < lists.len() - 1 {
                        assert(lists.take(k) =~= v9_data_of(front).take(k));
                    } else {
                        assert(lists.take(k) =~= v9_data_of(front));
                    }
                }
            },
        }
    }
}

/// How a build numbers its messages. The template message, when there is one, comes
/// first and carries the starting sequence number; data message `k` carries the
/// starting number plus the records of the data flowsets before it; and the number
/// handed back is the starting number plus all records. So each data message's number
/// exceeds its predecessor's by the predecessor's record count, and a template message
/// carries the number of the data message that follows it.
pub proof fn lemma_v9_sequence_numbers(
    config: V9Config,
    sequence: u32,
    include_templates: bool,
    now_secs: u64,
)
    requires
        sequence + v9_record_count(config.flowsets@) <= u32::MAX,
    ensures
        ({
            let packets = v9_packets(config, sequence, include_templates, now_secs);
            let lists = v9_data_of(config.flowsets@);
            let first = if v9_emits_templates(config, include_templates) {
                1int
            } else {
                0int
            };
            &&& packets.len() == first + lists.len()
            &&& first == 1 ==> v9_sequence_of(packets[0]) == sequence
            &&& forall|k: int|
                0 <= k < lists.len() ==> v9_sequence_of(#[trigger] packets[first + k]) == sequence
                    + total_records(lists.take(k))
            &&& sequence + v9_record_count(config.flowsets@) == sequence + total_records(lists)
        }),
{
    let templates = v9_templates_of(config.flowsets@);
    let stamp = v9_stamp(config, now_secs);
    let data = v9_data_packets(stamp, sequence, templates, config.flowsets@);
    let packets = v9_packets(config, sequence, include_templates, now_secs);
    let lists = v9_data_of(config.flowsets@);
    lemma_v9_data_sequence_numbers(stamp, sequence, templates, config.flowsets@);
    lemma_v9_record_count_is_total(config.flowsets@);
    if v9_emits_templates(config, include_templates) {
        lemma_v9_header_fields(
            templates.len() as u16,
            stamp,
            sequence,
            v9_template_sets(templates),
        );
        assert forall|k: int| 0 <= k < lists.len() implies v9_sequence_of(
            #[trigger] packets[1 + k],
        ) == sequence + total_records(lists.take(k)) by {
            assert(packets[1 + k] == data[k]);
        }
    }
}

/// Whether a message has the shape of a data message: the length field of its flowset
/// holds the distance from the flowset id to the end of the message, that distance is a
/// multiple of four.
pub open spec fn v9_data_shape(message: Seq<u8>) -> bool {
    &&& message.len() >= 24
    &&& read_be16(message, 0) == 9
    &&& read_be16(message, 22) == message.len() - 20
    &&& (message.len() - 20) % 4 == 0
}

/// Every data message of an entry has the shape of a data message.
pub proof fn lemma_v9_data_packets_shape(
    stamp: V9Stamp,
    sequence: u32,
    templates: Seq<(u16, Seq<V9TemplateField>)>,
    flowsets: Seq<V9FlowSet>,
)
    requires
        v9_data_flowsets_ok(templates, flowsets),
    ensures
        forall|k: int|
            0 <= k < v9_data_packets(stamp, sequence, templates, flowsets).len() ==> v9_data_shape(
                #[trigger] v9_data_packets(stamp, sequence, templates, flowsets)[k],
            ),
    decreases flowsets.len(),
{
    if flowsets.len() > 0 {
        let front = flowsets.drop_last();
        assert forall|i: int| 0 <= i < front.len() implies v9_flowset_ok(
            templates,
            #[trigger] front[i],
        ) by {
            assert(front[i] == flowsets[i]);
        }
        lemma_v9_data_packets_shape(stamp, sequence, templates, front);
        assert(v9_flowset_ok(templates, flowsets[flowsets.len() - 1]));
        match flowsets.last() {
            V9FlowSet::Template { .. } => {
                assert(v9_data_packets(stamp, sequence, templates, flowsets)
                    == v9_data_packets(stamp, sequence, templates, front));
            },
            V9FlowSet::Data { template_id, records } => {
                let fields = find_template(templates, template_id)->0;
                let at = (sequence + v9_record_count(front)) as u32;
                lemma_v9_data_packet_shape(stamp, at, template_id, fields, records@);
                let packets = v9_data_packets(stamp, sequence, templates, flowsets);
                let before = v9_data_packets(stamp, sequence, templates, front);
                assert(packets == before.push(
                    v9_data_packet(stamp, at, template_id, fields, records@),
                ));
                assert forall|k: int| 0 <= k < packets.len() implies v9_data_shape(
                    #[trigger] packets[k],
                ) by {
                    if k < before.len() {
                        assert(packets[k] == before[k]);
                    }
                }
            },
        }
    }
}

/// Every data message that a build emits has the shape of a data message.
pub proof fn lemma_v9_packets_shape(
    config: V9Config,
    sequence: u32,
    include_templates: bool,
    now_secs: u64,
)
    requires
        v9_buildable(config, sequence, include_templates),
    ensures
        ({
            let packets = v9_packets(config, sequence, include_templates, now_secs);
            let first = if v9_emits_templates(config, include_templates) {
                1int
            } else {
                0int
            };
            forall|k: int| first <= k < packets.len() ==> v9_data_shape(#[trigger] packets[k])
        }),
{
    let templates = v9_templates_of(config.flowsets@);
    let stamp = v9_stamp(config, now_secs);
    let data = v9_data_packets(stamp, sequence, templates, config.flowsets@);
    let packets = v9_packets(config, sequence, include_templates, now_secs);
    lemma_v9_data_packets_shape(stamp, sequence, templates, config.flowsets@);
    if v9_emits_templates(config, include_templates) {
        assert forall|k: int| 1 <= k < packets.len() implies v9_data_shape(
            #[trigger] packets[k],
        ) by {
            assert(packets[k] == data[k - 1]);
        }
    }
}

/// The template flowsets of templates that can be written form a chain, one flowset each.
pub proof fn lemma_v9_template_sets_chain(templates: Seq<(u16, Seq<V9TemplateField>)>)
    requires
        forall|i: int| 0 <= i < templates.len() ==> v9_template_ok(#[trigger] templates[i].1),
    ensures
        is_set_chain(v9_template_sets(templates), templates.len()),
    decreases templates.len(),
{
    if templates.len() > 0 {
        let front = templates.drop_last();
        assert forall|i: int| 0 <= i < front.len() implies v9_template_ok(
            #[trigger] front[i].1,
        ) by {
            assert(front[i] == templates[i]);
        }
        lemma_v9_template_sets_chain(front);
        let last = templates.last();
        assert(v9_template_ok(templates[templates.len() - 1].1));
        let specs = v9_field_specs(last.1);
        lemma_template_fields_len(specs);
        lemma_set_chain_one(0, template_body(last.0, specs));
        lemma_set_chain_append(
            v9_template_sets(front),
            front.len(),
            v9_template_set(last.0, last.1),
            1,
        );
    }
}

/// In a template message, every flowset is measured by its length field, its header counts the
/// template flowsets, and it carries the sequence number it was built with.
pub proof fn lemma_v9_template_packet_shape(
    stamp: V9Stamp,
    sequence_number: u32,
    templates: Seq<(u16, Seq<V9TemplateField>)>,
)
    requires
        v9_templates_ok(templates),
    ensures
        ({
            let m = v9_template_packet(stamp, sequence_number, templates);
            &&& read_be16(m, 0) == 9
            &&& read_be16(m, 2) == templates.len()
            &&& v9_sequence_of(m) == sequence_number
            &&& is_set_chain(m.skip(20), templates.len())
        }),
{
    let sets = v9_template_sets(templates);
    let m = v9_template_packet(stamp, sequence_number, templates);
    lemma_v9_template_sets_chain(templates);
    lemma_v9_header_fields(templates.len() as u16, stamp, sequence_number, sets);
    assert(m.skip(20) =~= sets);
}

/// In a data message, the one flowset is measured by its length field.
pub proof fn lemma_v9_data_packet_chain(
    stamp: V9Stamp,
    sequence_number: u32,
    template_id: u16,
    fields: Seq<V9TemplateField>,
    records: Seq<Record>,
)
    requires
        v9_data_ok(fields, records),
    ensures
        ({
            let m = v9_data_packet(stamp, sequence_number, template_id, fields, records);
            &&& read_be16(m, 0) == 9
            &&& read_be16(m, 2) == 1
            &&& is_set_chain(m.skip(20), 1)
        }),
{
    let body = records_bytes(Registry::V9, v9_field_specs(fields), records);
    let set = set_bytes(template_id, body);
    let m = v9_data_packet(stamp, sequence_number, template_id, fields, records);
    lemma_set_chain_one(template_id, body);
    lemma_v9_header_fields(1, stamp, sequence_number, set);
    assert(m.skip(20) =~= set);
}

} // verus!

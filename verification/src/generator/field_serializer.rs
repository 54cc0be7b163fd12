//! The field registry's record keys, record lookup and the encoding of one field value.

use crate::config::schema::{FieldValue, Record, RecordEntry};
use crate::ipv4::{parse_ipv4, parse_ipv4_text};
use crate::text::str_eq;
use crate::wire::{be16, be32, be64, push_be16, push_be32, push_be64, push_zeros, zeros};
use vstd::prelude::*;

verus! {

/// The key under which a data record holds the NetFlow v9 field with the given type id;
/// `"unknown"` for an id outside the registry.
pub open spec fn v9_field_key(field_type: u16) -> Seq<char> {
    if field_type == 1 {
        "in_bytes"@
    } else if field_type == 2 {
        "in_pkts"@
    } else if field_type == 3 {
        "flows"@
    } else if field_type == 4 {
        "protocol"@
    } else if field_type == 5 {
        "src_tos"@
    } else if field_type == 6 {
        "tcp_flags"@
    } else if field_type == 7 {
        "src_port"@
    } else if field_type == 8 {
        "src_addr"@
    } else if field_type == 9 {
        "src_mask"@
    } else if field_type == 10 {
        "input_snmp"@
    } else if field_type == 11 {
        "dst_port"@
    } else if field_type == 12 {
        "dst_addr"@
    } else if field_type == 13 {
        "dst_mask"@
    } else if field_type == 14 {
        "output_snmp"@
    } else if field_type == 15 {
        "next_hop"@
    } else if field_type == 16 {
        "src_as"@
    } else if field_type == 17 {
        "dst_as"@
    } else if field_type == 18 {
        "bgp_next_hop"@
    } else if field_type == 19 {
        "mul_dst_pkts"@
    } else if field_type == 20 {
        "mul_dst_bytes"@
    } else if field_type == 21 {
        "last_switched"@
    } else if field_type == 22 {
        "first_switched"@
    } else if field_type == 23 {
        "out_bytes"@
    } else if field_type == 24 {
        "out_pkts"@
    } else {
        "unknown"@
    }
}

/// The record key of a NetFlow v9 field type id.
pub fn v9_field_id_to_name(field_type: u16) -> (name: &'static str)
    ensures
        name@ == v9_field_key(field_type),
{
    match field_type {
        1 => "in_bytes",
        2 => "in_pkts",
        3 => "flows",
        4 => "protocol",
        5 => "src_tos",
        6 => "tcp_flags",
        7 => "src_port",
        8 => "src_addr",
        9 => "src_mask",
        10 => "input_snmp",
        11 => "dst_port",
        12 => "dst_addr",
        13 => "dst_mask",
        14 => "output_snmp",
        15 => "next_hop",
        16 => "src_as",
        17 => "dst_as",
        18 => "bgp_next_hop",
        19 => "mul_dst_pkts",
        20 => "mul_dst_bytes",
        21 => "last_switched",
        22 => "first_switched",
        23 => "out_bytes",
        24 => "out_pkts",
        _ => "unknown",
    }
}

/// The key under which a data record holds the IPFIX information element with the given
/// id; `"unknown"` for an id outside the registry.
pub open spec fn ipfix_field_key(field_type: u16) -> Seq<char> {
    if field_type == 1 {
        "octet_delta_count"@
    } else if field_type == 2 {
        "packet_delta_count"@
    } else if field_type == 3 {
        "delta_flow_count"@
    } else if field_type == 4 {
        "protocol_identifier"@
    } else if field_type == 5 {
        "ip_class_of_service"@
    } else if field_type == 6 {
        "tcp_control_bits"@
    } else if field_type == 7 {
        "source_transport_port"@
    } else if field_type == 8 {
        "source_ipv4_address"@
    } else if field_type == 9 {
        "source_ipv4_prefix_length"@
    } else if field_type == 10 {
        "ingress_interface"@
    } else if field_type == 11 {
        "destination_transport_port"@
    } else if field_type == 12 {
        "destination_ipv4_address"@
    } else if field_type == 13 {
        "destination_ipv4_prefix_length"@
    } else if field_type == 14 {
        "egress_interface"@
    } else if field_type == 15 {
        "ip_next_hop_ipv4_address"@
    } else if field_type == 16 {
        "bgp_source_as_number"@
    } else if field_type == 17 {
        "bgp_destination_as_number"@
    } else if field_type == 18 {
        "bgp_next_hop_ipv4_address"@
    } else if field_type == 21 {
        "flow_end_sys_up_time"@
    } else if field_type == 22 {
        "flow_start_sys_up_time"@
    } else {
        "unknown"@
    }
}

/// The record key of an IPFIX information element id.
pub fn ipfix_field_id_to_name(field_type: u16) -> (name: &'static str)
    ensures
        name@ == ipfix_field_key(field_type),
{
    match field_type {
        1 => "octet_delta_count",
        2 => "packet_delta_count",
        3 => "delta_flow_count",
        4 => "protocol_identifier",
        5 => "ip_class_of_service",
        6 => "tcp_control_bits",
        7 => "source_transport_port",
        8 => "source_ipv4_address",
        9 => "source_ipv4_prefix_length",
        10 => "ingress_interface",
        11 => "destination_transport_port",
        12 => "destination_ipv4_address",
        13 => "destination_ipv4_prefix_length",
        14 => "egress_interface",
        15 => "ip_next_hop_ipv4_address",
        16 => "bgp_source_as_number",
        17 => "bgp_destination_as_number",
        18 => "bgp_next_hop_ipv4_address",
        21 => "flow_end_sys_up_time",
        22 => "flow_start_sys_up_time",
        _ => "unknown",
    }
}

/// The position of the first entry of `entries` whose key is `key`, if there is one.
pub open spec fn first_entry_with_key(entries: Seq<RecordEntry>, key: Seq<char>) -> Option<int>
    decreases entries.len(),
{
    if entries.len() == 0 {
        None
    } else if entries[0].key@ == key {
        Some(0)
    } else {
        match first_entry_with_key(entries.drop_first(), key) {
            Some(i) => Some(i + 1),
            None => None,
        }
    }
}

/// What `first_entry_with_key` finds: an index in range whose key matches and before
/// which no key matches; nothing exactly when no key matches.
pub proof fn lemma_first_entry_with_key(entries: Seq<RecordEntry>, key: Seq<char>)
    ensures
        match first_entry_with_key(entries, key) {
            Some(i) => {
                &&& 0 <= i < entries.len()
                &&& entries[i].key@ == key
                &&& forall|j: int| 0 <= j < i ==> entries[j].key@ != key
            },
            None => forall|j: int| 0 <= j < entries.len() ==> entries[j].key@ != key,
        },
    decreases entries.len(),
{
    if entries.len() > 0 && entries[0].key@ != key {
        let rest = entries.drop_first();
        lemma_first_entry_with_key(rest, key);
        match first_entry_with_key(rest, key) {
            Some(i) => {
                assert(entries[i + 1] == rest[i]);
                assert forall|j: int| 0 <= j < i + 1 implies entries[j].key@ != key by {
                    if j > 0 {
                        assert(entries[j] == rest[j - 1]);
                    }
                }
            },
            None => {
                assert forall|j: int| 0 <= j < entries.len() implies entries[j].key@ != key by {
                    if j > 0 {
                        assert(entries[j] == rest[j - 1]);
                    }
                }
            },
        }
    }
}

/// The value a record holds under `key`: that of the first entry with this key.
pub open spec fn record_value(record: Record, key: Seq<char>) -> Option<FieldValue> {
    match first_entry_with_key(record.entries@, key) {
        Some(i) => Some(record.entries@[i].value),
        None => None,
    }
}

/// Looks up the value a record holds under `field_name`.
pub fn get_field_value<'a>(record: &'a Record, field_name: &str) -> (found: Option<&'a FieldValue>)
    ensures
        match found {
            Some(v) => record_value(*record, field_name@) == Some(*v),
            None => record_value(*record, field_name@) is None,
        },
{
    let mut i: usize = 0;
    while i < record.entries.len()
        invariant
            i <= record.entries.len(),
            forall|j: int| 0 <= j < i ==> record.entries@[j].key@ != field_name@,
        decreases record.entries.len() - i,
    {
        if str_eq(record.entries[i].key.as_str(), field_name) {
            proof {
                lemma_first_entry_with_key(record.entries@, field_name@);
            }
            return Some(&record.entries[i].value);
        }
        i = i + 1;
    }
    proof {
        lemma_first_entry_with_key(record.entries@, field_name@);
    }
    None
}

/// A non-negative integer in a field of `len` bytes: its low `len` bytes, most
/// significant first, for a length of 1, 2, 4 or 8; zeros for any other length.
pub open spec fn unsigned_bytes(v: u64, len: u16) -> Seq<u8> {
    if len == 1 {
        seq![(v % 0x100) as u8]
    } else if len == 2 {
        be16((v % 0x1_0000) as u16)
    } else if len == 4 {
        be32((v % 0x1_0000_0000) as u32)
    } else if len == 8 {
        be64(v)
    } else {
        zeros(len as nat)
    }
}

/// A field value in a field of `len` bytes: the four octets of a dotted-quad text when
/// `len` is 4, the low bytes of a non-negative integer, and zeros for everything else.
pub open spec fn field_value_bytes(value: FieldValue, len: u16) -> Seq<u8> {
    match value {
        FieldValue::Text(s) => match parse_ipv4_text(s@) {
            Some(octets) => if len == 4 {
                octets
            } else {
                zeros(len as nat)
            },
            None => zeros(len as nat),
        },
        FieldValue::Unsigned(v) => unsigned_bytes(v, len),
        FieldValue::Other => zeros(len as nat),
    }
}

/// A field always fills its declared length.
pub proof fn lemma_field_value_bytes_len(value: FieldValue, len: u16)
    ensures
        field_value_bytes(value, len).len() == len,
{
    if let FieldValue::Text(s) = value {
        if parse_ipv4_text(s@) is Some {
            crate::ipv4::lemma_parse_ipv4_text_sound(s@);
        }
    }
}

/// The bytes of the field that a record holds under `key`; zeros when it holds none.
pub open spec fn record_field_bytes(record: Record, key: Seq<char>, len: u16) -> Seq<u8> {
    match record_value(record, key) {
        Some(value) => field_value_bytes(value, len),
        None => zeros(len as nat),
    }
}

/// Appends one field value, encoded in `field_length` bytes.
pub fn push_field_value(out: &mut Vec<u8>, value: &FieldValue, field_length: u16)
    ensures
        final(out)@ == old(out)@ + field_value_bytes(*value, field_length),
{
    match value {
        FieldValue::Text(s) => {
            match parse_ipv4(s.as_str()) {
                Some(octets) => {
                    if field_length == 4 {
                        out.push(octets[0]);
                        out.push(octets[1]);
                        out.push(octets[2]);
                        out.push(octets[3]);
                        assert(out@ =~= old(out)@ + octets@);
                    } else {
                        push_zeros(out, field_length as usize);
                    }
                },
                None => {
                    push_zeros(out, field_length as usize);
                },
            }
        },
        FieldValue::Unsigned(v) => {
            if field_length == 1 {
                out.push((*v % 0x100) as u8);
                assert(out@ =~= old(out)@ + unsigned_bytes(*v, field_length));
            } else if field_length == 2 {
                push_be16(out, (*v % 0x1_0000) as u16);
            } else if field_length == 4 {
                push_be32(out, (*v % 0x1_0000_0000) as u32);
            } else if field_length == 8 {
                push_be64(out, *v);
            } else {
                push_zeros(out, field_length as usize);
            }
        },
        FieldValue::Other => {
            push_zeros(out, field_length as usize);
        },
    }
}

/// Encodes one field value in `field_length` bytes.
pub fn serialize_field_value(value: &FieldValue, field_length: u16) -> (out: Vec<u8>)
    ensures
        out@ == field_value_bytes(*value, field_length),
        out@.len() == field_length,
{
    let mut out: Vec<u8> = Vec::new();
    push_field_value(&mut out, value, field_length);
    proof {
        lemma_field_value_bytes_len(*value, field_length);
        assert(Seq::<u8>::empty() + field_value_bytes(*value, field_length) =~= field_value_bytes(
            *value,
            field_length,
        ));
    }
    out
}

} // verus!

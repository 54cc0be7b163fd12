//! NetFlow v7: one 24-byte header followed by one 52-byte record per flow. The sequence
//! field is whatever the entry configures; nothing is carried from packet to packet.

use crate::clock::{saturate_secs, saturated_secs, unix_time_secs};
use crate::config::schema::{V7Config, V7FlowSet};
use crate::error::NetflowError;
use crate::wire::{be16, be32};
use netflow_parser::static_versions::v7::{FlowSet, Header, V7};
use vstd::prelude::*;

verus! {

/// The header values of one v7 packet, after defaults.
pub struct V7HeaderValues {
    pub count: u16,
    pub sys_up_time: u32,
    pub unix_secs: u32,
    pub unix_nsecs: u32,
    pub flow_sequence: u32,
    pub reserved: u32,
}

/// The 24 header bytes.
pub open spec fn v7_header_bytes(h: V7HeaderValues) -> Seq<u8> {
    be16(7) + be16(h.count) + be32(h.sys_up_time) + be32(h.unix_secs) + be32(h.unix_nsecs) + be32(
        h.flow_sequence,
    ) + be32(h.reserved)
}

/// The 52 bytes of one record.
pub open spec fn v7_record_bytes(f: V7FlowSet) -> Seq<u8> {
    f.src_addr@ + f.dst_addr@ + f.next_hop@ + be16(f.input) + be16(f.output) + be32(f.d_pkts)
        + be32(f.d_octets) + be32(f.first) + be32(f.last) + be16(f.src_port) + be16(f.dst_port)
        + seq![f.flags, f.tcp_flags, f.protocol, f.tos] + be16(f.src_as) + be16(f.dst_as) + seq![
        f.src_mask,
        f.dst_mask,
    ] + be16(f.flags2) + f.router_src@
}

/// The records one after another.
pub open spec fn v7_records_bytes(flowsets: Seq<V7FlowSet>) -> Seq<u8>
    decreases flowsets.len(),
{
    if flowsets.len() == 0 {
        Seq::empty()
    } else {
        v7_records_bytes(flowsets.drop_last()) + v7_record_bytes(flowsets.last())
    }
}

/// `n` records take `52 * n` bytes.
pub proof fn lemma_v7_records_len(flowsets: Seq<V7FlowSet>)
    ensures
        v7_records_bytes(flowsets).len() == 52 * flowsets.len(),
    decreases flowsets.len(),
{
    if flowsets.len() > 0 {
        lemma_v7_records_len(flowsets.drop_last());
    }
}

/// Serialises a header and its records with `V7::to_be_bytes` of `netflow_parser`.
///
/// That function writes the header fields in declaration order, each big-endian, and
/// then for every record its fields in declaration order. The derived `protocol_type`
/// is not written.
#[verifier::external_body]
fn v7_to_be_bytes(h: V7HeaderValues, flowsets: &Vec<V7FlowSet>) -> (out: Vec<u8>)
    ensures
        out@ == v7_header_bytes(h) + v7_records_bytes(flowsets@),
{
    let V7HeaderValues { count, sys_up_time, unix_secs, unix_nsecs, flow_sequence, reserved } = h;
    let header =
        Header { version: 7, count, sys_up_time, unix_secs, unix_nsecs, flow_sequence, reserved };
    let flowsets = flowsets.iter().map(|&V7FlowSet { src_addr, dst_addr, next_hop, input, output,
        d_pkts, d_octets, first, last, src_port, dst_port, flags, tcp_flags, protocol, tos, src_as,
        dst_as, src_mask, dst_mask, flags2, router_src }| {
        FlowSet { src_addr: src_addr.into(), dst_addr: dst_addr.into(), next_hop: next_hop.into(),
            input, output, d_pkts, d_octets, first, last, src_port, dst_port,
            flags_fields_valid: flags, tcp_flags, protocol_number: protocol,
            protocol_type: protocol.into(), tos, src_as, dst_as, src_mask, dst_mask,
            flags_fields_invalid: flags2, router_src: router_src.into() }
    }).collect();
    V7 { header, flowsets }.to_be_bytes()
}

/// A v7 entry can be built when it has between 1 and 65535 records.
pub open spec fn v7_buildable(config: V7Config) -> bool {
    0 < config.flowsets.len() <= 0xffff
}

/// The header of the packet built for `config`: the record count, and for every other
/// field the override or else its default. The default timestamp is `now_secs`, held to
/// 32 bits; the default sequence number is 0.
pub open spec fn v7_header_values(config: V7Config, now_secs: u64) -> V7HeaderValues {
    let h = config.header;
    V7HeaderValues {
        count: config.flowsets.len() as u16,
        sys_up_time: if h is Some && h->0.sys_up_time is Some {
            h->0.sys_up_time->0
        } else {
            360000
        },
        unix_secs: if h is Some && h->0.unix_secs is Some {
            h->0.unix_secs->0
        } else {
            saturated_secs(now_secs)
        },
        unix_nsecs: if h is Some && h->0.unix_nsecs is Some {
            h->0.unix_nsecs->0
        } else {
            0
        },
        flow_sequence: if h is Some && h->0.flow_sequence is Some {
            h->0.flow_sequence->0
        } else {
            0
        },
        reserved: if h is Some && h->0.reserved is Some {
            h->0.reserved->0
        } else {
            0
        },
    }
}

/// The packet built for `config`: header, then records.
pub open spec fn v7_packet(config: V7Config, now_secs: u64) -> Seq<u8> {
    v7_header_bytes(v7_header_values(config, now_secs)) + v7_records_bytes(config.flowsets@)
}

/// A v7 packet starts with the version and the record count, and is 24 bytes of header
/// plus 52 bytes for each record long.
pub proof fn lemma_v7_packet_shape(config: V7Config, now_secs: u64)
    ensures
        v7_packet(config, now_secs).len() == 24 + 52 * config.flowsets.len(),
        v7_packet(config, now_secs).subrange(0, 2) == be16(7),
        v7_packet(config, now_secs).subrange(2, 4) == be16(config.flowsets.len() as u16),
{
    lemma_v7_records_len(config.flowsets@);
    let p = v7_packet(config, now_secs);
    assert(p.subrange(0, 2) =~= be16(7));
    assert(p.subrange(2, 4) =~= be16(config.flowsets.len() as u16));
}

/// Fills in the header of the packet for `config`.
fn build_header(config: &V7Config, now_secs: u64) -> (h: V7HeaderValues)
    requires
        config.flowsets.len() <= 0xffff,
    ensures
        h == v7_header_values(*config, now_secs),
{
    let count = config.flowsets.len() as u16;
    let mut sys_up_time: u32 = 360000;
    let mut unix_secs: u32 = saturate_secs(now_secs);
    let mut unix_nsecs: u32 = 0;
    let mut flow_sequence: u32 = 0;
    let mut reserved: u32 = 0;
    if let Some(h) = config.header {
        if let Some(v) = h.sys_up_time {
            sys_up_time = v;
        }
        if let Some(v) = h.unix_secs {
            unix_secs = v;
        }
        if let Some(v) = h.unix_nsecs {
            unix_nsecs = v;
        }
        if let Some(v) = h.flow_sequence {
            flow_sequence = v;
        }
        if let Some(v) = h.reserved {
            reserved = v;
        }
    }
    V7HeaderValues { count, sys_up_time, unix_secs, unix_nsecs, flow_sequence, reserved }
}

/// Builds the one packet of a v7 entry at a given clock reading.
pub fn build_v7_packet_at(config: &V7Config, now_secs: u64) -> (res: Result<Vec<u8>, NetflowError>)
    ensures
        res is Ok <==> v7_buildable(*config),
        res matches Ok(bytes) ==> {
            &&& bytes@ == v7_packet(*config, now_secs)
            &&& bytes@.len() == 24 + 52 * config.flowsets.len()
            &&& bytes@.subrange(0, 2) == be16(7)
            &&& bytes@.subrange(2, 4) == be16(config.flowsets.len() as u16)
        },
        res matches Err(e) ==> e is Generation,
{
    let n = config.flowsets.len();
    if n == 0 {
        return Err(
            NetflowError::generation("V7 configuration must contain at least one flowset"),
        );
    }
    if n > 0xffff {
        return Err(NetflowError::generation("Too many flowsets (max 65535)"));
    }
    let header = build_header(config, now_secs);
    let bytes = v7_to_be_bytes(header, &config.flowsets);
    proof {
        lemma_v7_packet_shape(*config, now_secs);
    }
    Ok(bytes)
}

/// Builds the one packet of a v7 entry, stamped with the current time where the header
/// names none.
///
/// Fails when the system clock cannot be read, and otherwise exactly when
/// [`build_v7_packet_at`] does; a packet that comes out is the one that function builds
/// for some clock reading.
pub fn build_v7_packet(config: &V7Config) -> (res: Result<Vec<u8>, NetflowError>)
    ensures
        res is Ok ==> v7_buildable(*config),
        res matches Ok(bytes) ==> {
            &&& exists|now_secs: u64| bytes@ == v7_packet(*config, now_secs)
            &&& bytes@.len() == 24 + 52 * config.flowsets.len()
            &&& bytes@.subrange(0, 2) == be16(7)
            &&& bytes@.subrange(2, 4) == be16(config.flowsets.len() as u16)
        },
        res matches Err(e) ==> e is Generation,
{
    match unix_time_secs() {
        Some(now_secs) => build_v7_packet_at(config, now_secs),
        None => Err(NetflowError::generation("Failed to get system time")),
    }
}

/// Record `i` stands at offset `52 * i` among the records.
pub proof fn lemma_v7_record_slice(flowsets: Seq<V7FlowSet>, i: int)
    requires
        0 <= i < flowsets.len(),
    ensures
        v7_records_bytes(flowsets).subrange(52 * i, 52 * i + 52) == v7_record_bytes(flowsets[i]),
    decreases flowsets.len(),
{
    let front = flowsets.drop_last();
    let all = v7_records_bytes(flowsets);
    lemma_v7_records_len(front);
    lemma_v7_records_len(flowsets);
    if i < flowsets.len() - 1 {
        lemma_v7_record_slice(front, i);
        assert(all.subrange(52 * i, 52 * i + 52) =~= v7_records_bytes(front).subrange(
            52 * i,
            52 * i + 52,
        ));
    } else {
        assert(all.subrange(52 * i, 52 * i + 52) =~= v7_record_bytes(flowsets.last()));
    }
}

/// In a packet, record `i` stands at offset `24 + 52 * i`, and its first four bytes are
/// the source address.
pub proof fn lemma_v7_packet_record(config: V7Config, now_secs: u64, i: int)
    requires
        0 <= i < config.flowsets.len(),
    ensures
        v7_packet(config, now_secs).subrange(24 + 52 * i, 24 + 52 * i + 52) == v7_record_bytes(
            config.flowsets@[i],
        ),
        v7_packet(config, now_secs).subrange(24 + 52 * i, 24 + 52 * i + 4)
            == config.flowsets@[i].src_addr@,
{
    let p = v7_packet(config, now_secs);
    let records = v7_records_bytes(config.flowsets@);
    lemma_v7_records_len(config.flowsets@);
    lemma_v7_record_slice(config.flowsets@, i);
    let record = v7_record_bytes(config.flowsets@[i]);
    assert(p.subrange(24 + 52 * i, 24 + 52 * i + 52) =~= records.subrange(52 * i, 52 * i + 52));
    assert(p.subrange(24 + 52 * i, 24 + 52 * i + 4) =~= record.subrange(0, 4));
    assert(record.subrange(0, 4) =~= config.flowsets@[i].src_addr@);
}

} // verus!

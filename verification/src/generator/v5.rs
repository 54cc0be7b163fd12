//! NetFlow v5: one 24-byte header followed by one 48-byte record per flow.

use crate::clock::{saturate_secs, saturated_secs, unix_time_secs};
use crate::config::schema::{V5Config, V5FlowSet};
use crate::error::NetflowError;
use crate::wire::{be16, be32};
use netflow_parser::static_versions::v5::{FlowSet, Header, V5};
use vstd::prelude::*;

verus! {

/// The header values of one v5 packet, after defaults.
pub struct V5HeaderValues {
    pub count: u16,
    pub sys_up_time: u32,
    pub unix_secs: u32,
    pub unix_nsecs: u32,
    pub flow_sequence: u32,
    pub engine_type: u8,
    pub engine_id: u8,
    pub sampling_interval: u16,
}

/// The 24 header bytes.
pub open spec fn v5_header_bytes(h: V5HeaderValues) -> Seq<u8> {
    be16(5) + be16(h.count) + be32(h.sys_up_time) + be32(h.unix_secs) + be32(h.unix_nsecs) + be32(
        h.flow_sequence,
    ) + seq![h.engine_type, h.engine_id] + be16(h.sampling_interval)
}

/// The 48 bytes of one record: a zero byte stands before the TCP flags and two at the end.
pub open spec fn v5_record_bytes(f: V5FlowSet) -> Seq<u8> {
    f.src_addr@ + f.dst_addr@ + f.next_hop@ + be16(f.input) + be16(f.output) + be32(f.d_pkts)
        + be32(f.d_octets) + be32(f.first) + be32(f.last) + be16(f.src_port) + be16(f.dst_port)
        + seq![0u8, f.tcp_flags, f.protocol, f.tos] + be16(f.src_as) + be16(f.dst_as) + seq![
        f.src_mask,
        f.dst_mask,
    ] + be16(0)
}

/// The records one after another.
pub open spec fn v5_records_bytes(flowsets: Seq<V5FlowSet>) -> Seq<u8>
    decreases flowsets.len(),
{
    if flowsets.len() == 0 {
        Seq::empty()
    } else {
        v5_records_bytes(flowsets.drop_last()) + v5_record_bytes(flowsets.last())
    }
}

/// `n` records take `48 * n` bytes.
pub proof fn lemma_v5_records_len(flowsets: Seq<V5FlowSet>)
    ensures
        v5_records_bytes(flowsets).len() == 48 * flowsets.len(),
    decreases flowsets.len(),
{
    if flowsets.len() > 0 {
        lemma_v5_records_len(flowsets.drop_last());
    }
}

/// Serialises a header and its records with `V5::to_be_bytes` of `netflow_parser`.
///
/// That function writes the header fields in declaration order, each big-endian, and
/// then for every record its fields in declaration order, with `pad1` before the TCP
/// flags and `pad2` last; both pads are passed as zero here. The derived
/// `protocol_type` is not written.
#[verifier::external_body]
fn v5_to_be_bytes(h: V5HeaderValues, flowsets: &Vec<V5FlowSet>) -> (out: Vec<u8>)
    ensures
        out@ == v5_header_bytes(h) + v5_records_bytes(flowsets@),
{
    let V5HeaderValues { count, sys_up_time, unix_secs, unix_nsecs, flow_sequence, engine_type,
        engine_id, sampling_interval } = h;
    let header = Header { version: 5, count, sys_up_time, unix_secs, unix_nsecs, flow_sequence,
        engine_type, engine_id, sampling_interval };
    let flowsets = flowsets.iter().map(|&V5FlowSet { src_addr, dst_addr, next_hop, input, output,
        d_pkts, d_octets, first, last, src_port, dst_port, tcp_flags, protocol, tos, src_as,
        dst_as, src_mask, dst_mask }| {
        FlowSet { src_addr: src_addr.into(), dst_addr: dst_addr.into(), next_hop: next_hop.into(),
            input, output, d_pkts, d_octets, first, last, src_port, dst_port, pad1: 0, tcp_flags,
            protocol_number: protocol, protocol_type: protocol.into(), tos, src_as, dst_as,
            src_mask, dst_mask, pad2: 0 }
    }).collect();
    V5 { header, flowsets }.to_be_bytes()
}

/// A v5 entry can be built from sequence number `sequence` when it has between 1 and
/// 65535 records and counting them does not carry the sequence past 32 bits.
pub open spec fn v5_buildable(config: V5Config, sequence: u32) -> bool {
    &&& 0 < config.flowsets.len() <= 0xffff
    &&& sequence + config.flowsets.len() <= u32::MAX
}

/// The header of the packet built for `config`: the record count, the sequence number
/// handed in, and for every other field the override or else its default. The default
/// timestamp is `now_secs`, held to 32 bits.
pub open spec fn v5_header_values(config: V5Config, sequence: u32, now_secs: u64) -> V5HeaderValues {
    let h = config.header;
    V5HeaderValues {
        count: config.flowsets.len() as u16,
        sys_up_time: if h is Some && h->0.sys_up_time is Some {
            h->0.sys_up_time->0
        } else {
            360000
        },
        unix_secs: if h is Some && h->0.unix_secs is Some {
            h->0.unix_secs->0
        } else {
            saturated_secs(now_secs)
        },
        unix_nsecs: if h is Some && h->0.unix_nsecs is Some {
            h->0.unix_nsecs->0
        } else {
            0
        },
        flow_sequence: sequence,
        engine_type: if h is Some && h->0.engine_type is Some {
            h->0.engine_type->0
        } else {
            0
        },
        engine_id: if h is Some && h->0.engine_id is Some {
            h->0.engine_id->0
        } else {
            0
        },
        sampling_interval: if h is Some && h->0.sampling_interval is Some {
            h->0.sampling_interval->0
        } else {
            0
        },
    }
}

/// The packet built for `config`: header, then records.
pub open spec fn v5_packet(config: V5Config, sequence: u32, now_secs: u64) -> Seq<u8> {
    v5_header_bytes(v5_header_values(config, sequence, now_secs)) + v5_records_bytes(
        config.flowsets@,
    )
}

/// A v5 packet starts with the version and the record count, and is 24 bytes of header
/// plus 48 bytes for each record long.
pub proof fn lemma_v5_packet_shape(config: V5Config, sequence: u32, now_secs: u64)
    ensures
        v5_packet(config, sequence, now_secs).len() == 24 + 48 * config.flowsets.len(),
        v5_packet(config, sequence, now_secs).subrange(0, 2) == be16(5),
        v5_packet(config, sequence, now_secs).subrange(2, 4) == be16(config.flowsets.len() as u16),
{
    lemma_v5_records_len(config.flowsets@);
    let p = v5_packet(config, sequence, now_secs);
    assert(p.subrange(0, 2) =~= be16(5));
    assert(p.subrange(2, 4) =~= be16(config.flowsets.len() as u16));
}

/// Fills in the header of the packet for `config`.
fn build_header(config: &V5Config, sequence: u32, now_secs: u64) -> (h: V5HeaderValues)
    requires
        config.flowsets.len() <= 0xffff,
    ensures
        h == v5_header_values(*config, sequence, now_secs),
{
    let count = config.flowsets.len() as u16;
    let mut sys_up_time: u32 = 360000;
    let mut unix_secs: u32 = saturate_secs(now_secs);
    let mut unix_nsecs: u32 = 0;
    let mut engine_type: u8 = 0;
    let mut engine_id: u8 = 0;
    let mut sampling_interval: u16 = 0;
    if let Some(h) = config.header {
        if let Some(v) = h.sys_up_time {
            sys_up_time = v;
        }
        if let Some(v) = h.unix_secs {
            unix_secs = v;
        }
        if let Some(v) = h.unix_nsecs {
            unix_nsecs = v;
        }
        if let Some(v) = h.engine_type {
            engine_type = v;
        }
        if let Some(v) = h.engine_id {
            engine_id = v;
        }
        if let Some(v) = h.sampling_interval {
            sampling_interval = v;
        }
    }
    V5HeaderValues {
        count,
        sys_up_time,
        unix_secs,
        unix_nsecs,
        flow_sequence: sequence,
        engine_type,
        engine_id,
        sampling_interval,
    }
}

/// Builds the one packet of a v5 entry at a given clock reading.
///
/// `sequence` is the number of flows the exporter has sent before; the second
/// component of the result is that number after this packet.
pub fn build_v5_packet_at(config: &V5Config, sequence: u32, now_secs: u64) -> (res: Result<
    (Vec<u8>, u32),
    NetflowError,
>)
    ensures
        res is Ok <==> v5_buildable(*config, sequence),
        res matches Ok((bytes, next)) ==> {
            &&& bytes@ == v5_packet(*config, sequence, now_secs)
            &&& next == sequence + config.flowsets.len()
            &&& bytes@.len() == 24 + 48 * config.flowsets.len()
            &&& bytes@.subrange(0, 2) == be16(5)
            &&& bytes@.subrange(2, 4) == be16(config.flowsets.len() as u16)
        },
        res matches Err(e) ==> e is Generation,
{
    let n = config.flowsets.len();
    if n == 0 {
        return Err(
            NetflowError::generation("V5 configuration must contain at least one flowset"),
        );
    }
    if n > 0xffff {
        return Err(NetflowError::generation("Too many flowsets (max 65535)"));
    }
    let next = match sequence.checked_add(n as u32) {
        Some(next) => next,
        None => {
            return Err(NetflowError::generation("Flow sequence overflow"));
        },
    };
    let header = build_header(config, sequence, now_secs);
    let bytes = v5_to_be_bytes(header, &config.flowsets);
    proof {
        lemma_v5_packet_shape(*config, sequence, now_secs);
    }
    Ok((bytes, next))
}

/// Builds the one packet of a v5 entry, stamped with the current time where the header
/// names none.
///
/// Fails when the system clock cannot be read, and otherwise exactly when
/// [`build_v5_packet_at`] does; a packet that comes out is the one that function builds
/// for some clock reading.
pub fn build_v5_packet(config: &V5Config, sequence: u32) -> (res: Result<
    (Vec<u8>, u32),
    NetflowError,
>)
    ensures
        res is Ok ==> v5_buildable(*config, sequence),
        res matches Ok((bytes, next)) ==> {
            &&& exists|now_secs: u64| bytes@ == v5_packet(*config, sequence, now_secs)
            &&& next == sequence + config.flowsets.len()
            &&& bytes@.len() == 24 + 48 * config.flowsets.len()
            &&& bytes@.subrange(0, 2) == be16(5)
            &&& bytes@.subrange(2, 4) == be16(config.flowsets.len() as u16)
        },
        res matches Err(e) ==> e is Generation,
{
    match unix_time_secs() {
        Some(now_secs) => build_v5_packet_at(config, sequence, now_secs),
        None => Err(NetflowError::generation("Failed to get system time")),
    }
}

/// Record `i` stands at offset `48 * i` among the records.
pub proof fn lemma_v5_record_slice(flowsets: Seq<V5FlowSet>, i: int)
    requires
        0 <= i < flowsets.len(),
    ensures
        v5_records_bytes(flowsets).subrange(48 * i, 48 * i + 48) == v5_record_bytes(flowsets[i]),
    decreases flowsets.len(),
{
    let front = flowsets.drop_last();
    let all = v5_records_bytes(flowsets);
    lemma_v5_records_len(front);
    lemma_v5_records_len(flowsets);
    if i < flowsets.len() - 1 {
        lemma_v5_record_slice(front, i);
        assert(all.subrange(48 * i, 48 * i + 48) =~= v5_records_bytes(front).subrange(
            48 * i,
            48 * i + 48,
        ));
    } else {
        assert(all.subrange(48 * i, 48 * i + 48) =~= v5_record_bytes(flowsets.last()));
    }
}

/// In a packet, record `i` stands at offset `24 + 48 * i`, and its first four bytes are
/// the source address.
pub proof fn lemma_v5_packet_record(config: V5Config, sequence: u32, now_secs: u64, i: int)
    requires
        0 <= i < config.flowsets.len(),
    ensures
        v5_packet(config, sequence, now_secs).subrange(24 + 48 * i, 24 + 48 * i + 48) == v5_record_bytes(
            config.flowsets@[i],
        ),
        v5_packet(config, sequence, now_secs).subrange(24 + 48 * i, 24 + 48 * i + 4)
            == config.flowsets@[i].src_addr@,
{
    let p = v5_packet(config, sequence, now_secs);
    let records = v5_records_bytes(config.flowsets@);
    lemma_v5_records_len(config.flowsets@);
    lemma_v5_record_slice(config.flowsets@, i);
    let record = v5_record_bytes(config.flowsets@[i]);
    assert(p.subrange(24 + 48 * i, 24 + 48 * i + 48) =~= records.subrange(48 * i, 48 * i + 48));
    assert(p.subrange(24 + 48 * i, 24 + 48 * i + 4) =~= record.subrange(0, 4));
    assert(record.subrange(0, 4) =~= config.flowsets@[i].src_addr@);
}

} // verus!

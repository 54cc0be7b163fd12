//! Checks a generated template packet by handing it to an independent decoder.

use crate::error::NetflowError;
use vstd::prelude::*;

verus! {

/// The protocol version of a decoded packet.
#[derive(Debug, Clone, Copy, PartialEq, Eq, Structural)]
pub enum PacketKind {
    V5,
    V7,
    V9,
    IPFix,
}

/// What a decoder made of a buffer: the versions of the packets it decoded, in order,
/// and whether it stopped on an error.
#[derive(Debug, Clone)]
pub struct ParseOutcome {
    pub kinds: Vec<PacketKind>,
    pub failed: bool,
}

/// What a fresh `netflow_parser::NetflowParser` makes of a buffer with `parse_bytes`:
/// the versions of the packets it returns, in order, and whether it reports an error.
///
/// This depends on the bytes alone: a parser made by `default()` starts without
/// templates, keeps no template lifetime, has no hooks, and reads neither the clock nor
/// the environment while it decodes.
pub uninterp spec fn decoded_packets(bytes: Seq<u8>) -> (Seq<PacketKind>, bool);

/// Decodes a buffer with a fresh `netflow_parser::NetflowParser` (`parse_bytes`) and
/// reports, for each packet the decoder returned, which version it is, and whether the
/// decoder reported an error.
///
/// What the decoder makes of the bytes is not stated here, only named: the outcome is
/// `decoded_packets` of the buffer.
#[verifier::external_body]
fn parse_packet_kinds(bytes: &[u8]) -> (outcome: ParseOutcome)
    ensures
        outcome.kinds@ == decoded_packets(bytes@).0,
        outcome.failed == decoded_packets(bytes@).1,
{
    let result = netflow_parser::NetflowParser::default().parse_bytes(bytes);
    let kinds = result.packets.iter().map(|p| match p {
        netflow_parser::NetflowPacket::V5(_) => PacketKind::V5,
        netflow_parser::NetflowPacket::V7(_) => PacketKind::V7,
        netflow_parser::NetflowPacket::V9(_) => PacketKind::V9,
        netflow_parser::NetflowPacket::IPFix(_) => PacketKind::IPFix,
    }).collect();
    ParseOutcome { kinds, failed: result.error.is_some() }
}

/// Whether what a decoder returned is what it returns for a well-formed buffer of one
/// version: no error, at least one packet, and every packet of that version.
pub open spec fn decoded_is(decoded: (Seq<PacketKind>, bool), expected: PacketKind) -> bool {
    &&& !decoded.1
    &&& decoded.0.len() > 0
    &&& forall|i: int| 0 <= i < decoded.0.len() ==> decoded.0[i] == expected
}

/// Whether a decoder's outcome is that of a well-formed buffer of one version.
pub open spec fn outcome_is(outcome: ParseOutcome, expected: PacketKind) -> bool {
    decoded_is((outcome.kinds@, outcome.failed), expected)
}

/// Accepts a decoder's outcome when it is that of a well-formed buffer of the expected
/// version.
pub fn check_outcome(outcome: &ParseOutcome, expected: PacketKind) -> (res: Result<
    (),
    NetflowError,
>)
    ensures
        res is Ok <==> outcome_is(*outcome, expected),
        res matches Err(e) ==> e is Validation,
{
    if outcome.failed {
        return Err(NetflowError::validation("Invalid template packet"));
    }
    if outcome.kinds.len() == 0 {
        return Err(NetflowError::validation("No packets found in template packet"));
    }
    let mut i: usize = 0;
    while i < outcome.kinds.len()
        invariant
            i <= outcome.kinds.len(),
            forall|j: int| 0 <= j < i ==> outcome.kinds@[j] == expected,
        decreases outcome.kinds.len() - i,
    {
        if outcome.kinds[i] != expected {
            return Err(NetflowError::validation("Packet of a different NetFlow version"));
        }
        i = i + 1;
    }
    Ok(())
}

/// Checks that a generated v9 template packet decodes as v9 without error: the decoder
/// must return at least one packet, only v9 packets, and no error.
pub fn validate_v9_template(template_packet: &[u8]) -> (res: Result<(), NetflowError>)
    ensures
        res is Ok <==> decoded_is(decoded_packets(template_packet@), PacketKind::V9),
        res matches Err(e) ==> e is Validation,
{
    let outcome = parse_packet_kinds(template_packet);
    check_outcome(&outcome, PacketKind::V9)
}

/// Checks that a generated IPFIX template packet decodes as IPFIX without error: the
/// decoder must return at least one packet, only IPFIX packets, and no error.
pub fn validate_ipfix_template(template_packet: &[u8]) -> (res: Result<(), NetflowError>)
    ensures
        res is Ok <==> decoded_is(decoded_packets(template_packet@), PacketKind::IPFix),
        res matches Err(e) ==> e is Validation,
{
    let outcome = parse_packet_kinds(template_packet);
    check_outcome(&outcome, PacketKind::IPFix)
}

} // verus!

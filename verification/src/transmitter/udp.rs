//! The synthetic Ethernet/IPv4/UDP frame around a NetFlow buffer, the IPv4 header
//! checksum, and the record header of a capture file.

use crate::error::NetflowError;
use crate::wire::{be16, be32, buffers, push_be16, push_be32, push_bytes, read_be16};
use vstd::prelude::*;

verus! {

/// Where a frame is addressed to.
#[derive(Debug, Clone, Copy)]
pub enum SocketDestination {
    V4 { ip: [u8; 4], port: u16 },
    V6 { ip6: [u8; 16], port: u16 },
}

/// The source address written into every frame: 10.0.0.1.
pub open spec fn frame_source_ip() -> Seq<u8> {
    seq![10u8, 0u8, 0u8, 1u8]
}

/// The UDP source port written into every frame.
pub const FRAME_SOURCE_PORT: u16 = 12345;

/// The sum of the 16-bit big-endian words of `data`; an odd last byte counts as the
/// high byte of a word.
pub open spec fn words_sum(data: Seq<u8>) -> nat
    decreases data.len(),
{
    if data.len() == 0 {
        0
    } else if data.len() == 1 {
        data[0] as nat * 0x100
    } else {
        data[0] as nat * 0x100 + data[1] as nat + words_sum(data.skip(2))
    }
}

/// A sum folded to 16 bits: the carries above bit 16 are added back in until none is
/// left.
pub open spec fn fold16(sum: nat) -> nat
    decreases sum,
{
    if sum < 0x1_0000 {
        sum
    } else {
        fold16(sum % 0x1_0000 + sum / 0x1_0000)
    }
}

/// The one's-complement checksum of `data`: the complement of the folded word sum.
pub open spec fn internet_checksum(data: Seq<u8>) -> u16 {
    (0xffff - fold16(words_sum(data))) as u16
}

/// Folding keeps a sum within 16 bits, keeps a positive sum positive, and changes it by
/// a multiple of `0xffff` only.
pub proof fn lemma_fold16(sum: nat)
    ensures
        fold16(sum) <= 0xffff,
        sum > 0 ==> fold16(sum) > 0,
        (sum - fold16(sum)) % 0xffff == 0,
    decreases sum,
{
    if sum >= 0x1_0000 {
        let next = sum % 0x1_0000 + sum / 0x1_0000;
        lemma_fold16(next);
        let q = sum / 0x1_0000;
        assert(sum - next == q * 0xffff);
        let d = next - fold16(next);
        assert((q * 0xffff + d) % 0xffff == 0) by (nonlinear_arith)
            requires
                d % 0xffff == 0,
        ;
    }
}

/// The word sum of two pieces is the sum of their word sums when the first piece ends
/// on a word boundary.
pub proof fn lemma_words_sum_concat(a: Seq<u8>, b: Seq<u8>)
    requires
        a.len() % 2 == 0,
    ensures
        words_sum(a + b) == words_sum(a) + words_sum(b),
    decreases a.len(),
{
    if a.len() == 0 {
        assert(a + b =~= b);
    } else {
        assert((a + b).skip(2) =~= a.skip(2) + b);
        lemma_words_sum_concat(a.skip(2), b);
    }
}

/// The word sum of one word.
pub proof fn lemma_words_sum_pair(hi: u8, lo: u8)
    ensures
        words_sum(seq![hi, lo]) == hi as nat * 0x100 + lo as nat,
{
    let pair = seq![hi, lo];
    assert(pair.skip(2) =~= Seq::<u8>::empty());
    assert(words_sum(pair.skip(2)) == 0);
}

/// Computes the one's-complement checksum of `data`.
///
/// Fails when the word sum does not fit 32 bits.
pub fn calculate_checksum(data: &Vec<u8>) -> (res: Result<u16, NetflowError>)
    ensures
        res is Ok <==> words_sum(data@) <= u32::MAX,
        res matches Ok(checksum) ==> checksum == internet_checksum(data@),
        res matches Err(e) ==> e is InvalidPacket,
{
    let mut sum: u32 = 0;
    let mut i: usize = 0;
    let pairs = data.len() / 2;
    assert(data@.take(0) =~= Seq::<u8>::empty());
    while i < pairs
        invariant
            i <= pairs,
            pairs == data.len() / 2,
            sum == words_sum(data@.take(2 * i)),
        decreases pairs - i,
    {
        let word: u32 = data[2 * i] as u32 * 0x100 + data[2 * i + 1] as u32;
        proof {
            let head = data@.take(2 * i);
            let pair = seq![data@[2 * i], data@[2 * i + 1]];
            assert(data@.take(2 * i + 2) =~= head + pair);
            lemma_words_sum_concat(head, pair);
            lemma_words_sum_pair(data@[2 * i], data@[2 * i + 1]);
            assert(data@ =~= data@.take(2 * i + 2) + data@.skip(2 * i + 2));
            lemma_words_sum_concat(data@.take(2 * i + 2), data@.skip(2 * i + 2));
        }
        sum = match sum.checked_add(word) {
            Some(s) => s,
            None => {
                return Err(NetflowError::invalid_packet("Checksum calculation overflow"));
            },
        };
        i = i + 1;
    }
    if data.len() % 2 == 1 {
        let word: u32 = data[data.len() - 1] as u32 * 0x100;
        proof {
            let head = data@.take(2 * pairs);
            let last = seq![data@[data.len() - 1]];
            assert(data@ =~= head + last);
            lemma_words_sum_concat(head, last);
        }
        sum = match sum.checked_add(word) {
            Some(s) => s,
            None => {
                return Err(NetflowError::invalid_packet("Checksum calculation overflow"));
            },
        };
    } else {
        assert(data@.take(2 * pairs) =~= data@);
    }
    let ghost total = sum as nat;
    while sum / 0x1_0000 != 0
        invariant
            fold16(sum as nat) == fold16(total),
        decreases sum,
    {
        sum = sum % 0x1_0000 + sum / 0x1_0000;
    }
    Ok((0xffff - sum) as u16)
}

/// Every byte adds less than `0x1_0000` to the word sum.
pub proof fn lemma_words_sum_bound(data: Seq<u8>)
    ensures
        words_sum(data) <= 0x1_0000 * data.len(),
    decreases data.len(),
{
    if data.len() >= 2 {
        lemma_words_sum_bound(data.skip(2));
    }
}

/// The 14 bytes of the Ethernet header: destination 00:00:00:00:00:02, source
/// 00:00:00:00:00:01, EtherType IPv4.
pub open spec fn ethernet_header() -> Seq<u8> {
    seq![0u8, 0u8, 0u8, 0u8, 0u8, 2u8, 0u8, 0u8, 0u8, 0u8, 0u8, 1u8, 8u8, 0u8]
}

/// The 20 bytes of the IPv4 header: version 4 with five header words, no service bits,
/// the total length, identification 0, the don't-fragment flag, a time to live of 64,
/// protocol UDP, the checksum, and the two addresses.
pub open spec fn ipv4_header(total_length: u16, checksum: u16, src: Seq<u8>, dst: Seq<u8>) -> Seq<
    u8,
> {
    seq![0x45u8, 0u8] + be16(total_length) + seq![0u8, 0u8, 0x40u8, 0u8, 64u8, 17u8] + be16(
        checksum,
    ) + src + dst
}

/// The 8 bytes of the UDP header; the checksum is left zero.
pub open spec fn udp_header(src_port: u16, dst_port: u16, length: u16) -> Seq<u8> {
    be16(src_port) + be16(dst_port) + be16(length) + seq![0u8, 0u8]
}

/// Whether a payload of `payload_len` bytes fits the 16-bit length fields of a frame.
pub open spec fn frame_fits(payload_len: nat) -> bool {
    28 + payload_len <= 0xffff
}

/// The checksum of the IPv4 header of a frame: that of the header with a zero
/// checksum field.
pub open spec fn frame_checksum(total_length: u16, src: Seq<u8>, dst: Seq<u8>) -> u16 {
    internet_checksum(ipv4_header(total_length, 0, src, dst))
}

/// The frame around a payload: Ethernet, IPv4 and UDP headers, then the payload.
pub open spec fn udp_frame(
    src_ip: Seq<u8>,
    src_port: u16,
    dst_ip: Seq<u8>,
    dst_port: u16,
    payload: Seq<u8>,
) -> Seq<u8> {
    let total_length = (28 + payload.len()) as u16;
    ethernet_header() + ipv4_header(
        total_length,
        frame_checksum(total_length, src_ip, dst_ip),
        src_ip,
        dst_ip,
    ) + udp_header(src_port, dst_port, (8 + payload.len()) as u16) + payload
}

/// The IPv4 header of a frame validates: summed as 16-bit big-endian words, checksum
/// included, and folded, it gives `0xffff`.
pub proof fn lemma_ipv4_header_checksum(total_length: u16, src: Seq<u8>, dst: Seq<u8>)
    requires
        src.len() == 4,
        dst.len() == 4,
    ensures
        fold16(
            words_sum(
                ipv4_header(total_length, frame_checksum(total_length, src, dst), src, dst),
            ),
        ) == 0xffff,
{
    let first = seq![0x45u8, 0u8];
    let mid = be16(total_length) + seq![0u8, 0u8, 0x40u8, 0u8, 64u8, 17u8];
    let tail = src + dst;
    let zeroed = ipv4_header(total_length, 0, src, dst);
    let checksum = frame_checksum(total_length, src, dst);
    let stamped = ipv4_header(total_length, checksum, src, dst);
    assert(zeroed =~= first + (mid + (be16(0) + tail)));
    assert(stamped =~= first + (mid + (be16(checksum) + tail)));
    lemma_words_sum_concat(first, mid + (be16(0) + tail));
    lemma_words_sum_concat(mid, be16(0) + tail);
    lemma_words_sum_concat(be16(0), tail);
    lemma_words_sum_concat(first, mid + (be16(checksum) + tail));
    lemma_words_sum_concat(mid, be16(checksum) + tail);
    lemma_words_sum_concat(be16(checksum), tail);
    lemma_words_sum_pair(0x45u8, 0u8);
    lemma_words_sum_pair((0u16 / 0x100) as u8, (0u16 % 0x100) as u8);
    lemma_words_sum_pair((checksum / 0x100) as u8, (checksum % 0x100) as u8);
    assert(be16(0) =~= seq![(0u16 / 0x100) as u8, (0u16 % 0x100) as u8]);
    assert(be16(checksum) =~= seq![(checksum / 0x100) as u8, (checksum % 0x100) as u8]);
    let base = words_sum(zeroed);
    assert(words_sum(be16(checksum)) == checksum);
    assert(words_sum(stamped) == base + checksum);
    assert(base >= 0x4500);
    lemma_fold16(base);
    let folded = fold16(base);
    assert(checksum == 0xffff - folded);
    let total = words_sum(stamped);
    lemma_fold16(total);
    let d = base - folded;
    assert((d + 0xffff) % 0xffff == 0) by (nonlinear_arith)
        requires
            d % 0xffff == 0,
    ;
    let r = fold16(total);
    assert(r % 0xffff == 0) by (nonlinear_arith)
        requires
            total % 0xffff == 0,
            (total - r) % 0xffff == 0,
    ;
}

/// What a frame holds where: the Ethernet header with EtherType IPv4, the IPv4 header
/// with protocol UDP, the destination address and a checksum that validates, the UDP
/// header with the destination port and its length, and the payload.
pub proof fn lemma_frame_layout(
    src_ip: Seq<u8>,
    src_port: u16,
    dst_ip: Seq<u8>,
    dst_port: u16,
    payload: Seq<u8>,
)
    requires
        src_ip.len() == 4,
        dst_ip.len() == 4,
        frame_fits(payload.len()),
    ensures
        ({
            let frame = udp_frame(src_ip, src_port, dst_ip, dst_port, payload);
            &&& frame.len() == 42 + payload.len()
            &&& frame.subrange(0, 14) == ethernet_header()
            &&& read_be16(frame, 12) == 0x0800
            &&& fold16(words_sum(frame.subrange(14, 34))) == 0xffff
            &&& read_be16(frame, 16) == 28 + payload.len()
            &&& frame[23] == 17
            &&& frame.subrange(26, 30) == src_ip
            &&& frame.subrange(30, 34) == dst_ip
            &&& read_be16(frame, 34) == src_port
            &&& read_be16(frame, 36) == dst_port
            &&& read_be16(frame, 38) == 8 + payload.len()
            &&& frame.subrange(42, frame.len() as int) == payload
        }),
{
    let total_length = (28 + payload.len()) as u16;
    let udp_length = (8 + payload.len()) as u16;
    let checksum = frame_checksum(total_length, src_ip, dst_ip);
    let ip = ipv4_header(total_length, checksum, src_ip, dst_ip);
    let udp = udp_header(src_port, dst_port, udp_length);
    let frame = udp_frame(src_ip, src_port, dst_ip, dst_port, payload);
    assert(frame =~= ethernet_header() + ip + udp + payload);
    assert(ip.len() == 20);
    assert(frame.subrange(0, 14) =~= ethernet_header());
    assert(frame.subrange(14, 34) =~= ip);
    lemma_ipv4_header_checksum(total_length, src_ip, dst_ip);
    assert(frame.subrange(26, 30) =~= src_ip);
    assert(frame.subrange(30, 34) =~= dst_ip);
    assert(frame.subrange(42, frame.len() as int) =~= payload);
    assert(frame[12] == 8 && frame[13] == 0);
    assert(frame[16] == ip[2] && frame[17] == ip[3]);
    assert(ip[2] == be16(total_length)[0] && ip[3] == be16(total_length)[1]);
    assert(frame[23] == ip[9]);
    assert(frame[34] == udp[0] && frame[35] == udp[1] && frame[36] == udp[2] && frame[37]
        == udp[3] && frame[38] == udp[4] && frame[39] == udp[5]);
    assert(udp[0] == be16(src_port)[0] && udp[1] == be16(src_port)[1]);
    assert(udp[2] == be16(dst_port)[0] && udp[3] == be16(dst_port)[1]);
    assert(udp[4] == be16(udp_length)[0] && udp[5] == be16(udp_length)[1]);
}

/// Appends the 20 bytes of the IPv4 header.
fn push_ipv4_header(out: &mut Vec<u8>, total_length: u16, checksum: u16, src: &[u8; 4], dst: &[u8; 4])
    ensures
        final(out)@ == old(out)@ + ipv4_header(total_length, checksum, src@, dst@),
{
    out.push(0x45);
    out.push(0);
    push_be16(out, total_length);
    out.push(0);
    out.push(0);
    out.push(0x40);
    out.push(0);
    out.push(64);
    out.push(17);
    push_be16(out, checksum);
    out.push(src[0]);
    out.push(src[1]);
    out.push(src[2]);
    out.push(src[3]);
    out.push(dst[0]);
    out.push(dst[1]);
    out.push(dst[2]);
    out.push(dst[3]);
    assert(out@ =~= old(out)@ + ipv4_header(total_length, checksum, src@, dst@));
}

/// Builds the Ethernet/IPv4/UDP frame around a payload.
///
/// Fails for an IPv6 destination, and for a payload too long for the 16-bit length
/// fields.
pub fn build_udp_packet(
    src_ip: [u8; 4],
    src_port: u16,
    dest: &SocketDestination,
    payload: &Vec<u8>,
) -> (res: Result<Vec<u8>, NetflowError>)
    ensures
        res is Ok <==> dest is V4 && frame_fits(payload@.len()),
        res matches Ok(frame) ==> frame@ == udp_frame(
            src_ip@,
            src_port,
            dest->V4_ip@,
            dest->V4_port,
            payload@,
        ),
        res matches Err(e) ==> if dest is V6 {
            e is InvalidDestination
        } else {
            e is InvalidPacket
        },
{
    let (dest_ip, dest_port) = match dest {
        SocketDestination::V4 { ip, port } => (*ip, *port),
        SocketDestination::V6 { .. } => {
            return Err(NetflowError::invalid_destination("IPv6 not supported for pcap export"));
        },
    };
    if payload.len() > 0xffff - 28 {
        return Err(NetflowError::invalid_packet("IP total length exceeds u16::MAX"));
    }
    let total_length = (28 + payload.len()) as u16;
    let udp_length = (8 + payload.len()) as u16;
    let mut header: Vec<u8> = Vec::new();
    push_ipv4_header(&mut header, total_length, 0, &src_ip, &dest_ip);
    proof {
        lemma_words_sum_bound(header@);
        assert(header@ =~= ipv4_header(total_length, 0, src_ip@, dest_ip@));
    }
    let checksum = calculate_checksum(&header)?;
    let mut packet: Vec<u8> = Vec::new();
    packet.push(0);
    packet.push(0);
    packet.push(0);
    packet.push(0);
    packet.push(0);
    packet.push(2);
    packet.push(0);
    packet.push(0);
    packet.push(0);
    packet.push(0);
    packet.push(0);
    packet.push(1);
    packet.push(8);
    packet.push(0);
    assert(packet@ =~= ethernet_header());
    push_ipv4_header(&mut packet, total_length, checksum, &src_ip, &dest_ip);
    push_be16(&mut packet, src_port);
    push_be16(&mut packet, dest_port);
    push_be16(&mut packet, udp_length);
    packet.push(0);
    packet.push(0);
    push_bytes(&mut packet, payload);
    assert(packet@ =~= udp_frame(src_ip@, src_port, dest_ip@, dest_port, payload@));
    Ok(packet)
}

/// The frames around the given buffers, each from 10.0.0.1 port 12345 to the
/// destination.
pub open spec fn capture_frames(packets: Seq<Seq<u8>>, dst_ip: Seq<u8>, dst_port: u16) -> Seq<
    Seq<u8>,
> {
    Seq::new(
        packets.len(),
        |i: int| udp_frame(frame_source_ip(), FRAME_SOURCE_PORT, dst_ip, dst_port, packets[i]),
    )
}

/// Frames every buffer for the capture file, from 10.0.0.1 port 12345 to the
/// destination.
///
/// Fails for an IPv6 destination if there is any buffer, and for any buffer too long
/// for a frame.
pub fn frame_packets(packets: &Vec<Vec<u8>>, dest: &SocketDestination) -> (res: Result<
    Vec<Vec<u8>>,
    NetflowError,
>)
    ensures
        res is Ok <==> (packets.len() > 0 ==> dest is V4) && forall|i: int|
            0 <= i < packets.len() ==> frame_fits(#[trigger] packets@[i]@.len()),
        res matches Ok(frames) ==> buffers(frames@) == capture_frames(
            buffers(packets@),
            dest->V4_ip@,
            dest->V4_port,
        ),
        res matches Err(e) ==> e is InvalidDestination || e is InvalidPacket,
{
    let src_ip: [u8; 4] = [10, 0, 0, 1];
    assert(src_ip@ =~= frame_source_ip());
    let mut frames: Vec<Vec<u8>> = Vec::new();
    let mut i: usize = 0;
    while i < packets.len()
        invariant
            i <= packets.len(),
            src_ip@ == frame_source_ip(),
            frames@.len() == i,
            i > 0 ==> dest is V4,
            forall|j: int| 0 <= j < i ==> frame_fits(#[trigger] packets@[j]@.len()),
            forall|j: int|
                0 <= j < i ==> (#[trigger] frames@[j])@ == udp_frame(
                    frame_source_ip(),
                    FRAME_SOURCE_PORT,
                    dest->V4_ip@,
                    dest->V4_port,
                    packets@[j]@,
                ),
        decreases packets.len() - i,
    {
        let frame = build_udp_packet(src_ip, FRAME_SOURCE_PORT, dest, &packets[i])?;
        frames.push(frame);
        i = i + 1;
    }
    assert(buffers(frames@) =~= capture_frames(buffers(packets@), dest->V4_ip@, dest->V4_port));
    Ok(frames)
}

/// One record of a capture file: the timestamp in seconds and microseconds, the
/// captured and the original length, then the frame. The numbers are big-endian, as
/// the file header of the capture writer announces.
pub open spec fn capture_record(ts_sec: u32, ts_usec: u32, frame: Seq<u8>) -> Seq<u8> {
    be32(ts_sec) + be32(ts_usec) + be32(frame.len() as u32) + be32(frame.len() as u32) + frame
}

/// Builds one record of a capture file.
///
/// Fails when the frame is too long for the 32-bit length fields.
pub fn capture_record_bytes(ts_sec: u32, ts_usec: u32, frame: &Vec<u8>) -> (res: Result<
    Vec<u8>,
    NetflowError,
>)
    ensures
        res is Ok <==> frame@.len() <= u32::MAX,
        res matches Ok(record) ==> record@ == capture_record(ts_sec, ts_usec, frame@),
        res matches Err(e) ==> e is InvalidPacket,
{
    if frame.len() > u32::MAX as usize {
        return Err(NetflowError::invalid_packet("Packet size exceeds u32::MAX"));
    }
    let len = frame.len() as u32;
    let mut record: Vec<u8> = Vec::new();
    push_be32(&mut record, ts_sec);
    push_be32(&mut record, ts_usec);
    push_be32(&mut record, len);
    push_be32(&mut record, len);
    push_bytes(&mut record, frame);
    assert(record@ =~= capture_record(ts_sec, ts_usec, frame@));
    Ok(record)
}

} // verus!

//! Retransmission streams (RFC 4588).

use crate::rtp::clone_octets;
use crate::rtp::HeaderView;
use crate::rtp::PacketView;
use crate::rtp::RtpHeader;
use crate::rtp::RtpPacket;
use vstd::prelude::*;

verus! {

/// The stream that retransmissions are sent on.
#[derive(Clone, Copy, PartialEq, Eq, Structural, Debug)]
pub struct RtxSenderConfig {
    pub rtx_ssrc: u32,
    pub rtx_payload_type: u8,
}

/// The packet that retransmits `p`: the stream's own SSRC, payload type and sequence number, and
/// before the payload the original sequence number in network order.
pub open spec fn wrapped(p: PacketView, config: RtxSenderConfig, seq: u16) -> PacketView {
    PacketView {
        header: HeaderView {
            ssrc: config.rtx_ssrc,
            payload_type: config.rtx_payload_type,
            sequence_number: seq,
            ..p.header
        },
        payload: seq![
            (p.header.sequence_number / 256) as u8,
            (p.header.sequence_number % 256) as u8,
        ] + p.payload,
        padding_len: p.padding_len,
    }
}

/// The packet that a retransmission restores, unless it is too short to name one.
pub open spec fn unwrapped(p: PacketView, ssrc: u32, payload_type: u8) -> Option<PacketView> {
    if p.payload.len() < 2 {
        None
    } else {
        Some(
            PacketView {
                header: HeaderView {
                    ssrc,
                    payload_type,
                    sequence_number: (p.payload[0] * 256 + p.payload[1]) as u16,
                    ..p.header
                },
                payload: p.payload.skip(2),
                padding_len: p.padding_len,
            },
        )
    }
}

/// Wraps a packet for retransmission.
pub fn wrap_rtx_packet(packet: &RtpPacket, config: &RtxSenderConfig, rtx_seq: u16) -> (r: RtpPacket)
    ensures
        r@ == wrapped(packet@, *config, rtx_seq),
{
    let mut payload: Vec<u8> = Vec::new();
    payload.push((packet.header.sequence_number / 256) as u8);
    payload.push((packet.header.sequence_number % 256) as u8);
    let ghost head = payload@;
    let mut rest = clone_octets(&packet.payload);
    payload.append(&mut rest);
    let mut header: RtpHeader = packet.header.clone();
    header.ssrc = config.rtx_ssrc;
    header.payload_type = config.rtx_payload_type;
    header.sequence_number = rtx_seq;
    let r = RtpPacket { header, payload, padding_len: packet.padding_len };
    assert(r@.payload =~= wrapped(packet@, *config, rtx_seq).payload);
    r
}

/// Restores the packet that a retransmission carries.
pub fn unwrap_rtx_packet(packet: &RtpPacket, ssrc: u32, payload_type: u8) -> (r: Option<RtpPacket>)
    ensures
        r matches Some(p) ==> unwrapped(packet@, ssrc, payload_type) == Some(p@),
        r is None ==> unwrapped(packet@, ssrc, payload_type) is None,
{
    let n: usize = packet.payload.len();
    if n < 2 {
        return None;
    }
    let seq: u16 = packet.payload[0] as u16 * 256 + packet.payload[1] as u16;
    let mut payload: Vec<u8> = Vec::new();
    let mut i: usize = 2;
    while i < n
        invariant
            n == packet.payload@.len(),
            2 <= i <= n,
            payload@ == packet.payload@.subrange(2, i as int),
        decreases n - i,
    {
        payload.push(packet.payload[i]);
        i += 1;
        assert(packet.payload@.subrange(2, i as int) =~= packet.payload@.subrange(2, i - 1).push(
            packet.payload@[i - 1],
        ));
    }
    assert(payload@ =~= packet.payload@.skip(2));
    let mut header: RtpHeader = packet.header.clone();
    header.ssrc = ssrc;
    header.payload_type = payload_type;
    header.sequence_number = seq;
    Some(RtpPacket { header, payload, padding_len: packet.padding_len })
}

/// Unwrapping a wrapped packet with the original stream's SSRC and payload type restores it.
pub proof fn unwrap_undoes_wrap(p: PacketView, config: RtxSenderConfig, seq: u16)
    ensures
        unwrapped(wrapped(p, config, seq), p.header.ssrc, p.header.payload_type) == Some(p),
{
    let w = wrapped(p, config, seq);
    assert(w.payload.skip(2) =~= p.payload);
    assert(w.payload[0] * 256 + w.payload[1] == p.header.sequence_number);
}

/// A retransmission leaves on its own stream, and carries the number of the original in network
/// order before the payload; its timestamp, marker and extensions are those of the original.
pub proof fn retransmissions_carry_the_original(p: PacketView, config: RtxSenderConfig, seq: u16)
    ensures
        ({
            let w = wrapped(p, config, seq);
            &&& w.header.ssrc == config.rtx_ssrc
            &&& w.header.payload_type == config.rtx_payload_type
            &&& w.header.sequence_number == seq
            &&& w.header.timestamp == p.header.timestamp
            &&& w.header.marker == p.header.marker
            &&& w.header.extensions == p.header.extensions
            &&& w.payload.len() == p.payload.len() + 2
            &&& w.payload[0] as int * 256 + w.payload[1] as int == p.header.sequence_number
            &&& w.payload.skip(2) == p.payload
        }),
{
    assert(wrapped(p, config, seq).payload.skip(2) =~= p.payload);
}

/// What a retransmission restores: the number that its payload begins with, in network order, the
/// rest of the payload, and the stream and the payload type that are given. One that is too short
/// restores nothing.
pub proof fn retransmissions_are_undone(p: PacketView, ssrc: u32, payload_type: u8)
    ensures
        p.payload.len() < 2 ==> unwrapped(p, ssrc, payload_type) is None,
        p.payload.len() >= 2 ==> (unwrapped(p, ssrc, payload_type) matches Some(q)
            && q.header.sequence_number == p.payload[0] as int * 256 + p.payload[1] as int
            && q.payload == p.payload.skip(2) && q.header.ssrc == ssrc && q.header.payload_type
            == payload_type && q.header.timestamp == p.header.timestamp && q.header.marker
            == p.header.marker),
{
}

} // verus!

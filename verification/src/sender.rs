//! The sending side of a media stream.

use crate::codec::default_codec;
use crate::codec::CodecView;
use crate::codec::RtpCodecParameters;
use crate::nack::DefaultRtpSenderNackHandler;
use crate::nack::SenderNackView;
use crate::outside::random_u32;
use crate::rtp::build_sender_report;
use crate::rtp::dedup_report_blocks;
use crate::rtp::distinct_blocks;
use crate::rtp::extension_set;
use crate::rtp::ntp_high;
use crate::rtp::ntp_low;
use crate::rtp::packets;
use crate::rtp::GenericNack;
use crate::rtp::HeaderView;
use crate::rtp::PacketView;
use crate::rtp::ReportBlock;
use crate::rtp::RtcpPacket;
use crate::rtp::RtpHeader;
use crate::rtp::RtpPacket;
use crate::rtp::SenderReport;
use crate::rtx::RtxSenderConfig;
use crate::text::decimal;
use crate::text::decimal_text;
use crate::text::joined;
use crate::text::text_opt;
use vstd::prelude::*;

verus! {

/// One sample of a track, as the track hands it to the sender.
pub struct MediaSample {
    pub rtp_timestamp: u32,
    pub marker: bool,
    pub payload: Vec<u8>,
    /// Set where the application numbers and times its packets itself.
    pub sequence_number: Option<u16>,
}

/// The packet that a sample becomes, numbered by the sender.
pub open spec fn sample_packet(
    sample: MediaSample,
    ssrc: u32,
    payload_type: u8,
    seq: u16,
    timestamp: u32,
) -> PacketView {
    PacketView {
        header: HeaderView {
            marker: sample.marker,
            payload_type,
            sequence_number: seq,
            timestamp,
            ssrc,
            extensions: Seq::empty(),
        },
        payload: sample.payload@,
        padding_len: 0,
    }
}

/// The model of a sender.
#[verifier::ext_equal]
pub struct SenderView {
    pub ssrc: u32,
    pub track_id: Seq<char>,
    pub stream_id: Seq<char>,
    pub cname: Seq<char>,
    pub params: CodecView,
    /// The transport that the sender writes to.
    pub transport: Option<u64>,
    /// Counts the transports; a send loop serves one of them.
    pub generation: u64,
    pub next_seq: u16,
    pub packets_sent: u32,
    pub octets_sent: u32,
    pub last_timestamp: u32,
    /// The extension that carries the mid: its identifier and the mid.
    pub sdes_mid: Option<(u8, Seq<char>)>,
    /// The negotiated direction lets the sender send.
    pub send_enabled: bool,
    /// The handlers that keep sent packets, in the order in which they see them.
    pub nacks: Seq<SenderNackView>,
}

/// The sending side of a media stream.
pub struct RtpSender {
    ssrc: u32,
    track_id: String,
    stream_id: String,
    cname: String,
    params: RtpCodecParameters,
    transport: Option<u64>,
    generation: u64,
    next_sequence_number: u16,
    packets_sent: u32,
    octets_sent: u32,
    last_rtp_timestamp: u32,
    sdes_mid: Option<(u8, String)>,
    send_enabled: bool,
    nacks: Vec<DefaultRtpSenderNackHandler>,
}

/// The model of an optional mid extension.
pub open spec fn mid_opt(m: Option<(u8, String)>) -> Option<(u8, Seq<char>)> {
    match m {
        Some(x) => Some((x.0, x.1@)),
        None => None,
    }
}

/// The model of a list of NACK handlers.
pub open spec fn nack_views(v: Seq<DefaultRtpSenderNackHandler>) -> Seq<SenderNackView> {
    v.map_values(|h: DefaultRtpSenderNackHandler| h@)
}

impl View for RtpSender {
    type V = SenderView;

    closed spec fn view(&self) -> SenderView {
        SenderView {
            ssrc: self.ssrc,
            track_id: self.track_id@,
            stream_id: self.stream_id@,
            cname: self.cname@,
            params: self.params@,
            transport: self.transport,
            generation: self.generation,
            next_seq: self.next_sequence_number,
            packets_sent: self.packets_sent,
            octets_sent: self.octets_sent,
            last_timestamp: self.last_rtp_timestamp,
            sdes_mid: mid_opt(self.sdes_mid),
            send_enabled: self.send_enabled,
            nacks: nack_views(self.nacks@),
        }
    }
}

impl SenderView {
    /// The NACK handlers are in order.
    pub open spec fn wf(self) -> bool {
        forall|i: int| 0 <= i < self.nacks.len() ==> (#[trigger] self.nacks[i]).wf()
    }

    /// The sender with `config` for the retransmissions of its first handler, where it has one.
    pub open spec fn with_rtx(self, config: Option<RtxSenderConfig>) -> SenderView {
        if self.nacks.len() == 0 {
            self
        } else {
            SenderView {
                nacks: self.nacks.update(
                    0,
                    SenderNackView { rtx_config: config, ..self.nacks[0] },
                ),
                ..self
            }
        }
    }
}

/// The name of a stream whose sender was given none.
pub open spec fn default_cname(ssrc: u32) -> Seq<char> {
    "rustrtc-cname-"@ + decimal(ssrc as nat)
}

/// A NACK handler that has kept no packet.
pub open spec fn is_fresh_nack(n: SenderNackView, max_size: usize) -> bool {
    &&& n.wf()
    &&& n.max_size == (if max_size == 0 {
        1
    } else {
        max_size as nat
    })
    &&& n.buffer.order.len() == 0
    &&& n.recent == Map::<u16, u64>::empty()
    &&& n.nack_recv_count == 0
    &&& n.retransmit_suppressed_count == 0
    &&& n.rtx_config is None
    &&& n.rtx_sent_count == 0
}

/// Collects what a sender is made of.
pub struct RtpSenderBuilder {
    track_id: String,
    ssrc: u32,
    stream_id: String,
    params: RtpCodecParameters,
    nacks: Vec<usize>,
    cname: Option<String>,
}

/// The model of what a sender is made of.
pub struct SenderPlan {
    pub track_id: Seq<char>,
    pub ssrc: u32,
    pub stream_id: Seq<char>,
    pub params: CodecView,
    /// How many packets each NACK handler keeps.
    pub nacks: Seq<usize>,
    pub cname: Option<Seq<char>>,
}

impl View for RtpSenderBuilder {
    type V = SenderPlan;

    closed spec fn view(&self) -> SenderPlan {
        SenderPlan {
            track_id: self.track_id@,
            ssrc: self.ssrc,
            stream_id: self.stream_id@,
            params: self.params@,
            nacks: self.nacks@,
            cname: text_opt(self.cname),
        }
    }
}

/// A sender that was just made: it may send, on no transport yet, from any sequence number.
pub open spec fn is_fresh_sender(s: SenderView, p: SenderPlan) -> bool {
    &&& s.wf()
    &&& s.ssrc == p.ssrc
    &&& s.track_id == p.track_id
    &&& s.stream_id == p.stream_id
    &&& s.params == p.params
    &&& s.cname == (match p.cname {
        Some(c) => c,
        None => default_cname(p.ssrc),
    })
    &&& s.transport is None
    &&& s.generation == 0
    &&& s.packets_sent == 0
    &&& s.octets_sent == 0
    &&& s.last_timestamp == 0
    &&& s.sdes_mid is None
    &&& s.send_enabled
    &&& s.nacks.len() == p.nacks.len()
    &&& forall|i: int| 0 <= i < p.nacks.len() ==> is_fresh_nack(#[trigger] s.nacks[i], p.nacks[i])
}

impl RtpSenderBuilder {
    /// A plan for a track: stream `stream`, no codec, no NACK handler.
    pub fn new(track_id: &str, ssrc: u32) -> (r: Self)
        ensures
            r@ == (SenderPlan {
                track_id: track_id@,
                ssrc,
                stream_id: "stream"@,
                params: default_codec(),
                nacks: Seq::empty(),
                cname: None,
            }),
    {
        RtpSenderBuilder {
            track_id: track_id.to_owned(),
            ssrc,
            stream_id: "stream".to_owned(),
            params: RtpCodecParameters::default(),
            nacks: Vec::new(),
            cname: None,
        }
    }

    /// Sets the stream.
    pub fn stream_id(self, id: String) -> (r: Self)
        ensures
            r@ == (SenderPlan { stream_id: id@, ..self@ }),
    {
        let mut s = self;
        s.stream_id = id;
        s
    }

    /// Sets the codec.
    pub fn params(self, params: RtpCodecParameters) -> (r: Self)
        ensures
            r@ == (SenderPlan { params: params@, ..self@ }),
    {
        let mut s = self;
        s.params = params;
        s
    }

    /// Adds a handler that keeps up to `buffer_size` packets for retransmission.
    pub fn nack(self, buffer_size: usize) -> (r: Self)
        ensures
            r@ == (SenderPlan { nacks: self@.nacks.push(buffer_size), ..self@ }),
    {
        let mut s = self;
        s.nacks.push(buffer_size);
        s
    }

    /// Sets the canonical name.
    pub fn cname(self, cname: String) -> (r: Self)
        ensures
            r@ == (SenderPlan { cname: Some(cname@), ..self@ }),
    {
        let mut s = self;
        s.cname = Some(cname);
        s
    }

    /// Makes the sender. Its sequence numbers start at random.
    pub fn build(self) -> (r: RtpSender)
        ensures
            is_fresh_sender(r@, self@),
    {
        let first: u16 = (random_u32() % 0x1_0000) as u16;
        let cname = match &self.cname {
            Some(c) => c.clone(),
            None => joined("rustrtc-cname-", decimal_text(self.ssrc as u64).as_str()),
        };
        let mut nacks: Vec<DefaultRtpSenderNackHandler> = Vec::new();
        let mut i: usize = 0;
        while i < self.nacks.len()
            invariant
                i <= self.nacks@.len(),
                nacks@.len() == i,
                forall|j: int|
                    0 <= j < i ==> is_fresh_nack((#[trigger] nacks@[j])@, self.nacks@[j]),
            decreases self.nacks@.len() - i,
        {
            nacks.push(DefaultRtpSenderNackHandler::new(self.nacks[i]));
            i += 1;
        }
        RtpSender {
            ssrc: self.ssrc,
            track_id: self.track_id,
            stream_id: self.stream_id,
            cname,
            params: self.params,
            transport: None,
            generation: 0,
            next_sequence_number: first,
            packets_sent: 0,
            octets_sent: 0,
            last_rtp_timestamp: 0,
            sdes_mid: None,
            send_enabled: true,
            nacks,
        }
    }
}

/// The state of one send loop. A loop serves one transport; it ends when the sender moves on.
#[derive(Clone, Copy, Debug)]
pub struct SendLoop {
    pub generation: u64,
    /// The newest timestamp of the source.
    pub last_source: Option<u32>,
    /// What is added to the timestamps of the source.
    pub offset: u32,
}

/// The gap, in ticks, beyond which a source is taken to have been switched: ten seconds of video.
pub const SOURCE_SWITCH_GAP: u32 = 900_000;

/// How far a switched source continues after the last timestamp: one frame at thirty per second.
pub const SOURCE_SWITCH_STEP: u32 = 3000;

/// How far `to` lies after `from` on the circle of timestamps.
pub open spec fn ticks(from: u32, to: u32) -> u32 {
    to.wrapping_sub(from)
}

impl SendLoop {
    /// The loop after a timestamp of the source. A source that runs ahead by more than the gap
    /// was switched, and is continued one step after the last timestamp; a late one changes
    /// nothing.
    pub open spec fn after(self, src: u32) -> SendLoop {
        match self.last_source {
            None => SendLoop { last_source: Some(src), ..self },
            Some(last) => if ticks(last, src) >= 0x8000_0000 {
                self
            } else if ticks(last, src) > SOURCE_SWITCH_GAP {
                SendLoop {
                    last_source: Some(src),
                    offset: last.wrapping_add(self.offset).wrapping_add(
                        SOURCE_SWITCH_STEP,
                    ).wrapping_sub(src),
                    ..self
                }
            } else {
                SendLoop { last_source: Some(src), ..self }
            },
        }
    }

    /// The timestamp on the wire for a timestamp of the source.
    pub open spec fn wire(self, src: u32) -> u32 {
        src.wrapping_add(self.after(src).offset)
    }

    /// Moves on to a timestamp of the source and gives the one on the wire.
    pub fn rewrite(&mut self, src: u32) -> (r: u32)
        ensures
            *final(self) == old(self).after(src),
            r == old(self).wire(src),
    {
        match self.last_source {
            None => {
                self.last_source = Some(src);
            },
            Some(last) => {
                let delta: u32 = src.wrapping_sub(last);
                if delta < 0x8000_0000 {
                    if delta > SOURCE_SWITCH_GAP {
                        self.offset = last.wrapping_add(self.offset).wrapping_add(
                            SOURCE_SWITCH_STEP,
                        ).wrapping_sub(src);
                    }
                    self.last_source = Some(src);
                }
            },
        }
        src.wrapping_add(self.offset)
    }
}

/// A source that was switched continues one step after the last timestamp on the wire.
pub proof fn switched_source_continues(l: SendLoop, last: u32, src: u32)
    requires
        l.last_source == Some(last),
        SOURCE_SWITCH_GAP < ticks(last, src) < 0x8000_0000,
    ensures
        l.wire(src) == last.wrapping_add(l.offset).wrapping_add(SOURCE_SWITCH_STEP),
        l.after(src).last_source == Some(src),
{
}

/// Between two samples of one source the wire advances as the source does.
pub proof fn steady_source_keeps_pace(l: SendLoop, last: u32, src: u32)
    requires
        l.last_source == Some(last),
        ticks(last, src) <= SOURCE_SWITCH_GAP,
    ensures
        ticks(last.wrapping_add(l.offset), l.wire(src)) == ticks(last, src),
        l.after(src).offset == l.offset,
{
}

/// A late sample keeps its place and leaves the loop as it was.
pub proof fn late_sample_changes_nothing(l: SendLoop, last: u32, src: u32)
    requires
        l.last_source == Some(last),
        ticks(last, src) >= 0x8000_0000,
    ensures
        l.after(src) == l,
        l.wire(src) == src.wrapping_add(l.offset),
{
}

/// What a send loop does with a sample.
pub enum SendStep {
    /// The sender has moved to another transport: the loop ends.
    Stop,
    /// The sender may not send: the sample is dropped.
    Skip,
    /// A packet: as interceptors see it, and as it goes on the wire.
    Send { observed: RtpPacket, wire: RtpPacket },
}

/// The packet that a sample becomes.
pub open spec fn observed_packet(l: SendLoop, s: SenderView, sample: MediaSample) -> PacketView {
    sample_packet(
        sample,
        s.ssrc,
        s.params.payload_type,
        s.next_seq,
        if sample.sequence_number is Some {
            sample.rtp_timestamp
        } else {
            l.wire(sample.rtp_timestamp)
        },
    )
}

/// The packet with the negotiated mid extension.
pub open spec fn wire_packet(s: SenderView, p: PacketView) -> PacketView {
    match s.sdes_mid {
        Some(m) => PacketView {
            header: HeaderView {
                extensions: extension_set(
                    p.header.extensions,
                    m.0,
                    vstd::utf8::encode_utf8(m.1),
                ),
                ..p.header
            },
            ..p
        },
        None => p,
    }
}

/// What a list of handlers sends in answer to a report, one handler after the other.
pub open spec fn answers(nacks: Seq<SenderNackView>, seqs: Seq<u16>, now: u64) -> Seq<PacketView>
    decreases nacks.len(),
{
    if nacks.len() == 0 {
        Seq::empty()
    } else {
        answers(nacks.drop_last(), seqs, now) + nacks.last().answer(seqs, now)
    }
}

impl SenderView {
    /// The sender after it has numbered `p`.
    pub open spec fn numbered(self, p: PacketView) -> SenderView {
        SenderView {
            next_seq: self.next_seq.wrapping_add(1),
            nacks: self.nacks.map_values(|n: SenderNackView| n.sent(p)),
            ..self
        }
    }

    /// What is sent for an RTCP packet that the sender receives.
    pub open spec fn resent(self, packet: RtcpPacket, now: u64) -> Seq<PacketView> {
        match packet {
            RtcpPacket::GenericNack(g) => answers(self.nacks, g.lost_packets@, now),
            _ => Seq::empty(),
        }
    }

    /// The handlers after an RTCP packet.
    pub open spec fn nacks_after_rtcp(self, packet: RtcpPacket, now: u64) -> Seq<SenderNackView> {
        match packet {
            RtcpPacket::GenericNack(g) => self.nacks.map_values(
                |n: SenderNackView| n.answered(g.lost_packets@, now),
            ),
            _ => self.nacks,
        }
    }
}

impl RtpSender {
    /// Starts the plan of a sender.
    pub fn builder(track_id: &str, ssrc: u32) -> (r: RtpSenderBuilder)
        ensures
            r@ == (SenderPlan {
                track_id: track_id@,
                ssrc,
                stream_id: "stream"@,
                params: default_codec(),
                nacks: Seq::empty(),
                cname: None,
            }),
    {
        RtpSenderBuilder::new(track_id, ssrc)
    }

    /// A sender of a stream with a codec and without a NACK handler.
    pub fn new(track_id: &str, ssrc: u32, stream_id: String, params: RtpCodecParameters) -> (r:
        Self)
        ensures
            is_fresh_sender(
                r@,
                (SenderPlan {
                    track_id: track_id@,
                    ssrc,
                    stream_id: stream_id@,
                    params: params@,
                    nacks: Seq::empty(),
                    cname: None,
                }),
            ),
    {
        RtpSenderBuilder::new(track_id, ssrc).stream_id(stream_id).params(params).build()
    }

    /// Lets the sender send or stops it; RTCP goes on either way.
    pub fn set_send_enabled(&mut self, enabled: bool)
        ensures
            final(self)@ == (SenderView { send_enabled: enabled, ..old(self)@ }),
    {
        self.send_enabled = enabled;
    }

    /// Whether the sender may send.
    pub fn send_enabled(&self) -> (r: bool)
        ensures
            r == self@.send_enabled,
    {
        self.send_enabled
    }

    /// The SSRC of the stream.
    pub fn ssrc(&self) -> (r: u32)
        ensures
            r == self@.ssrc,
    {
        self.ssrc
    }

    /// The number of the next packet.
    pub fn next_sequence_number(&self) -> (r: u16)
        ensures
            r == self@.next_seq,
    {
        self.next_sequence_number
    }

    /// The timestamp of the last packet.
    pub fn last_rtp_timestamp(&self) -> (r: u32)
        ensures
            r == self@.last_timestamp,
    {
        self.last_rtp_timestamp
    }

    /// The packets sent.
    pub fn packets_sent(&self) -> (r: u32)
        ensures
            r == self@.packets_sent,
    {
        self.packets_sent
    }

    /// The payload octets sent.
    pub fn octets_sent(&self) -> (r: u32)
        ensures
            r == self@.octets_sent,
    {
        self.octets_sent
    }

    /// The canonical name.
    pub fn cname(&self) -> (r: &str)
        ensures
            r@ == self@.cname,
    {
        self.cname.as_str()
    }

    /// The track.
    pub fn track_id(&self) -> (r: &str)
        ensures
            r@ == self@.track_id,
    {
        self.track_id.as_str()
    }

    /// The stream.
    pub fn stream_id(&self) -> (r: &str)
        ensures
            r@ == self@.stream_id,
    {
        self.stream_id.as_str()
    }

    /// The transport that the sender writes to.
    pub fn transport(&self) -> (r: Option<u64>)
        ensures
            r == self@.transport,
    {
        self.transport
    }

    /// Sets the extension that carries the mid.
    pub fn set_sdes_mid(&mut self, id: u8, mid: String)
        ensures
            final(self)@ == (SenderView { sdes_mid: Some((id, mid@)), ..old(self)@ }),
    {
        self.sdes_mid = Some((id, mid));
    }

    /// The extension that carries the mid.
    pub fn sdes_mid(&self) -> (r: Option<(u8, String)>)
        ensures
            mid_opt(r) == self@.sdes_mid,
    {
        match &self.sdes_mid {
            Some(m) => Some((m.0, m.1.clone())),
            None => None,
        }
    }

    /// The codec.
    pub fn params(&self) -> (r: RtpCodecParameters)
        ensures
            r@ == self@.params,
    {
        self.params.clone()
    }

    /// Sets the codec.
    pub fn set_params(&mut self, params: RtpCodecParameters)
        ensures
            final(self)@ == (SenderView { params: params@, ..old(self)@ }),
    {
        self.params = params;
    }

    /// The first NACK handler.
    pub fn nack_handler(&self) -> (r: Option<&DefaultRtpSenderNackHandler>)
        ensures
            match r {
                Some(h) => self@.nacks.len() > 0 && self@.nacks[0] == h@,
                None => self@.nacks.len() == 0,
            },
    {
        if self.nacks.len() == 0 {
            None
        } else {
            Some(&self.nacks[0])
        }
    }

    /// Configures the retransmission of the first NACK handler on a stream of its own. False where
    /// no handler keeps packets.
    pub fn set_rtx(&mut self, config: Option<RtxSenderConfig>) -> (r: bool)
        ensures
            r == (old(self)@.nacks.len() > 0),
            final(self)@ == old(self)@.with_rtx(config),
            old(self)@.wf() ==> final(self)@.wf(),
    {
        let ghost before = self@;
        if self.nacks.len() == 0 {
            return false;
        }
        self.nacks[0].set_rtx(config);
        assert(self@ =~= before.with_rtx(config));
        true
    }

    /// Records a packet that left on this stream past the send loop.
    pub fn note_external_packet(&mut self, sequence_number: u16, timestamp: u32, payload_len: u32)
        ensures
            final(self)@ == (SenderView {
                next_seq: sequence_number.wrapping_add(1),
                last_timestamp: timestamp,
                packets_sent: old(self)@.packets_sent.wrapping_add(1),
                octets_sent: old(self)@.octets_sent.wrapping_add(payload_len),
                ..old(self)@
            }),
    {
        self.next_sequence_number = sequence_number.wrapping_add(1);
        self.last_rtp_timestamp = timestamp;
        self.packets_sent = self.packets_sent.wrapping_add(1);
        self.octets_sent = self.octets_sent.wrapping_add(payload_len);
    }

    /// Moves the sender to a transport. A new transport gets a send loop whose timestamps start
    /// at `first_offset`, and ends the loop of the one before; the same transport changes nothing.
    pub fn set_transport_at(&mut self, transport: u64, first_offset: u32) -> (r: Option<SendLoop>)
        ensures
            old(self)@.transport == Some(transport) ==> r is None && final(self)@ == old(self)@,
            old(self)@.transport != Some(transport) ==> {
                &&& final(self)@ == (SenderView {
                    transport: Some(transport),
                    generation: old(self)@.generation.wrapping_add(1),
                    ..old(self)@
                })
                &&& r == Some(
                    SendLoop {
                        generation: old(self)@.generation.wrapping_add(1),
                        last_source: None,
                        offset: first_offset,
                    },
                )
            },
    {
        if let Some(t) = self.transport {
            if t == transport {
                return None;
            }
        }
        self.generation = self.generation.wrapping_add(1);
        self.transport = Some(transport);
        Some(SendLoop { generation: self.generation, last_source: None, offset: first_offset })
    }

    /// Moves the sender to a transport. The timestamps of its send loop start at random.
    pub fn set_transport(&mut self, transport: u64) -> (r: Option<SendLoop>)
        ensures
            old(self)@.transport == Some(transport) ==> r is None && final(self)@ == old(self)@,
            old(self)@.transport != Some(transport) ==> {
                &&& final(self)@ == (SenderView {
                    transport: Some(transport),
                    generation: old(self)@.generation.wrapping_add(1),
                    ..old(self)@
                })
                &&& r matches Some(l) && l.generation == final(self)@.generation
                    && l.last_source is None
            },
    {
        self.set_transport_at(transport, random_u32())
    }

    /// Whether a send loop still serves the transport of the sender.
    pub fn serves(&self, send_loop: &SendLoop) -> (r: bool)
        ensures
            r == (send_loop.generation == self@.generation),
    {
        send_loop.generation == self.generation
    }

    /// What the send loop does with a sample of the track. A sample becomes one packet with the
    /// next number; unless the application times its packets itself, its timestamp is moved onto
    /// the timeline of the stream.
    pub fn on_sample(&mut self, send_loop: &mut SendLoop, sample: MediaSample) -> (r: SendStep)
        requires
            old(self)@.wf(),
        ensures
            final(self)@.wf(),
            old(send_loop).generation != old(self)@.generation ==> r is Stop,
            old(send_loop).generation == old(self)@.generation && !old(self)@.send_enabled
                ==> r is Skip,
            !(old(send_loop).generation == old(self)@.generation && old(self)@.send_enabled) ==> {
                &&& final(self)@ == old(self)@
                &&& *final(send_loop) == *old(send_loop)
            },
            old(send_loop).generation == old(self)@.generation && old(self)@.send_enabled ==> {
                let p = observed_packet(*old(send_loop), old(self)@, sample);
                &&& r matches SendStep::Send { observed, wire }
                &&& observed@ == p
                &&& wire@ == wire_packet(old(self)@, p)
                &&& observed.payload@ == sample.payload@
                &&& wire.payload@ == sample.payload@
                &&& observed.header.marker == sample.marker
                &&& wire.header.marker == sample.marker
                &&& wire.header.ssrc == old(self)@.ssrc
                &&& wire.header.sequence_number == old(self)@.next_seq
                &&& wire.header.payload_type == old(self)@.params.payload_type
                &&& wire.header.timestamp == (if sample.sequence_number is Some {
                    sample.rtp_timestamp
                } else {
                    sample.rtp_timestamp.wrapping_add(final(send_loop).offset)
                })
                &&& final(self)@ == old(self)@.numbered(p)
                &&& *final(send_loop) == (if sample.sequence_number is Some {
                    *old(send_loop)
                } else {
                    old(send_loop).after(sample.rtp_timestamp)
                })
            },
    {
        if send_loop.generation != self.generation {
            return SendStep::Stop;
        }
        if !self.send_enabled {
            return SendStep::Skip;
        }
        let ghost before = self@;
        let seq: u16 = self.next_sequence_number;
        self.next_sequence_number = seq.wrapping_add(1);
        let timestamp: u32 = match sample.sequence_number {
            Some(_) => sample.rtp_timestamp,
            None => send_loop.rewrite(sample.rtp_timestamp),
        };
        let mut header = RtpHeader::new(self.params.payload_type, seq, timestamp, self.ssrc);
        header.marker = sample.marker;
        let observed = RtpPacket::new(header, sample.payload);
        assert(observed@ =~= observed_packet(*old(send_loop), before, sample));
        let ghost start = self@;
        let mut i: usize = 0;
        while i < self.nacks.len()
            invariant
                i <= self.nacks@.len(),
                self@ == (SenderView { nacks: self@.nacks, ..start }),
                self@.nacks.len() == start.nacks.len(),
                forall|j: int| 0 <= j < start.nacks.len() ==> (#[trigger] start.nacks[j]).wf(),
                forall|j: int|
                    0 <= j < self@.nacks.len() ==> (#[trigger] self@.nacks[j]).wf()
                        && self@.nacks[j] == (if j < i {
                        start.nacks[j].sent(observed@)
                    } else {
                        start.nacks[j]
                    }),
            decreases self.nacks@.len() - i,
        {
            let ghost s0 = self@;
            assert(s0.nacks[i as int] == self.nacks@[i as int]@);
            self.nacks[i].on_packet_sent(&observed);
            assert(self@ =~= (SenderView { nacks: self@.nacks, ..start }));
            assert(self@.nacks =~= s0.nacks.update(
                i as int,
                start.nacks[i as int].sent(observed@),
            ));
            i += 1;
        }
        assert(self@.nacks =~= start.nacks.map_values(|n: SenderNackView| n.sent(observed@)));
        let mut wire = observed.clone();
        if let Some(m) = &self.sdes_mid {
            wire.header.set_extension(m.0, m.1.as_str().as_bytes_vec());
        }
        assert(wire@ =~= wire_packet(before, observed@));
        assert(self@ =~= before.numbered(observed@));
        SendStep::Send { observed, wire }
    }

    /// Counts a packet that went out on the wire.
    pub fn note_sent(&mut self, payload_len: u32, timestamp: u32)
        ensures
            final(self)@ == (SenderView {
                packets_sent: old(self)@.packets_sent.wrapping_add(1),
                octets_sent: old(self)@.octets_sent.wrapping_add(payload_len),
                last_timestamp: timestamp,
                ..old(self)@
            }),
    {
        self.packets_sent = self.packets_sent.wrapping_add(1);
        self.octets_sent = self.octets_sent.wrapping_add(payload_len);
        self.last_rtp_timestamp = timestamp;
    }

    /// The report that a send loop sends at the end of a reporting interval: none before the
    /// first packet, none from a loop that has ended.
    pub fn report(
        &self,
        send_loop: &SendLoop,
        unix_seconds: u64,
        nanos: u32,
        blocks: &Vec<ReportBlock>,
    ) -> (r: Option<SenderReport>)
        requires
            nanos < 1_000_000_000,
        ensures
            r is Some <==> send_loop.generation == self@.generation && self@.packets_sent > 0,
            r matches Some(s) ==> {
                &&& s.sender_ssrc == self@.ssrc
                &&& s.ntp_most == ntp_high(unix_seconds)
                &&& s.ntp_least == ntp_low(nanos)
                &&& s.rtp_timestamp == self@.last_timestamp
                &&& s.packet_count == self@.packets_sent
                &&& s.octet_count == self@.octets_sent
                &&& s.report_blocks@ == distinct_blocks(blocks@)
            },
    {
        if send_loop.generation != self.generation || self.packets_sent == 0 {
            return None;
        }
        Some(
            build_sender_report(
                self.ssrc,
                self.last_rtp_timestamp,
                self.packets_sent,
                self.octets_sent,
                unix_seconds,
                nanos,
                dedup_report_blocks(blocks),
            ),
        )
    }

    /// Handles an RTCP packet of the receiver and gives the packets to send again.
    pub fn on_rtcp(&mut self, packet: &RtcpPacket, now: u64) -> (r: Vec<RtpPacket>)
        requires
            old(self)@.wf(),
        ensures
            final(self)@.wf(),
            packets(r@) == old(self)@.resent(*packet, now),
            final(self)@ == (SenderView {
                nacks: old(self)@.nacks_after_rtcp(*packet, now),
                ..old(self)@
            }),
    {
        let ghost before = self@;
        let mut out: Vec<RtpPacket> = Vec::new();
        assert(packets(out@) =~= Seq::<PacketView>::empty());
        let g = match packet {
            RtcpPacket::GenericNack(g) => g,
            _ => {
                return out;
            },
        };
        let ghost seqs = g.lost_packets@;
        let mut i: usize = 0;
        assert(before.nacks.take(0) =~= Seq::<SenderNackView>::empty());
        while i < self.nacks.len()
            invariant
                i <= self.nacks@.len(),
                seqs == g.lost_packets@,
                self@ == (SenderView { nacks: self@.nacks, ..before }),
                self@.nacks.len() == before.nacks.len(),
                packets(out@) == answers(before.nacks.take(i as int), seqs, now),
                forall|j: int| 0 <= j < before.nacks.len() ==> (#[trigger] before.nacks[j]).wf(),
                forall|j: int|
                    0 <= j < self@.nacks.len() ==> (#[trigger] self@.nacks[j]).wf()
                        && self@.nacks[j] == (if j < i {
                        before.nacks[j].answered(seqs, now)
                    } else {
                        before.nacks[j]
                    }),
            decreases self.nacks@.len() - i,
        {
            let ghost s0 = self@;
            let ghost list = out@;
            assert(s0.nacks[i as int] == self.nacks@[i as int]@);
            let mut more = self.nacks[i].on_nack(g, now);
            let ghost all = more@;
            out.append(&mut more);
            assert(packets(out@) =~= packets(list) + packets(all));
            assert(before.nacks.take(i + 1).drop_last() =~= before.nacks.take(i as int));
            assert(self@ =~= (SenderView { nacks: self@.nacks, ..before }));
            assert(self@.nacks =~= s0.nacks.update(
                i as int,
                before.nacks[i as int].answered(seqs, now),
            ));
            i += 1;
        }
        assert(before.nacks.take(i as int) =~= before.nacks);
        assert(self@.nacks =~= before.nacks_after_rtcp(*packet, now));
        out
    }

    /// Counts a retransmission that left on the RTX stream of the first NACK handler.
    pub fn note_rtx_sent(&mut self)
        ensures
            old(self)@.wf() ==> final(self)@.wf(),
            old(self)@.nacks.len() == 0 ==> final(self)@ == old(self)@,
            old(self)@.nacks.len() > 0 ==> final(self)@ == (SenderView {
                nacks: old(self)@.nacks.update(
                    0,
                    (SenderNackView {
                        rtx_sent_count: old(self)@.nacks[0].rtx_sent_count.wrapping_add(1),
                        ..old(self)@.nacks[0]
                    }),
                ),
                ..old(self)@
            }),
    {
        let ghost before = self@;
        if self.nacks.len() > 0 {
            self.nacks[0].note_rtx_sent();
            assert(self@ =~= (SenderView {
                nacks: before.nacks.update(
                    0,
                    (SenderNackView {
                        rtx_sent_count: before.nacks[0].rtx_sent_count.wrapping_add(1),
                        ..before.nacks[0]
                    }),
                ),
                ..before
            }));
        }
    }
}

/// A loop that a transport change has ended sends nothing more.
pub proof fn ended_loop_is_stale(s: SenderView, l: SendLoop)
    requires
        l.generation == s.generation,
    ensures
        l.generation != s.generation.wrapping_add(1),
{
}

/// A sample becomes one packet of the sender's stream: its payload and marker, the SSRC and payload
/// type of the sender, and the next number. On the wire it carries the same, and the mid where that
/// was negotiated.
pub proof fn samples_are_sent_whole(l: SendLoop, s: SenderView, sample: MediaSample)
    ensures
        ({
            let p = observed_packet(l, s, sample);
            let w = wire_packet(s, p);
            &&& p.payload == sample.payload@
            &&& w.payload == sample.payload@
            &&& p.padding_len == 0 && w.padding_len == 0
            &&& p.header.marker == sample.marker && w.header.marker == sample.marker
            &&& p.header.ssrc == s.ssrc && w.header.ssrc == s.ssrc
            &&& p.header.payload_type == s.params.payload_type && w.header.payload_type
                == s.params.payload_type
            &&& p.header.sequence_number == s.next_seq && w.header.sequence_number == s.next_seq
            &&& w.header.timestamp == p.header.timestamp
            &&& p.header.extensions.len() == 0
            &&& s.sdes_mid is None ==> w == p
            &&& s.sdes_mid matches Some(m) ==> w.header.extensions == seq![
                (m.0, vstd::utf8::encode_utf8(m.1)),
            ]
        }),
{
}

/// Two samples that follow one another have numbers that follow one another.
pub proof fn samples_are_numbered_in_turn(
    l: SendLoop,
    m: SendLoop,
    s: SenderView,
    one: MediaSample,
    other: MediaSample,
)
    ensures
        ({
            let p = observed_packet(l, s, one);
            let q = observed_packet(m, s.numbered(p), other);
            &&& q.header.sequence_number == (p.header.sequence_number + 1) % 0x1_0000
            &&& q.header.ssrc == p.header.ssrc
        }),
{
}

/// A packet that the application times keeps its timestamp; the first one of another source keeps
/// its distance to the random start.
pub proof fn first_timestamps(l: SendLoop, s: SenderView, sample: MediaSample)
    ensures
        sample.sequence_number is Some ==> observed_packet(l, s, sample).header.timestamp
            == sample.rtp_timestamp,
        sample.sequence_number is None && l.last_source is None ==> observed_packet(
            l,
            s,
            sample,
        ).header.timestamp == sample.rtp_timestamp.wrapping_add(l.offset) && l.after(
            sample.rtp_timestamp,
        ) == (SendLoop { last_source: Some(sample.rtp_timestamp), ..l }),
{
}

/// A packet that is sent is kept by every NACK handler that has room and does not take it for a
/// retransmission, so that it can be sent again.
pub proof fn sent_packets_are_kept(s: SenderView, p: PacketView, i: int)
    requires
        s.wf(),
        0 <= i < s.nacks.len(),
        s.nacks[i].rtx_config matches Some(c) ==> c.rtx_ssrc == 0 || c.rtx_ssrc != p.header.ssrc,
    ensures
        s.numbered(p).nacks.len() == s.nacks.len(),
        s.numbered(p).nacks[i].buffer.packets.contains_key(p.header.sequence_number),
        s.numbered(p).nacks[i].buffer.packets[p.header.sequence_number] == p,
{
    let b = s.nacks[i].buffer;
    let q = p.header.sequence_number;
    crate::nack::sent_packet_is_kept(b, p, s.nacks[i].max_size);
    assert(s.numbered(p).nacks[i] == s.nacks[i].sent(p));
}

/// A timestamp that runs ahead of the last one by more than ten seconds of video is that of
/// another source: it goes on one video frame after the last. A smaller step is kept as it is.
pub proof fn source_switches_are_bridged(l: SendLoop, last: u32, src: u32)
    requires
        l.last_source == Some(last),
        src.wrapping_sub(last) < 0x8000_0000,
    ensures
        src.wrapping_sub(last) > 900_000 ==> l.wire(src) == last.wrapping_add(
            l.offset,
        ).wrapping_add(3000),
        src.wrapping_sub(last) <= 900_000 ==> l.wire(src) == src.wrapping_add(l.offset),
        l.after(src).last_source == Some(src),
        l.after(src).wire(src) == l.wire(src),
{
}

/// A NACK is answered from every handler in turn, and no other RTCP packet sends anything again.
pub proof fn only_nacks_are_answered(s: SenderView, g: GenericNack, packet: RtcpPacket, now: u64)
    ensures
        !(packet is GenericNack) ==> s.resent(packet, now).len() == 0 && s.nacks_after_rtcp(
            packet,
            now,
        ) == s.nacks,
        s.nacks.len() == 0 ==> s.resent(packet, now).len() == 0,
        s.nacks.len() == 1 ==> s.resent(RtcpPacket::GenericNack(g), now) == s.nacks[0].answer(
            g.lost_packets@,
            now,
        ) && s.nacks_after_rtcp(RtcpPacket::GenericNack(g), now) == seq![
            s.nacks[0].answered(g.lost_packets@, now),
        ],
{
    reveal_with_fuel(answers, 3);
    if s.nacks.len() == 1 {
        assert(s.resent(RtcpPacket::GenericNack(g), now) =~= s.nacks[0].answer(
            g.lost_packets@,
            now,
        ));
        assert(s.nacks_after_rtcp(RtcpPacket::GenericNack(g), now) =~= seq![
            s.nacks[0].answered(g.lost_packets@, now),
        ]);
    }
}

} // verus!

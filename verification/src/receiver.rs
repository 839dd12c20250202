//! The receiving side of a media stream.

use crate::codec::codecs;
use crate::codec::default_codec;
use crate::codec::CodecView;
use crate::codec::RtpCodecParameters;
use crate::error::RtcError;
use crate::error::RtcErrorView;
use crate::error::RtcResult;
use crate::nack::fresh_receiver_nack;
use crate::nack::missing;
use crate::nack::DefaultRtpReceiverNackHandler;
use crate::nack::ReceiverNackView;
use crate::rtp::FirRequest;
use crate::rtp::FullIntraRequest;
use crate::rtp::GenericNack;
use crate::rtp::PacketView;
use crate::rtp::PictureLossIndication;
use crate::rtp::RtpPacket;
use crate::rtx::unwrap_rtx_packet;
use crate::rtx::unwrapped;
use crate::sdp::MediaKind;
use crate::search::first;
use crate::search::first_from;
use crate::text::same_text;
use crate::text::text_opt;
use crate::text::texts;
use std::collections::HashMap;
use vstd::prelude::*;

verus! {

broadcast use vstd::std_specs::hash::group_hash_axioms;

/// How packets of a transport find their receiver, and how the transport reads them.
#[derive(Debug)]
pub enum Route {
    /// Packets of an SSRC.
    Ssrc(u32),
    /// Packets that nothing else claims.
    Provisional,
    /// Packets with a mid.
    Mid(String),
    /// Packets of any of the payload types.
    PayloadTypes(Vec<u8>),
    /// Packets of a simulcast layer.
    Rid(String),
    /// The extension that carries the mid.
    SdesMidExtension(Option<u8>),
    /// The extension that carries the absolute send time.
    AbsSendTimeExtension(Option<u8>),
    /// The extension that carries the simulcast layer.
    RidExtension(Option<u8>),
}

/// The model of a route.
pub enum RouteView {
    Ssrc(u32),
    Provisional,
    Mid(Seq<char>),
    PayloadTypes(Seq<u8>),
    Rid(Seq<char>),
    SdesMidExtension(Option<u8>),
    AbsSendTimeExtension(Option<u8>),
    RidExtension(Option<u8>),
}

impl View for Route {
    type V = RouteView;

    open spec fn view(&self) -> RouteView {
        match *self {
            Route::Ssrc(s) => RouteView::Ssrc(s),
            Route::Provisional => RouteView::Provisional,
            Route::Mid(m) => RouteView::Mid(m@),
            Route::PayloadTypes(p) => RouteView::PayloadTypes(p@),
            Route::Rid(r) => RouteView::Rid(r@),
            Route::SdesMidExtension(id) => RouteView::SdesMidExtension(id),
            Route::AbsSendTimeExtension(id) => RouteView::AbsSendTimeExtension(id),
            Route::RidExtension(id) => RouteView::RidExtension(id),
        }
    }
}

/// The model of a list of routes.
pub open spec fn routes(v: Seq<Route>) -> Seq<RouteView> {
    v.map_values(|r: Route| r@)
}

/// Pushing a route pushes its model.
pub broadcast proof fn routes_push(v: Seq<Route>, r: Route)
    ensures
        #[trigger] routes(v.push(r)) == routes(v).push(r@),
{
    assert(routes(v.push(r)) =~= routes(v).push(r@));
}

/// The model of an optional route on a transport.
pub open spec fn route_opt(r: Option<(u64, Route)>) -> Option<(u64, RouteView)> {
    match r {
        Some(x) => Some((x.0, x.1@)),
        None => None,
    }
}

/// A simulcast layer and the SSRC that it was seen on.
#[derive(Debug)]
pub struct Layer {
    pub rid: String,
    pub ssrc: Option<u32>,
}

/// The model of the simulcast layers.
pub open spec fn layers(v: Seq<Layer>) -> Seq<(Seq<char>, Option<u32>)> {
    v.map_values(|l: Layer| (l.rid@, l.ssrc))
}

/// Layers with a name.
pub open spec fn with_rid(rid: Seq<char>) -> spec_fn((Seq<char>, Option<u32>)) -> bool {
    |l: (Seq<char>, Option<u32>)| l.0 == rid
}

/// The model of a receiver.
#[verifier::ext_equal]
pub struct ReceiverView {
    pub kind: MediaKind,
    /// The SSRC of the stream, 0 until one is known.
    pub ssrc: u32,
    pub params: CodecView,
    pub payload_map: Map<u8, CodecView>,
    /// The negotiated codecs are those of the transceiver.
    pub shares_map: bool,
    pub transport: Option<u64>,
    /// The SSRC that feedback is sent with.
    pub feedback_ssrc: Option<u32>,
    pub rtx_ssrc: Option<u32>,
    /// Retransmission payload types and their primary ones.
    pub rtx_apt: Map<u8, u8>,
    pub fir_seq: u8,
    pub simulcast: Seq<(Seq<char>, Option<u32>)>,
    /// Somebody waits to be told of the track.
    pub announce: bool,
    pub track_event_sent: bool,
    pub cache_pt: u8,
    pub cache_rate: u32,
    /// The handlers that notice gaps, in the order in which they see the packets.
    pub nacks: Seq<ReceiverNackView>,
}

/// The receiving side of a media stream.
pub struct RtpReceiver {
    kind: MediaKind,
    ssrc: u32,
    params: RtpCodecParameters,
    payload_map: HashMap<u8, RtpCodecParameters>,
    shares_map: bool,
    transport: Option<u64>,
    rtcp_feedback_ssrc: Option<u32>,
    rtx_ssrc: Option<u32>,
    rtx_apt: HashMap<u8, u8>,
    fir_seq: u8,
    simulcast_tracks: Vec<Layer>,
    announce: bool,
    track_event_sent: bool,
    clock_rate_cache_pt: u8,
    clock_rate_cache: u32,
    nacks: Vec<DefaultRtpReceiverNackHandler>,
}

/// The model of a list of NACK handlers.
pub open spec fn receiver_nacks(v: Seq<DefaultRtpReceiverNackHandler>) -> Seq<ReceiverNackView> {
    v.map_values(|h: DefaultRtpReceiverNackHandler| h@)
}

impl View for RtpReceiver {
    type V = ReceiverView;

    closed spec fn view(&self) -> ReceiverView {
        ReceiverView {
            kind: self.kind,
            ssrc: self.ssrc,
            params: self.params@,
            payload_map: codecs(self.payload_map@),
            shares_map: self.shares_map,
            transport: self.transport,
            feedback_ssrc: self.rtcp_feedback_ssrc,
            rtx_ssrc: self.rtx_ssrc,
            rtx_apt: self.rtx_apt@,
            fir_seq: self.fir_seq,
            simulcast: layers(self.simulcast_tracks@),
            announce: self.announce,
            track_event_sent: self.track_event_sent,
            cache_pt: self.clock_rate_cache_pt,
            cache_rate: self.clock_rate_cache,
            nacks: receiver_nacks(self.nacks@),
        }
    }
}

/// The codec that a receiver of a kind expects before anything is negotiated.
pub open spec fn expected_codec(kind: MediaKind) -> CodecView {
    match kind {
        MediaKind::Audio => CodecView {
            payload_type: 111,
            name: "opus"@,
            clock_rate: 48000,
            channels: 2,
        },
        MediaKind::Video => CodecView {
            payload_type: 96,
            name: "VP8"@,
            clock_rate: 90000,
            channels: 0,
        },
        _ => default_codec(),
    }
}

/// A receiver that was just made.
pub open spec fn fresh_receiver(p: ReceiverPlan) -> ReceiverView {
    ReceiverView {
        kind: p.kind,
        ssrc: p.ssrc,
        params: expected_codec(p.kind),
        payload_map: p.payload_map,
        shares_map: p.shares_map,
        transport: None,
        feedback_ssrc: None,
        rtx_ssrc: None,
        rtx_apt: Map::empty(),
        fir_seq: 0,
        simulcast: Seq::empty(),
        announce: false,
        track_event_sent: false,
        cache_pt: 255,
        cache_rate: 0,
        nacks: p.nacks,
    }
}

/// Collects what a receiver is made of.
pub struct RtpReceiverBuilder {
    kind: MediaKind,
    ssrc: u32,
    nacks: Vec<DefaultRtpReceiverNackHandler>,
    payload_map: HashMap<u8, RtpCodecParameters>,
    shares_map: bool,
}

/// The model of what a receiver is made of.
#[verifier::ext_equal]
pub struct ReceiverPlan {
    pub kind: MediaKind,
    pub ssrc: u32,
    pub nacks: Seq<ReceiverNackView>,
    pub payload_map: Map<u8, CodecView>,
    pub shares_map: bool,
}

impl View for RtpReceiverBuilder {
    type V = ReceiverPlan;

    closed spec fn view(&self) -> ReceiverPlan {
        ReceiverPlan {
            kind: self.kind,
            ssrc: self.ssrc,
            nacks: receiver_nacks(self.nacks@),
            payload_map: codecs(self.payload_map@),
            shares_map: self.shares_map,
        }
    }
}

/// A plan without a NACK handler and without negotiated codecs.
pub open spec fn blank_plan(kind: MediaKind, ssrc: u32) -> ReceiverPlan {
    ReceiverPlan {
        kind,
        ssrc,
        nacks: Seq::empty(),
        payload_map: Map::empty(),
        shares_map: false,
    }
}

/// The plan of the receiver that a connection gives to a transceiver.
pub open spec fn shared_plan(kind: MediaKind, ssrc: u32, nack: bool) -> ReceiverPlan {
    ReceiverPlan {
        nacks: if nack {
            seq![fresh_receiver_nack()]
        } else {
            Seq::empty()
        },
        shares_map: true,
        ..blank_plan(kind, ssrc)
    }
}

impl RtpReceiverBuilder {
    /// A plan without a NACK handler and without negotiated codecs.
    pub fn new(kind: MediaKind, ssrc: u32) -> (r: Self)
        ensures
            r@ == blank_plan(kind, ssrc),
    {
        let r = RtpReceiverBuilder {
            kind,
            ssrc,
            nacks: Vec::new(),
            payload_map: HashMap::new(),
            shares_map: false,
        };
        assert(r@ =~= blank_plan(kind, ssrc));
        r
    }

    /// Gives the receiver negotiated codecs of its own.
    pub fn payload_map(self, payload_map: HashMap<u8, RtpCodecParameters>) -> (r: Self)
        ensures
            r@ == (ReceiverPlan {
                payload_map: codecs(payload_map@),
                shares_map: false,
                ..self@
            }),
    {
        let mut s = self;
        s.payload_map = payload_map;
        s.shares_map = false;
        s
    }

    /// Lets the receiver share the negotiated codecs of the transceiver that it is given to.
    pub fn shared_payload_map(self) -> (r: Self)
        ensures
            r@ == (ReceiverPlan { shares_map: true, ..self@ }),
    {
        let mut s = self;
        s.shares_map = true;
        s
    }

    /// Adds a handler that asks for packets that go missing.
    pub fn nack(self) -> (r: Self)
        ensures
            r@ == (ReceiverPlan { nacks: self@.nacks.push(fresh_receiver_nack()), ..self@ }),
    {
        let ghost before = self@;
        let mut s = self;
        s.nacks.push(DefaultRtpReceiverNackHandler::new());
        assert(s@ =~= (ReceiverPlan {
            nacks: before.nacks.push(fresh_receiver_nack()),
            ..before
        }));
        s
    }

    /// Makes the receiver.
    pub fn build(self) -> (r: RtpReceiver)
        ensures
            r@ == fresh_receiver(self@),
    {
        let params = match self.kind {
            MediaKind::Audio => RtpCodecParameters {
                payload_type: 111,
                name: "opus".to_owned(),
                clock_rate: 48000,
                channels: 2,
            },
            MediaKind::Video => RtpCodecParameters {
                payload_type: 96,
                name: "VP8".to_owned(),
                clock_rate: 90000,
                channels: 0,
            },
            _ => RtpCodecParameters::default(),
        };
        let r = RtpReceiver {
            kind: self.kind,
            ssrc: self.ssrc,
            params,
            payload_map: self.payload_map,
            shares_map: self.shares_map,
            transport: None,
            rtcp_feedback_ssrc: None,
            rtx_ssrc: None,
            rtx_apt: HashMap::new(),
            fir_seq: 0,
            simulcast_tracks: Vec::new(),
            announce: false,
            track_event_sent: false,
            clock_rate_cache_pt: 255,
            clock_rate_cache: 0,
            nacks: self.nacks,
        };
        assert(r@ =~= fresh_receiver(self@));
        r
    }
}

/// The model of a request for missing packets.
#[verifier::ext_equal]
pub struct RequestView {
    pub sender_ssrc: u32,
    pub media_ssrc: u32,
    pub lost: Seq<u16>,
}

/// The model of a list of requests.
pub open spec fn request_views(v: Seq<GenericNack>) -> Seq<RequestView> {
    v.map_values(
        |n: GenericNack|
            RequestView {
                sender_ssrc: n.sender_ssrc,
                media_ssrc: n.media_ssrc,
                lost: n.lost_packets@,
            },
    )
}

/// The requests that a list of handlers makes at a packet: one of each handler that notices a gap.
pub open spec fn requests_of(nacks: Seq<ReceiverNackView>, sender_ssrc: u32, q: PacketView) -> Seq<
    RequestView,
>
    decreases nacks.len(),
{
    if nacks.len() == 0 {
        Seq::empty()
    } else {
        let rest = requests_of(nacks.drop_last(), sender_ssrc, q);
        let n = nacks.last();
        if n.leaves_gap(q.header.sequence_number, q.header.ssrc) {
            rest.push(
                RequestView {
                    sender_ssrc,
                    media_ssrc: q.header.ssrc,
                    lost: missing(n.last_seq, q.header.sequence_number),
                },
            )
        } else {
            rest
        }
    }
}

/// `list` with the members of `types` from `k` on that it lacks.
pub open spec fn types_from(list: Seq<u8>, types: Set<u8>, k: int) -> Seq<u8>
    decreases 256 - k,
{
    if k < 0 || k > 255 {
        list
    } else if types.contains(k as u8) && !list.contains(k as u8) {
        types_from(list.push(k as u8), types, k + 1)
    } else {
        types_from(list, types, k + 1)
    }
}

impl ReceiverView {
    /// The payload types that the receiver takes with the retransmission types `apt`: the
    /// expected one, the negotiated ones and the retransmission types.
    pub open spec fn payload_types(self, apt: Map<u8, u8>) -> Seq<u8> {
        types_from(
            types_from(seq![self.params.payload_type], self.payload_map.dom(), 0),
            apt.dom(),
            0,
        )
    }

    /// The clock rate that was negotiated for a payload type, or the expected one.
    pub open spec fn negotiated_rate(self, pt: u8) -> u32 {
        if self.payload_map.contains_key(pt) {
            self.payload_map[pt].clock_rate
        } else {
            self.params.clock_rate
        }
    }

    /// The clock rate of a payload type, by the cache where it holds the payload type.
    pub open spec fn clock_rate(self, pt: u8) -> u32 {
        if self.cache_pt == pt && self.cache_rate != 0 {
            self.cache_rate
        } else {
            self.negotiated_rate(pt)
        }
    }

    /// The receiver after a look at the clock rate of a payload type.
    pub open spec fn after_clock_rate(self, pt: u8) -> ReceiverView {
        ReceiverView { cache_pt: pt, cache_rate: self.clock_rate(pt), ..self }
    }

    /// The cache holds what was negotiated.
    pub open spec fn cache_is_fresh(self) -> bool {
        self.cache_rate != 0 ==> self.cache_rate == self.negotiated_rate(self.cache_pt)
    }

    /// A packet as media: unchanged if it is no retransmission, restored if it can be.
    pub open spec fn restored(self, p: PacketView) -> Option<PacketView> {
        if self.rtx_apt.contains_key(p.header.payload_type) {
            if self.ssrc == 0 {
                None
            } else {
                unwrapped(p, self.ssrc, self.rtx_apt[p.header.payload_type])
            }
        } else if self.rtx_ssrc == Some(p.header.ssrc) {
            None
        } else {
            Some(p)
        }
    }

    /// The first packet of the main track on a transport tells of the track.
    pub open spec fn announces(self, rid: Option<Seq<char>>, ssrc: u32) -> bool {
        rid is None && self.ssrc == 0 && ssrc != 0 && !self.track_event_sent && self.announce
    }

    /// The receiver after it has seen the SSRC of a track.
    pub open spec fn latched(self, rid: Option<Seq<char>>, ssrc: u32) -> ReceiverView {
        match rid {
            None => ReceiverView {
                ssrc,
                track_event_sent: self.track_event_sent || (self.ssrc == 0 && ssrc != 0),
                ..self
            },
            Some(name) => match first(self.simulcast, with_rid(name)) {
                Some(i) => if self.simulcast[i].1 is None {
                    ReceiverView {
                        simulcast: self.simulcast.update(
                            i,
                            (self.simulcast[i].0, Some(ssrc)),
                        ),
                        ..self
                    }
                } else {
                    self
                },
                None => self,
            },
        }
    }

    /// The receiver knows the track.
    pub open spec fn has_track(self, rid: Option<Seq<char>>) -> bool {
        match rid {
            None => true,
            Some(name) => first(self.simulcast, with_rid(name)) is Some,
        }
    }

    /// The receiver after a packet of a track that it could read as `q`.
    pub open spec fn after_packet(self, rid: Option<Seq<char>>, q: PacketView) -> ReceiverView {
        let l = self.latched(rid, q.header.ssrc);
        ReceiverView {
            nacks: l.nacks.map_values(
                |n: ReceiverNackView| n.after(q.header.sequence_number, q.header.ssrc),
            ),
            ..l
        }.after_clock_rate(q.header.payload_type)
    }

    /// The requests for the packets that are found missing at a packet.
    pub open spec fn requests(self, q: PacketView) -> Seq<RequestView> {
        requests_of(
            self.nacks,
            match self.feedback_ssrc {
                Some(s) => s,
                None => 0,
            },
            q,
        )
    }

    /// The SSRC that a request for a key frame names.
    pub open spec fn key_frame_ssrc(self, rid: Option<Seq<char>>) -> Option<u32> {
        match rid {
            None => Some(self.ssrc),
            Some(name) => match first(self.simulcast, with_rid(name)) {
                Some(i) => self.simulcast[i].1,
                None => None,
            },
        }
    }

    /// The receiver with a simulcast layer that nothing was seen of.
    pub open spec fn with_layer(self, rid: Seq<char>) -> ReceiverView {
        ReceiverView {
            simulcast: match first(self.simulcast, with_rid(rid)) {
                Some(i) => self.simulcast.update(i, (rid, None)),
                None => self.simulcast.push((rid, None)),
            },
            ..self
        }
    }

    /// The receiver on a transport. Another transport than the one before has its own stream to
    /// learn and to tell of.
    pub open spec fn on_transport(self, transport: u64, announce: bool) -> ReceiverView {
        if self.transport is Some {
            ReceiverView {
                transport: Some(transport),
                announce,
                track_event_sent: false,
                ssrc: 0,
                ..self
            }
        } else {
            ReceiverView { transport: Some(transport), announce, ..self }
        }
    }

    /// The routes that the receiver takes on its transport.
    pub open spec fn initial_routes(self, owner: Option<OwnerView>) -> Seq<RouteView> {
        let a: Seq<RouteView> = if self.ssrc != 0 {
            seq![RouteView::Ssrc(self.ssrc)]
        } else {
            seq![]
        };
        let b = a.push(RouteView::Provisional);
        let c = match owner {
            Some(o) => {
                let m = match o.mid {
                    Some(mid) => b.push(RouteView::Mid(mid)),
                    None => b,
                };
                m.push(RouteView::SdesMidExtension(o.sdes_mid_id))
            },
            None => b,
        };
        let d = c.push(RouteView::PayloadTypes(self.payload_types(self.rtx_apt)));
        let e = match self.rtx_ssrc {
            Some(s) => d.push(RouteView::Ssrc(s)),
            None => d,
        };
        layer_routes_from(self.simulcast, 0, e)
    }
}

/// `acc` with a route for each layer from index `k` on.
pub open spec fn layer_routes_from(
    l: Seq<(Seq<char>, Option<u32>)>,
    k: int,
    acc: Seq<RouteView>,
) -> Seq<RouteView>
    decreases l.len() - k,
{
    if k < 0 || k >= l.len() {
        acc
    } else {
        layer_routes_from(l, k + 1, acc.push(RouteView::Rid(l[k].0)))
    }
}

/// What a receiver needs to know of its transceiver to be routed to.
#[derive(Debug)]
pub struct Owner {
    pub mid: Option<String>,
    pub sdes_mid_id: Option<u8>,
}

/// The model of an owner.
pub struct OwnerView {
    pub mid: Option<Seq<char>>,
    pub sdes_mid_id: Option<u8>,
}

impl View for Owner {
    type V = OwnerView;

    open spec fn view(&self) -> OwnerView {
        OwnerView { mid: text_opt(self.mid), sdes_mid_id: self.sdes_mid_id }
    }
}

/// The model of an optional owner.
pub open spec fn owner_opt(o: Option<Owner>) -> Option<OwnerView> {
    match o {
        Some(x) => Some(x@),
        None => None,
    }
}

/// A packet that is ready to be depacketised.
pub struct Received {
    pub packet: RtpPacket,
    pub clock_rate: u32,
    /// The track has to be told of.
    pub announce: bool,
    /// The requests for packets that are missing.
    pub requests: Vec<GenericNack>,
}

/// What the receive loop does with a packet.
pub enum PacketStep {
    /// No such track: the packet is dropped, and no more is expected of the track.
    UnknownTrack,
    /// A retransmission that cannot be restored: the packet is dropped.
    Dropped,
    /// Media.
    Received(Received),
}

/// The name of a layer as its model.
pub open spec fn rid_opt(rid: Option<&str>) -> Option<Seq<char>> {
    match rid {
        Some(r) => Some(r@),
        None => None,
    }
}

fn add_types(list: Vec<u8>, types: &HashMap<u8, u8>) -> (r: Vec<u8>)
    ensures
        r@ == types_from(list@, types@.dom(), 0),
{
    let mut out = list;
    let ghost start = out@;
    let mut k: u16 = 0;
    while k < 256
        invariant
            k <= 256,
            types_from(start, types@.dom(), 0) == types_from(out@, types@.dom(), k as int),
        decreases 256 - k,
    {
        let pt: u8 = k as u8;
        if types.contains_key(&pt) && !holds(&out, pt) {
            out.push(pt);
        }
        k += 1;
    }
    out
}

fn add_codecs(list: Vec<u8>, types: &HashMap<u8, RtpCodecParameters>) -> (r: Vec<u8>)
    ensures
        r@ == types_from(list@, types@.dom(), 0),
{
    let mut out = list;
    let ghost start = out@;
    let mut k: u16 = 0;
    while k < 256
        invariant
            k <= 256,
            types_from(start, types@.dom(), 0) == types_from(out@, types@.dom(), k as int),
        decreases 256 - k,
    {
        let pt: u8 = k as u8;
        if types.contains_key(&pt) && !holds(&out, pt) {
            out.push(pt);
        }
        k += 1;
    }
    out
}

fn holds(list: &Vec<u8>, x: u8) -> (r: bool)
    ensures
        r == list@.contains(x),
{
    let mut i: usize = 0;
    while i < list.len()
        invariant
            i <= list@.len(),
            forall|j: int| 0 <= j < i ==> list@[j] != x,
        decreases list@.len() - i,
    {
        if list[i] == x {
            return true;
        }
        i += 1;
    }
    false
}

impl RtpReceiver {
    /// A receiver without a NACK handler and without negotiated codecs.
    pub fn new(kind: MediaKind, ssrc: u32) -> (r: Self)
        ensures
            r@ == fresh_receiver(blank_plan(kind, ssrc)),
    {
        RtpReceiverBuilder::new(kind, ssrc).build()
    }

    /// The kind of the stream.
    pub fn kind(&self) -> (r: MediaKind)
        ensures
            r == self@.kind,
    {
        self.kind
    }

    /// The SSRC of the stream, 0 until one is known.
    pub fn ssrc(&self) -> (r: u32)
        ensures
            r == self@.ssrc,
    {
        self.ssrc
    }

    /// The SSRC of the retransmission stream.
    pub fn rtx_ssrc(&self) -> (r: Option<u32>)
        ensures
            r == self@.rtx_ssrc,
    {
        self.rtx_ssrc
    }

    /// The retransmission payload types and their primary ones.
    pub fn rtx_apt(&self) -> (r: HashMap<u8, u8>)
        ensures
            r@ == self@.rtx_apt,
    {
        self.rtx_apt.clone()
    }

    /// The transport.
    pub fn transport(&self) -> (r: Option<u64>)
        ensures
            r == self@.transport,
    {
        self.transport
    }

    /// Whether the track was told of.
    pub fn track_event_sent(&self) -> (r: bool)
        ensures
            r == self@.track_event_sent,
    {
        self.track_event_sent
    }

    /// Marks the track as told of; true where it was already.
    pub fn mark_track_event_sent(&mut self) -> (r: bool)
        ensures
            r == old(self)@.track_event_sent,
            final(self)@ == (ReceiverView { track_event_sent: true, ..old(self)@ }),
    {
        let before = self.track_event_sent;
        self.track_event_sent = true;
        before
    }

    /// The first NACK handler.
    pub fn nack_handler(&self) -> (r: Option<&DefaultRtpReceiverNackHandler>)
        ensures
            match r {
                Some(h) => self@.nacks.len() > 0 && self@.nacks[0] == h@,
                None => self@.nacks.len() == 0,
            },
    {
        if self.nacks.len() == 0 {
            None
        } else {
            Some(&self.nacks[0])
        }
    }

    /// Whether the negotiated codecs are those of the transceiver.
    pub fn shares_payload_map(&self) -> (r: bool)
        ensures
            r == self@.shares_map,
    {
        self.shares_map
    }

    /// Sets the expected codec.
    pub fn set_params(&mut self, params: RtpCodecParameters)
        ensures
            final(self)@ == (ReceiverView { params: params@, ..old(self)@ }),
    {
        self.params = params;
    }

    /// Sets the negotiated codecs.
    pub fn set_payload_map(&mut self, payload_map: HashMap<u8, RtpCodecParameters>)
        ensures
            final(self)@ == (ReceiverView { payload_map: codecs(payload_map@), ..old(self)@ }),
    {
        self.payload_map = payload_map;
    }

    /// Sets the SSRC that feedback is sent with.
    pub fn set_feedback_ssrc(&mut self, ssrc: u32)
        ensures
            final(self)@ == (ReceiverView { feedback_ssrc: Some(ssrc), ..old(self)@ }),
    {
        self.rtcp_feedback_ssrc = Some(ssrc);
    }

    /// The codec of a payload type: the negotiated one, or the expected one.
    pub fn codec_params_for_payload_type(&self, pt: u8) -> (r: RtpCodecParameters)
        ensures
            r@ == (if self@.payload_map.contains_key(pt) {
                self@.payload_map[pt]
            } else {
                self@.params
            }),
    {
        match self.payload_map.get(&pt) {
            Some(p) => p.clone(),
            None => self.params.clone(),
        }
    }

    /// The clock rate of a payload type.
    pub fn clock_rate_for_payload_type(&mut self, pt: u8) -> (r: u32)
        ensures
            r == old(self)@.clock_rate(pt),
            final(self)@ == old(self)@.after_clock_rate(pt),
    {
        if self.clock_rate_cache_pt == pt {
            if self.clock_rate_cache != 0 {
                return self.clock_rate_cache;
            }
        }
        let rate: u32 = match self.payload_map.get(&pt) {
            Some(p) => p.clock_rate,
            None => self.params.clock_rate,
        };
        self.clock_rate_cache_pt = pt;
        self.clock_rate_cache = rate;
        rate
    }

    /// Sets the SSRC of the stream and gives the route that it takes.
    pub fn set_ssrc(&mut self, ssrc: u32) -> (r: Option<(u64, Route)>)
        ensures
            final(self)@ == (ReceiverView { ssrc, ..old(self)@ }),
            route_opt(r) == (match old(self)@.transport {
                Some(t) => if ssrc != 0 {
                    Some((t, RouteView::Ssrc(ssrc)))
                } else {
                    None
                },
                None => None,
            }),
    {
        self.ssrc = ssrc;
        match self.transport {
            Some(t) => if ssrc != 0 {
                Some((t, Route::Ssrc(ssrc)))
            } else {
                None
            },
            None => None,
        }
    }

    /// The route for packets that nothing else claims.
    pub fn ensure_provisional_listener(&self) -> (r: Option<(u64, Route)>)
        ensures
            route_opt(r) == (match self@.transport {
                Some(t) => Some((t, RouteView::Provisional)),
                None => None,
            }),
    {
        match self.transport {
            Some(t) => Some((t, Route::Provisional)),
            None => None,
        }
    }

    /// Sets the SSRC of the retransmission stream and gives the route that it takes.
    pub fn set_rtx_ssrc(&mut self, ssrc: u32) -> (r: Option<(u64, Route)>)
        ensures
            final(self)@ == (ReceiverView { rtx_ssrc: Some(ssrc), ..old(self)@ }),
            route_opt(r) == (match old(self)@.transport {
                Some(t) => Some((t, RouteView::Ssrc(ssrc))),
                None => None,
            }),
    {
        self.rtx_ssrc = Some(ssrc);
        match self.transport {
            Some(t) => Some((t, Route::Ssrc(ssrc))),
            None => None,
        }
    }

    fn payload_types(&self, apt: &HashMap<u8, u8>) -> (r: Vec<u8>)
        ensures
            r@ == self@.payload_types(apt@),
    {
        let mut list: Vec<u8> = Vec::new();
        list.push(self.params.payload_type);
        assert(list@ =~= seq![self@.params.payload_type]);
        assert(self@.payload_map.dom() =~= self.payload_map@.dom());
        add_types(add_codecs(list, &self.payload_map), apt)
    }

    /// Takes the retransmission payload types, unless there are none, and gives the route for all
    /// payload types that the receiver takes then.
    pub fn set_rtx_apt_map(&mut self, apt: HashMap<u8, u8>) -> (r: Option<(u64, Route)>)
        ensures
            apt@.dom() == Set::<u8>::empty() ==> r is None && final(self)@ == old(self)@,
            apt@.dom() != Set::<u8>::empty() ==> {
                &&& final(self)@ == (ReceiverView { rtx_apt: apt@, ..old(self)@ })
                &&& route_opt(r) == (match old(self)@.transport {
                    Some(t) => Some(
                        (t, RouteView::PayloadTypes(old(self)@.payload_types(apt@))),
                    ),
                    None => None,
                })
            },
    {
        if apt.len() == 0 {
            assert(apt@.dom() =~= Set::<u8>::empty()) by {
                vstd::set_lib::lemma_set_empty_equivalency_len(apt@.dom());
            }
            return None;
        }
        assert(apt@.dom().len() != 0);
        let all = self.payload_types(&apt);
        self.rtx_apt = apt;
        match self.transport {
            Some(t) => Some((t, Route::PayloadTypes(all))),
            None => None,
        }
    }

    /// Restores a packet that is a retransmission. None where it is one that cannot be restored:
    /// its payload type is not known as a retransmission type, the stream that it repairs is not
    /// known, or it is too short.
    pub fn maybe_unwrap_rtx(&self, packet: RtpPacket) -> (r: Option<RtpPacket>)
        ensures
            match self@.restored(packet@) {
                Some(q) => r matches Some(x) && x@ == q,
                None => r is None,
            },
    {
        match self.rtx_apt.get(&packet.header.payload_type) {
            Some(primary) => if self.ssrc == 0 {
                None
            } else {
                unwrap_rtx_packet(&packet, self.ssrc, *primary)
            },
            None => {
                let on_rtx = match self.rtx_ssrc {
                    Some(s) => s == packet.header.ssrc,
                    None => false,
                };
                if on_rtx {
                    None
                } else {
                    Some(packet)
                }
            },
        }
    }

    fn find_layer(&self, rid: &str) -> (r: Option<usize>)
        ensures
            match r {
                Some(i) => first(self@.simulcast, with_rid(rid@)) == Some(i as int) && i
                    < self@.simulcast.len(),
                None => first(self@.simulcast, with_rid(rid@)) is None,
            },
    {
        let ghost l = self@.simulcast;
        let mut i: usize = 0;
        while i < self.simulcast_tracks.len()
            invariant
                i <= self.simulcast_tracks@.len(),
                l == layers(self.simulcast_tracks@),
                first(l, with_rid(rid@)) == first_from(l, with_rid(rid@), i as int),
            decreases self.simulcast_tracks@.len() - i,
        {
            assert(l[i as int] == (
                self.simulcast_tracks@[i as int].rid@,
                self.simulcast_tracks@[i as int].ssrc,
            ));
            if same_text(self.simulcast_tracks[i].rid.as_str(), rid) {
                return Some(i);
            }
            i += 1;
        }
        None
    }

    /// Adds a simulcast layer, or starts one anew, and gives the route that it takes.
    pub fn add_simulcast_track(&mut self, rid: &str) -> (r: Option<(u64, Route)>)
        ensures
            final(self)@ == old(self)@.with_layer(rid@),
            route_opt(r) == (match old(self)@.transport {
                Some(t) => Some((t, RouteView::Rid(rid@))),
                None => None,
            }),
    {
        let ghost before = self@;
        let layer = Layer { rid: rid.to_owned(), ssrc: None };
        match self.find_layer(rid) {
            Some(i) => {
                self.simulcast_tracks.set(i, layer);
                assert(self@.simulcast =~= before.simulcast.update(i as int, (rid@, None)));
            },
            None => {
                self.simulcast_tracks.push(layer);
                assert(self@.simulcast =~= before.simulcast.push((rid@, None)));
            },
        }
        assert(self@ =~= before.with_layer(rid@));
        match self.transport {
            Some(t) => Some((t, Route::Rid(rid.to_owned()))),
            None => None,
        }
    }

    /// The simulcast layers.
    pub fn get_simulcast_rids(&self) -> (r: Vec<String>)
        ensures
            texts(r@) == self@.simulcast.map_values(|l: (Seq<char>, Option<u32>)| l.0),
    {
        let mut out: Vec<String> = Vec::new();
        let ghost want = self@.simulcast.map_values(|l: (Seq<char>, Option<u32>)| l.0);
        let mut i: usize = 0;
        while i < self.simulcast_tracks.len()
            invariant
                i <= self.simulcast_tracks@.len(),
                want == layers(self.simulcast_tracks@).map_values(
                    |l: (Seq<char>, Option<u32>)| l.0,
                ),
                texts(out@) == want.take(i as int),
            decreases self.simulcast_tracks@.len() - i,
        {
            let ghost before = out@;
            let rid = self.simulcast_tracks[i].rid.clone();
            out.push(rid);
            assert(texts(out@) =~= texts(before).push(rid@));
            i += 1;
            assert(want.take(i as int) =~= want.take(i - 1).push(want[i - 1]));
        }
        assert(want.take(i as int) =~= want);
        out
    }

    /// Whether a simulcast layer is known.
    pub fn has_simulcast_track(&self, rid: &str) -> (r: bool)
        ensures
            r == self@.has_track(Some(rid@)),
    {
        self.find_layer(rid).is_some()
    }

    /// Moves the receiver to a transport and gives the routes that it takes there, or nothing
    /// where it is on that transport already.
    pub fn set_transport(&mut self, transport: u64, announce: bool, owner: &Option<Owner>) -> (r:
        Option<Vec<Route>>)
        ensures
            old(self)@.transport == Some(transport) ==> r is None && final(self)@ == old(self)@,
            old(self)@.transport != Some(transport) ==> {
                &&& final(self)@ == old(self)@.on_transport(transport, announce)
                &&& r matches Some(v) && routes(v@) == final(self)@.initial_routes(
                    owner_opt(*owner),
                )
            },
    {
        let ghost before = self@;
        if let Some(t) = self.transport {
            if t == transport {
                return None;
            }
            self.track_event_sent = false;
            self.ssrc = 0;
        }
        self.transport = Some(transport);
        self.announce = announce;
        assert(self@ =~= before.on_transport(transport, announce));
        let mut out: Vec<Route> = Vec::new();
        proof {
            broadcast use routes_push;

        }
        assert(routes(out@) =~= Seq::<RouteView>::empty());
        if self.ssrc != 0 {
            out.push(Route::Ssrc(self.ssrc));
            assert(routes(out@) =~= seq![RouteView::Ssrc(self@.ssrc)]);
        }
        out.push(Route::Provisional);
        if let Some(o) = owner {
            if let Some(mid) = &o.mid {
                out.push(Route::Mid(mid.clone()));
            }
            out.push(Route::SdesMidExtension(o.sdes_mid_id));
        }
        out.push(Route::PayloadTypes(self.payload_types(&self.rtx_apt)));
        if let Some(s) = self.rtx_ssrc {
            out.push(Route::Ssrc(s));
        }
        let ghost start = routes(out@);
        let mut i: usize = 0;
        while i < self.simulcast_tracks.len()
            invariant
                i <= self.simulcast_tracks@.len(),
                layer_routes_from(self@.simulcast, 0, start) == layer_routes_from(
                    self@.simulcast,
                    i as int,
                    routes(out@),
                ),
            decreases self.simulcast_tracks@.len() - i,
        {
            proof {
                broadcast use routes_push;

            }
            assert(self@.simulcast[i as int] == (
                self.simulcast_tracks@[i as int].rid@,
                self.simulcast_tracks@[i as int].ssrc,
            ));
            out.push(Route::Rid(self.simulcast_tracks[i].rid.clone()));
            i += 1;
        }
        Some(out)
    }

    /// Sends a request in the name of the SSRC that feedback is sent with, where it is known.
    pub fn address_request(&self, nack: &mut GenericNack)
        ensures
            final(nack).sender_ssrc == (match self@.feedback_ssrc {
                Some(s) => if s != 0 {
                    s
                } else {
                    old(nack).sender_ssrc
                },
                None => old(nack).sender_ssrc,
            }),
            final(nack).media_ssrc == old(nack).media_ssrc,
            final(nack).lost_packets@ == old(nack).lost_packets@,
    {
        if let Some(s) = self.rtcp_feedback_ssrc {
            if s != 0 {
                nack.sender_ssrc = s;
            }
        }
    }

    /// What the receive loop does with a packet of the main track or of a simulcast layer.
    pub fn on_packet(&mut self, rid: Option<&str>, packet: RtpPacket) -> (r: PacketStep)
        ensures
            !old(self)@.has_track(rid_opt(rid)) ==> r is UnknownTrack && final(self)@ == old(self)@,
            old(self)@.has_track(rid_opt(rid)) && old(self)@.restored(packet@) is None
                ==> r is Dropped && final(self)@ == old(self)@,
            old(self)@.has_track(rid_opt(rid)) ==> (old(self)@.restored(packet@) matches Some(q)
                ==> {
                &&& final(self)@ == old(self)@.after_packet(rid_opt(rid), q)
                &&& r matches PacketStep::Received(x)
                &&& x.packet@ == q
                &&& x.clock_rate == old(self)@.clock_rate(q.header.payload_type)
                &&& x.announce == old(self)@.announces(rid_opt(rid), q.header.ssrc)
                &&& request_views(x.requests@) == old(self)@.requests(q)
            }),
    {
        let ghost before = self@;
        let layer: Option<usize> = match rid {
            Some(name) => match self.find_layer(name) {
                Some(i) => Some(i),
                None => {
                    return PacketStep::UnknownTrack;
                },
            },
            None => None,
        };
        let packet = match self.maybe_unwrap_rtx(packet) {
            Some(p) => p,
            None => {
                return PacketStep::Dropped;
            },
        };
        let ssrc: u32 = packet.header.ssrc;
        let mut announce = false;
        match layer {
            Some(i) => {
                if self.simulcast_tracks[i].ssrc.is_none() {
                    let name = self.simulcast_tracks[i].rid.clone();
                    self.simulcast_tracks.set(i, Layer { rid: name, ssrc: Some(ssrc) });
                    assert(self@.simulcast =~= before.simulcast.update(
                        i as int,
                        (before.simulcast[i as int].0, Some(ssrc)),
                    ));
                }
            },
            None => {
                let known: u32 = self.ssrc;
                if known != ssrc {
                    self.ssrc = ssrc;
                    if known == 0 {
                        announce = !self.track_event_sent && self.announce;
                        self.track_event_sent = true;
                    }
                }
            },
        }
        assert(self@ =~= before.latched(rid_opt(rid), ssrc));
        let ghost start = self@;
        let ghost feedback: u32 = match start.feedback_ssrc {
            Some(s) => s,
            None => 0,
        };
        let ghost q = packet@;
        let ghost seq = q.header.sequence_number;
        let mut requests: Vec<GenericNack> = Vec::new();
        assert(start.nacks.take(0) =~= Seq::<ReceiverNackView>::empty());
        assert(request_views(requests@) =~= Seq::<RequestView>::empty());
        let mut i: usize = 0;
        while i < self.nacks.len()
            invariant
                i <= self.nacks@.len(),
                q == packet@,
                seq == q.header.sequence_number,
                feedback == (match start.feedback_ssrc {
                    Some(s) => s,
                    None => 0,
                }),
                self@ == (ReceiverView { nacks: self@.nacks, ..start }),
                self@.nacks.len() == start.nacks.len(),
                request_views(requests@) == requests_of(start.nacks.take(i as int), feedback, q),
                forall|j: int|
                    0 <= j < self@.nacks.len() ==> (#[trigger] self@.nacks[j]) == (if j < i {
                        start.nacks[j].after(seq, q.header.ssrc)
                    } else {
                        start.nacks[j]
                    }),
            decreases self.nacks@.len() - i,
        {
            let ghost r0 = self@;
            let ghost list = requests@;
            assert(r0.nacks[i as int] == self.nacks@[i as int]@);
            assert(start.nacks.take(i + 1).drop_last() =~= start.nacks.take(i as int));
            if let Some(mut n) = self.nacks[i].on_packet_received(&packet) {
                self.address_request(&mut n);
                requests.push(n);
                assert(request_views(requests@) =~= request_views(list).push(
                    RequestView {
                        sender_ssrc: n.sender_ssrc,
                        media_ssrc: n.media_ssrc,
                        lost: n.lost_packets@,
                    },
                ));
            }
            assert(self@ =~= (ReceiverView { nacks: self@.nacks, ..start }));
            assert(self@.nacks =~= r0.nacks.update(
                i as int,
                start.nacks[i as int].after(seq, q.header.ssrc),
            ));
            i += 1;
        }
        assert(start.nacks.take(i as int) =~= start.nacks);
        assert(self@.nacks =~= start.nacks.map_values(
            |n: ReceiverNackView| n.after(seq, q.header.ssrc),
        ));
        let clock_rate = self.clock_rate_for_payload_type(packet.header.payload_type);
        assert(self@ =~= before.after_packet(rid_opt(rid), packet@));
        PacketStep::Received(Received { packet, clock_rate, announce, requests })
    }

    /// The request for a key frame of a track, where its stream is known and there is a transport
    /// to ask on.
    pub fn on_key_frame_request(&self, rid: Option<&str>) -> (r: Option<(
        u64,
        PictureLossIndication,
    )>)
        ensures
            r is Some <==> self@.transport is Some && self@.key_frame_ssrc(rid_opt(rid)) is Some,
            r matches Some(x) ==> {
                &&& self@.transport == Some(x.0)
                &&& self@.key_frame_ssrc(rid_opt(rid)) == Some(x.1.media_ssrc)
                &&& x.1.sender_ssrc == (match self@.feedback_ssrc {
                    Some(s) => s,
                    None => 0,
                })
            },
    {
        let media: Option<u32> = match rid {
            None => Some(self.ssrc),
            Some(name) => match self.find_layer(name) {
                Some(i) => {
                    assert(self@.simulcast[i as int].1 == self.simulcast_tracks@[i as int].ssrc);
                    self.simulcast_tracks[i].ssrc
                },
                None => None,
            },
        };
        let sender_ssrc: u32 = match self.rtcp_feedback_ssrc {
            Some(s) => s,
            None => 0,
        };
        match (self.transport, media) {
            (Some(t), Some(media_ssrc)) => Some(
                (t, PictureLossIndication { sender_ssrc, media_ssrc }),
            ),
            _ => None,
        }
    }

    /// The NACK for packets that the application misses, and the transport to send it on.
    pub fn send_nack(&self, lost_packets: Vec<u16>) -> (r: RtcResult<(u64, GenericNack)>)
        ensures
            r is Ok <==> self@.transport is Some,
            r matches Ok(x) ==> {
                &&& self@.transport == Some(x.0)
                &&& x.1.media_ssrc == self@.ssrc
                &&& x.1.sender_ssrc == (match self@.feedback_ssrc {
                    Some(s) => s,
                    None => self@.ssrc,
                })
                &&& x.1.lost_packets@ == lost_packets@
            },
            r matches Err(e) ==> e@ == RtcErrorView::InvalidState("Transport not set"@),
    {
        match self.transport {
            Some(t) => {
                let sender_ssrc: u32 = match self.rtcp_feedback_ssrc {
                    Some(s) => s,
                    None => self.ssrc,
                };
                Ok((t, GenericNack { sender_ssrc, media_ssrc: self.ssrc, lost_packets }))
            },
            None => Err(RtcError::invalid_state("Transport not set")),
        }
    }

    /// The requests for a key frame of the main track, in both forms, and the transport to send
    /// them on.
    pub fn request_key_frame(&mut self) -> (r: RtcResult<(
        u64,
        FullIntraRequest,
        PictureLossIndication,
    )>)
        ensures
            r is Ok <==> old(self)@.transport is Some,
            r matches Ok(x) ==> {
                let sender = match old(self)@.feedback_ssrc {
                    Some(s) => s,
                    None => old(self)@.ssrc,
                };
                &&& old(self)@.transport == Some(x.0)
                &&& x.1.sender_ssrc == sender
                &&& x.1.requests@ == seq![
                    FirRequest { ssrc: old(self)@.ssrc, sequence_number: old(self)@.fir_seq },
                ]
                &&& x.2.sender_ssrc == sender
                &&& x.2.media_ssrc == old(self)@.ssrc
                &&& final(self)@ == (ReceiverView {
                    fir_seq: old(self)@.fir_seq.wrapping_add(1),
                    ..old(self)@
                })
            },
            r matches Err(e) ==> e@ == RtcErrorView::InvalidState("Transport not set"@) && final(self)@ == old(self)@,
    {
        match self.transport {
            Some(t) => {
                let sender_ssrc: u32 = match self.rtcp_feedback_ssrc {
                    Some(s) => s,
                    None => self.ssrc,
                };
                let seq: u8 = self.fir_seq;
                self.fir_seq = seq.wrapping_add(1);
                let mut requests: Vec<FirRequest> = Vec::new();
                requests.push(FirRequest { ssrc: self.ssrc, sequence_number: seq });
                Ok(
                    (
                        t,
                        FullIntraRequest { sender_ssrc, requests },
                        PictureLossIndication { sender_ssrc, media_ssrc: self.ssrc },
                    ),
                )
            },
            None => Err(RtcError::invalid_state("Transport not set")),
        }
    }
}

/// While what was negotiated stays, the cache gives the negotiated clock rate.
pub proof fn cached_clock_rate_is_negotiated(v: ReceiverView, pt: u8)
    requires
        v.cache_is_fresh(),
    ensures
        v.clock_rate(pt) == v.negotiated_rate(pt),
        v.after_clock_rate(pt).cache_is_fresh(),
{
}

/// Retransmissions never reach the depacketiser as such: what is passed on of a packet with a
/// retransmission payload type, or on the retransmission stream, is a packet of the stream that
/// it repairs.
pub proof fn retransmissions_are_restored_or_dropped(v: ReceiverView, p: PacketView)
    requires
        v.rtx_apt.contains_key(p.header.payload_type) || v.rtx_ssrc == Some(p.header.ssrc),
    ensures
        v.restored(p) matches Some(q) ==> {
            &&& v.rtx_apt.contains_key(p.header.payload_type)
            &&& q.header.payload_type == v.rtx_apt[p.header.payload_type]
            &&& q.header.ssrc == v.ssrc
            &&& v.ssrc != 0
        },
{
}

/// A packet that is no retransmission is passed on as it came.
pub proof fn media_passes_unchanged(v: ReceiverView, p: PacketView)
    requires
        !v.rtx_apt.contains_key(p.header.payload_type),
        v.rtx_ssrc != Some(p.header.ssrc),
    ensures
        v.restored(p) == Some(p),
{
}

/// On one transport a track is told of at most once: after it was, no packet tells of it again.
pub proof fn track_is_announced_once(
    v: ReceiverView,
    rid: Option<Seq<char>>,
    q: PacketView,
    next_rid: Option<Seq<char>>,
    next: u32,
)
    requires
        v.announces(rid, q.header.ssrc) || v.track_event_sent,
    ensures
        v.after_packet(rid, q).track_event_sent,
        !v.after_packet(rid, q).announces(next_rid, next),
{
}

/// The first packet after a change of transport tells of the track again; the first transport
/// leaves what is known of the stream.
pub proof fn transport_change_announces_again(
    v: ReceiverView,
    transport: u64,
    ssrc: u32,
)
    requires
        ssrc != 0,
    ensures
        v.transport is Some ==> v.on_transport(transport, true).announces(None, ssrc),
        v.transport is None ==> v.on_transport(transport, true).ssrc == v.ssrc && v.on_transport(
            transport,
            true,
        ).track_event_sent == v.track_event_sent,
{
}

proof fn layer_routes_follow(l: Seq<(Seq<char>, Option<u32>)>, k: int, acc: Seq<RouteView>)
    requires
        0 <= k <= l.len(),
    ensures
        ({
            let r = layer_routes_from(l, k, acc);
            &&& r.len() == acc.len() + l.len() - k
            &&& forall|i: int| 0 <= i < acc.len() ==> #[trigger] r[i] == acc[i]
            &&& forall|i: int|
                acc.len() <= i < r.len() ==> #[trigger] r[i] == RouteView::Rid(
                    l[k + i - acc.len()].0,
                )
        }),
    decreases l.len() - k,
{
    if k < l.len() {
        let next = acc.push(RouteView::Rid(l[k].0));
        layer_routes_follow(l, k + 1, next);
        let r = layer_routes_from(l, k, acc);
        assert forall|i: int| 0 <= i < acc.len() implies #[trigger] r[i] == acc[i] by {
            assert(r[i] == next[i]);
        }
        assert(r[acc.len() as int] == next[acc.len() as int]);
    }
}

/// The routes of a receiver end with one for each simulcast layer, under its name and in order, and
/// no other route is that of a layer.
pub proof fn every_layer_has_its_route(v: ReceiverView, owner: Option<OwnerView>)
    ensures
        ({
            let r = v.initial_routes(owner);
            let n = r.len() - v.simulcast.len();
            &&& n >= 0
            &&& forall|i: int|
                0 <= i < v.simulcast.len() ==> #[trigger] r[n + i] == RouteView::Rid(
                    v.simulcast[i].0,
                )
            &&& forall|i: int| 0 <= i < n ==> !(#[trigger] r[i] is Rid)
            &&& forall|i: int|
                0 <= i < v.simulcast.len() ==> r.contains(
                    RouteView::Rid((#[trigger] v.simulcast[i]).0),
                )
            &&& forall|name: Seq<char>|
                #[trigger] r.contains(RouteView::Rid(name)) ==> exists|i: int|
                    0 <= i < v.simulcast.len() && (#[trigger] v.simulcast[i]).0 == name
        }),
{
    let r = v.initial_routes(owner);
    let a: Seq<RouteView> = if v.ssrc != 0 {
        seq![RouteView::Ssrc(v.ssrc)]
    } else {
        seq![]
    };
    let b = a.push(RouteView::Provisional);
    let c = match owner {
        Some(o) => {
            let m = match o.mid {
                Some(mid) => b.push(RouteView::Mid(mid)),
                None => b,
            };
            m.push(RouteView::SdesMidExtension(o.sdes_mid_id))
        },
        None => b,
    };
    let d = c.push(RouteView::PayloadTypes(v.payload_types(v.rtx_apt)));
    let e = match v.rtx_ssrc {
        Some(s) => d.push(RouteView::Ssrc(s)),
        None => d,
    };
    layer_routes_follow(v.simulcast, 0, e);
    assert forall|i: int| 0 <= i < v.simulcast.len() implies r.contains(
        RouteView::Rid((#[trigger] v.simulcast[i]).0),
    ) by {
        assert(r[e.len() + i] == RouteView::Rid(v.simulcast[i].0));
    }
    assert forall|name: Seq<char>| #[trigger] r.contains(RouteView::Rid(name)) implies exists|
        i: int,
    |
        0 <= i < v.simulcast.len() && (#[trigger] v.simulcast[i]).0 == name by {
        let j = r.index_of(RouteView::Rid(name));
        assert(r[j] == RouteView::Rid(name));
        assert(j >= e.len());
        assert(v.simulcast[j - e.len()].0 == name);
    }
}

/// Adding payload types to a list adds those that it lacks, each once.
pub proof fn types_are_added(list: Seq<u8>, types: Set<u8>, k: int, t: u8)
    requires
        0 <= k,
        list.no_duplicates(),
    ensures
        types_from(list, types, k).contains(t) <==> list.contains(t) || (k <= t && types.contains(
            t,
        )),
        types_from(list, types, k).no_duplicates(),
    decreases 256 - k,
{
    if k <= 255 {
        let x = k as u8;
        if types.contains(x) && !list.contains(x) {
            let next = list.push(x);
            types_are_added(next, types, k + 1, t);
            if list.contains(t) {
                assert(next[list.index_of(t)] == t);
            }
            assert(next[list.len() as int] == x);
            if next.contains(t) && t != x {
                assert(list[next.index_of(t)] == t);
            }
        } else {
            types_are_added(list, types, k + 1, t);
        }
    }
}

/// A receiver listens to the payload types that it expects, that were negotiated and that
/// retransmissions have, and to no others, each once.
pub proof fn payload_types_are_listened_to(v: ReceiverView, apt: Map<u8, u8>, t: u8)
    ensures
        v.payload_types(apt).contains(t) <==> t == v.params.payload_type
            || v.payload_map.contains_key(t) || apt.contains_key(t),
        v.payload_types(apt).no_duplicates(),
{
    let a = seq![v.params.payload_type];
    types_are_added(a, v.payload_map.dom(), 0, t);
    types_are_added(types_from(a, v.payload_map.dom(), 0), apt.dom(), 0, t);
    assert(a[0] == v.params.payload_type);
}

/// A receiver takes unknown streams, and beside its layers the streams, the mid and the payload
/// types that it knows, and nothing else.
pub proof fn receivers_take_what_they_know(v: ReceiverView, owner: Option<OwnerView>)
    ensures
        ({
            let r = v.initial_routes(owner);
            &&& r.contains(RouteView::Provisional)
            &&& forall|s: u32| #[trigger]
                r.contains(RouteView::Ssrc(s)) <==> (s == v.ssrc && s != 0) || v.rtx_ssrc == Some(s)
            &&& forall|m: Seq<char>| #[trigger]
                r.contains(RouteView::Mid(m)) <==> owner is Some && owner->0.mid == Some(m)
            &&& forall|p: Seq<u8>| #[trigger]
                r.contains(RouteView::PayloadTypes(p)) <==> p == v.payload_types(v.rtx_apt)
            &&& forall|x: Option<u8>| #[trigger]
                r.contains(RouteView::SdesMidExtension(x)) <==> owner is Some
                    && owner->0.sdes_mid_id == x
        }),
{
    every_layer_has_its_route(v, owner);
    let r = v.initial_routes(owner);
    let n = r.len() - v.simulcast.len();
    let a: Seq<RouteView> = if v.ssrc != 0 {
        seq![RouteView::Ssrc(v.ssrc)]
    } else {
        seq![]
    };
    let b = a.push(RouteView::Provisional);
    let c = match owner {
        Some(o) => {
            let m = match o.mid {
                Some(mid) => b.push(RouteView::Mid(mid)),
                None => b,
            };
            m.push(RouteView::SdesMidExtension(o.sdes_mid_id))
        },
        None => b,
    };
    let d = c.push(RouteView::PayloadTypes(v.payload_types(v.rtx_apt)));
    let e = match v.rtx_ssrc {
        Some(s) => d.push(RouteView::Ssrc(s)),
        None => d,
    };
    layer_routes_follow(v.simulcast, 0, e);
    assert(forall|i: int| 0 <= i < e.len() ==> #[trigger] r[i] == e[i]);
    assert forall|x: RouteView| !(x is Rid) implies (#[trigger] r.contains(x) <==> e.contains(x)) by {
        if e.contains(x) {
            assert(r[e.index_of(x)] == x);
        }
        if r.contains(x) {
            let j = r.index_of(x);
            assert(j < e.len());
            assert(e[j] == x);
        }
    }
    assert(e[a.len() as int] == RouteView::Provisional);
    assert(e.contains(RouteView::Provisional));
    assert(e[c.len() as int] == RouteView::PayloadTypes(v.payload_types(v.rtx_apt)));
    if v.ssrc != 0 {
        assert(e[0] == RouteView::Ssrc(v.ssrc));
    }
    if let Some(s) = v.rtx_ssrc {
        assert(e[d.len() as int] == RouteView::Ssrc(s));
    }
    if let Some(o) = owner {
        assert(e[c.len() - 1] == RouteView::SdesMidExtension(o.sdes_mid_id));
        if let Some(mid) = o.mid {
            assert(e[b.len() as int] == RouteView::Mid(mid));
        }
    }
}

/// A retransmission of a stream that is known is restored: its number is the one that the payload
/// begins with, and what follows that is the payload.
pub proof fn retransmissions_are_read(v: ReceiverView, p: PacketView)
    requires
        v.rtx_apt.contains_key(p.header.payload_type),
        v.ssrc != 0,
        p.payload.len() >= 2,
    ensures
        v.restored(p) matches Some(q) && q.header.sequence_number == p.payload[0] as int * 256
            + p.payload[1] as int && q.payload == p.payload.skip(2) && q.header.timestamp
            == p.header.timestamp && q.header.marker == p.header.marker && q.header.ssrc == v.ssrc
            && q.header.payload_type == v.rtx_apt[p.header.payload_type],
{
    crate::rtx::retransmissions_are_undone(p, v.ssrc, v.rtx_apt[p.header.payload_type]);
}

/// The main track is on the stream that was seen last, a simulcast layer on the first one that was
/// seen of it; a request for a key frame names that stream.
pub proof fn streams_are_latched(v: ReceiverView, name: Seq<char>, ssrc: u32, i: int)
    requires
        0 <= i < v.simulcast.len(),
        v.simulcast[i].0 == name,
        forall|j: int| 0 <= j < i ==> (#[trigger] v.simulcast[j]).0 != name,
    ensures
        v.latched(None, ssrc).ssrc == ssrc,
        v.latched(None, ssrc).simulcast == v.simulcast,
        v.latched(None, ssrc).key_frame_ssrc(None) == Some(ssrc),
        v.latched(Some(name), ssrc).ssrc == v.ssrc,
        v.latched(Some(name), ssrc).simulcast[i].0 == name,
        v.latched(Some(name), ssrc).simulcast[i].1 == (match v.simulcast[i].1 {
            Some(old) => Some(old),
            None => Some(ssrc),
        }),
        v.latched(Some(name), ssrc).key_frame_ssrc(Some(name)) == v.latched(
            Some(name),
            ssrc,
        ).simulcast[i].1,
        forall|j: int|
            0 <= j < v.simulcast.len() && j != i ==> #[trigger] v.latched(
                Some(name),
                ssrc,
            ).simulcast[j] == v.simulcast[j],
        v.has_track(Some(name)) && v.has_track(None),
{
    crate::search::first_from_facts(v.simulcast, with_rid(name), 0);
    assert(with_rid(name)(v.simulcast[i]));
    let a = first(v.simulcast, with_rid(name))->0;
    assert(with_rid(name)(v.simulcast[a]));
    assert(a == i);
    let l = v.latched(Some(name), ssrc);
    crate::search::first_from_facts(l.simulcast, with_rid(name), 0);
    assert(with_rid(name)(l.simulcast[i]));
    let b = first(l.simulcast, with_rid(name))->0;
    assert(with_rid(name)(l.simulcast[b]));
    if b < i {
        assert(l.simulcast[b] == v.simulcast[b]);
    }
    assert(b == i);
}

/// A layer that is added is known, and nothing was seen of it; the others stay.
pub proof fn layers_are_added_once(v: ReceiverView, rid: Seq<char>, other: Seq<char>)
    ensures
        v.with_layer(rid).has_track(Some(rid)),
        v.with_layer(rid).key_frame_ssrc(Some(rid)) is None,
        other != rid ==> v.with_layer(rid).has_track(Some(other)) == v.has_track(Some(other)),
        v.has_track(Some(rid)) ==> v.with_layer(rid).simulcast.len() == v.simulcast.len(),
        !v.has_track(Some(rid)) ==> v.with_layer(rid).simulcast == v.simulcast.push((rid, None)),
        v.with_layer(rid).ssrc == v.ssrc && v.with_layer(rid).payload_map == v.payload_map,
{
    let w = v.with_layer(rid);
    crate::search::first_from_facts(v.simulcast, with_rid(rid), 0);
    crate::search::first_from_facts(w.simulcast, with_rid(rid), 0);
    crate::search::first_from_facts(v.simulcast, with_rid(other), 0);
    crate::search::first_from_facts(w.simulcast, with_rid(other), 0);
    let at = match first(v.simulcast, with_rid(rid)) {
        Some(i) => i,
        None => v.simulcast.len() as int,
    };
    assert(w.simulcast[at] == (rid, None::<u32>));
    assert(with_rid(rid)(w.simulcast[at]));
    let b = first(w.simulcast, with_rid(rid))->0;
    assert(with_rid(rid)(w.simulcast[b]));
    if b < at {
        assert(w.simulcast[b] == v.simulcast[b]);
        assert(with_rid(rid)(v.simulcast[b]));
    }
    assert(b == at);
    if other != rid {
        if let Some(i) = first(v.simulcast, with_rid(other)) {
            assert(with_rid(other)(v.simulcast[i]));
            assert(i != at) by {
                if first(v.simulcast, with_rid(rid)) is Some {
                    assert(with_rid(rid)(v.simulcast[at]));
                }
            }
            assert(w.simulcast[i] == v.simulcast[i]);
            assert(with_rid(other)(w.simulcast[i]));
        }
        if let Some(i) = first(w.simulcast, with_rid(other)) {
            assert(with_rid(other)(w.simulcast[i]));
            assert(i != at);
            assert(w.simulcast[i] == v.simulcast[i]);
            assert(with_rid(other)(v.simulcast[i]));
        }
    }
}

/// A handler that notices a gap asks the source of the packet, in our name, for the numbers that
/// are missing; one that does not asks for nothing.
pub proof fn gaps_are_asked_of_the_source(v: ReceiverView, q: PacketView)
    requires
        v.nacks.len() == 1,
    ensures
        v.nacks[0].leaves_gap(q.header.sequence_number, q.header.ssrc) ==> v.requests(q).len() == 1
            && v.requests(q)[0].media_ssrc == q.header.ssrc && v.requests(q)[0].lost == missing(
            v.nacks[0].last_seq,
            q.header.sequence_number,
        ) && (v.feedback_ssrc matches Some(s) ==> v.requests(q)[0].sender_ssrc == s) && (
        v.feedback_ssrc is None ==> v.requests(q)[0].sender_ssrc == 0),
        !v.nacks[0].leaves_gap(q.header.sequence_number, q.header.ssrc) ==> v.requests(q).len()
            == 0,
{
    reveal_with_fuel(requests_of, 3);
}

/// A packet that was read sets the clock rate of its payload type, updates every handler with its
/// number and stream, and keeps what was negotiated.
pub proof fn packets_are_taken_account_of(v: ReceiverView, rid: Option<Seq<char>>, q: PacketView, i: int)
    requires
        v.cache_is_fresh(),
        0 <= i < v.nacks.len(),
    ensures
        ({
            let w = v.after_packet(rid, q);
            &&& w.cache_pt == q.header.payload_type
            &&& w.cache_rate == v.negotiated_rate(q.header.payload_type)
            &&& w.nacks.len() == v.nacks.len()
            &&& w.nacks[i] == v.nacks[i].after(q.header.sequence_number, q.header.ssrc)
            &&& w.payload_map == v.payload_map && w.params == v.params && w.rtx_apt == v.rtx_apt
                && w.rtx_ssrc == v.rtx_ssrc && w.transport == v.transport && w.feedback_ssrc
                == v.feedback_ssrc
            &&& rid is None ==> w.ssrc == q.header.ssrc
            &&& rid is Some ==> w.ssrc == v.ssrc
        }),
        v.payload_map.contains_key(q.header.payload_type) ==> v.negotiated_rate(
            q.header.payload_type,
        ) == v.payload_map[q.header.payload_type].clock_rate,
        !v.payload_map.contains_key(q.header.payload_type) ==> v.negotiated_rate(
            q.header.payload_type,
        ) == v.params.clock_rate,
{
}

} // verus!

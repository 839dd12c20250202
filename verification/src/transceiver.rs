//! A media stream in both directions.

use crate::codec::codecs;
use crate::codec::find_extension_id;
use crate::codec::find_extension_id_with_part;
use crate::codec::has_uri_part;
use crate::codec::id_from;
use crate::codec::is_uri;
use crate::codec::uris;
use crate::codec::CodecView;
use crate::codec::RtpCodecParameters;
use crate::direction::TransceiverDirection;
use crate::receiver::route_opt;
use crate::receiver::routes;
use crate::receiver::types_from;
use crate::receiver::Owner;
use crate::receiver::OwnerView;
use crate::receiver::ReceiverView;
use crate::receiver::Route;
use crate::receiver::RouteView;
use crate::receiver::RtpReceiver;
use crate::rtx::RtxSenderConfig;
use crate::sdp::MediaKind;
use crate::sender::mid_opt;
use crate::sender::RtpSender;
use crate::sender::SendLoop;
use crate::sender::SenderView;
use crate::text::clone_text_opt;
use crate::text::text_opt;
use std::collections::HashMap;
use vstd::prelude::*;

verus! {

broadcast use vstd::std_specs::hash::group_hash_axioms;

/// The extension that carries the mid.
pub open spec fn sdes_mid_uri() -> Seq<char> {
    "urn:ietf:params:rtp-hdrext:sdes:mid"@
}

/// The extension that carries the absolute send time.
pub open spec fn abs_send_time_uri() -> Seq<char> {
    "http://www.webrtc.org/experiments/rtp-hdrext/abs-send-time"@
}

/// The model of a transceiver.
#[verifier::ext_equal]
pub struct TransceiverView {
    pub id: u64,
    pub kind: MediaKind,
    /// The direction that was last negotiated or set.
    pub direction: TransceiverDirection,
    /// The direction that we want, and offer.
    pub desired: TransceiverDirection,
    pub mid: Option<Seq<char>>,
    pub sender: Option<SenderView>,
    pub receiver: Option<ReceiverView>,
    pub transport: Option<u64>,
    /// The fax transport.
    pub udtl: Option<u64>,
    pub sender_ssrc: Option<u32>,
    pub sender_rtx_ssrc: Option<u32>,
    pub sender_rtx_payload_type: Option<u8>,
    pub sender_stream_id: Option<Seq<char>>,
    pub sender_track_id: Option<Seq<char>>,
    pub payload_map: Map<u8, CodecView>,
    pub extmap: Map<u8, Seq<char>>,
    /// A mid extension that waits for a sender.
    pub pending_sdes_mid: Option<(u8, Seq<char>)>,
    /// The last complete negotiation lets us send.
    pub send_permitted: bool,
}

/// A media stream in both directions.
pub struct RtpTransceiver {
    id: u64,
    kind: MediaKind,
    direction: TransceiverDirection,
    desired_direction: TransceiverDirection,
    mid: Option<String>,
    sender: Option<RtpSender>,
    receiver: Option<RtpReceiver>,
    rtp_transport: Option<u64>,
    udtl_transport: Option<u64>,
    sender_ssrc: Option<u32>,
    sender_rtx_ssrc: Option<u32>,
    sender_rtx_payload_type: Option<u8>,
    sender_stream_id: Option<String>,
    sender_track_id: Option<String>,
    payload_map: HashMap<u8, RtpCodecParameters>,
    extmap: HashMap<u8, String>,
    pending_sdes_mid: Option<(u8, String)>,
    send_permitted: bool,
}

/// The model of an optional sender.
pub open spec fn sender_opt(s: Option<RtpSender>) -> Option<SenderView> {
    match s {
        Some(x) => Some(x@),
        None => None,
    }
}

/// The model of an optional receiver.
pub open spec fn receiver_opt(r: Option<RtpReceiver>) -> Option<ReceiverView> {
    match r {
        Some(x) => Some(x@),
        None => None,
    }
}

impl View for RtpTransceiver {
    type V = TransceiverView;

    closed spec fn view(&self) -> TransceiverView {
        TransceiverView {
            id: self.id,
            kind: self.kind,
            direction: self.direction,
            desired: self.desired_direction,
            mid: text_opt(self.mid),
            sender: sender_opt(self.sender),
            receiver: receiver_opt(self.receiver),
            transport: self.rtp_transport,
            udtl: self.udtl_transport,
            sender_ssrc: self.sender_ssrc,
            sender_rtx_ssrc: self.sender_rtx_ssrc,
            sender_rtx_payload_type: self.sender_rtx_payload_type,
            sender_stream_id: text_opt(self.sender_stream_id),
            sender_track_id: text_opt(self.sender_track_id),
            payload_map: codecs(self.payload_map@),
            extmap: uris(self.extmap@),
            pending_sdes_mid: mid_opt(self.pending_sdes_mid),
            send_permitted: self.send_permitted,
        }
    }
}

/// The model of a list of transceivers.
pub open spec fn transceivers(v: Seq<RtpTransceiver>) -> Seq<TransceiverView> {
    v.map_values(|t: RtpTransceiver| t@)
}

/// A transceiver that was just made.
pub open spec fn fresh_transceiver(
    id: u64,
    kind: MediaKind,
    direction: TransceiverDirection,
) -> TransceiverView {
    TransceiverView {
        id,
        kind,
        direction,
        desired: direction,
        mid: None,
        sender: None,
        receiver: None,
        transport: None,
        udtl: None,
        sender_ssrc: None,
        sender_rtx_ssrc: None,
        sender_rtx_payload_type: None,
        sender_stream_id: None,
        sender_track_id: None,
        payload_map: Map::empty(),
        extmap: Map::empty(),
        pending_sdes_mid: None,
        send_permitted: true,
    }
}

impl TransceiverView {
    /// The sender is in order.
    pub open spec fn wf(self) -> bool {
        self.sender matches Some(s) ==> s.wf()
    }

    /// The transceiver with another sender, if it has one, that may send or not.
    pub open spec fn permitted(self, permitted: bool) -> TransceiverView {
        TransceiverView {
            send_permitted: permitted,
            sender: match self.sender {
                Some(s) => Some(SenderView { send_enabled: permitted, ..s }),
                None => None,
            },
            ..self
        }
    }

    /// The identifier of the mid extension that was negotiated.
    pub open spec fn sdes_mid_id(self) -> Option<u8> {
        id_from(self.extmap, is_uri(sdes_mid_uri()), 0)
    }

    /// The mid extension that a sender gets: one that waits, else the negotiated one.
    pub open spec fn mid_for_sender(self) -> Option<(u8, Seq<char>)> {
        match self.pending_sdes_mid {
            Some(m) => Some(m),
            None => match (self.sdes_mid_id(), self.mid) {
                (Some(id), Some(mid)) => Some((id, mid)),
                _ => None,
            },
        }
    }

    /// The sender as it is connected to the transceiver.
    pub open spec fn connected_sender(self, s: SenderView) -> SenderView {
        let a = SenderView { send_enabled: self.send_permitted, ..s };
        let b = match self.transport {
            Some(t) => if a.transport == Some(t) {
                a
            } else {
                SenderView {
                    transport: Some(t),
                    generation: a.generation.wrapping_add(1),
                    ..a
                }
            },
            None => a,
        };
        let c = match (self.sender_rtx_ssrc, self.sender_rtx_payload_type) {
            (Some(ssrc), Some(pt)) => b.with_rtx(
                Some(RtxSenderConfig { rtx_ssrc: ssrc, rtx_payload_type: pt }),
            ),
            _ => b,
        };
        match self.mid_for_sender() {
            Some(m) => SenderView { sdes_mid: Some(m), ..c },
            None => c,
        }
    }

    /// The transceiver with a sender.
    pub open spec fn with_sender(self, s: SenderView) -> TransceiverView {
        TransceiverView {
            sender: Some(self.connected_sender(s)),
            sender_ssrc: Some(s.ssrc),
            sender_stream_id: Some(s.stream_id),
            sender_track_id: Some(s.track_id),
            pending_sdes_mid: None,
            ..self
        }
    }

    /// The transceiver with negotiated codecs. A receiver that shares them has them too; one with
    /// codecs of its own keeps those.
    pub open spec fn with_payload_map(self, m: Map<u8, CodecView>) -> TransceiverView {
        TransceiverView {
            payload_map: m,
            receiver: match self.receiver {
                Some(r) => Some(
                    if r.shares_map {
                        ReceiverView { payload_map: m, ..r }
                    } else {
                        r
                    },
                ),
                None => None,
            },
            ..self
        }
    }

    /// The transceiver with a receiver. One that shares the negotiated codecs has those of the
    /// transceiver.
    pub open spec fn with_receiver(self, receiver: Option<ReceiverView>) -> TransceiverView {
        TransceiverView { receiver, ..self }.with_payload_map(self.payload_map)
    }

    /// The transceiver with negotiated header extensions.
    pub open spec fn with_extmap(self, m: Map<u8, Seq<char>>) -> TransceiverView {
        let t = TransceiverView { extmap: m, ..self };
        match (t.sdes_mid_id(), t.mid) {
            (Some(id), Some(mid)) => match t.sender {
                Some(s) => TransceiverView {
                    sender: Some(SenderView { sdes_mid: Some((id, mid)), ..s }),
                    ..t
                },
                None => TransceiverView { pending_sdes_mid: Some((id, mid)), ..t },
            },
            _ => t,
        }
    }

    /// A receiver that a transport can hand packets to.
    pub open spec fn listens(self) -> bool {
        self.receiver matches Some(r) && r.transport is Some
    }

    /// What its receiver needs to know to be routed to.
    pub open spec fn owner(self) -> OwnerView {
        OwnerView { mid: self.mid, sdes_mid_id: self.sdes_mid_id() }
    }
}

/// A direction as it is offered while there is nothing to send.
pub open spec fn record_offered(
    desired: TransceiverDirection,
    offered: TransceiverDirection,
) -> TransceiverDirection {
    if offered != desired && offered != desired.spec_without_sending() {
        offered
    } else {
        desired
    }
}

impl RtpTransceiver {
    /// A transceiver without a mid, a sender or a receiver.
    pub fn new(id: u64, kind: MediaKind, direction: TransceiverDirection) -> (r: Self)
        ensures
            r@ == fresh_transceiver(id, kind, direction),
    {
        let r = RtpTransceiver {
            id,
            kind,
            direction,
            desired_direction: direction,
            mid: None,
            sender: None,
            receiver: None,
            rtp_transport: None,
            udtl_transport: None,
            sender_ssrc: None,
            sender_rtx_ssrc: None,
            sender_rtx_payload_type: None,
            sender_stream_id: None,
            sender_track_id: None,
            payload_map: HashMap::new(),
            extmap: HashMap::new(),
            pending_sdes_mid: None,
            send_permitted: true,
        };
        assert(r@ =~= fresh_transceiver(id, kind, direction));
        r
    }

    /// A transceiver that belongs to no connection.
    pub fn new_for_test(kind: MediaKind, direction: TransceiverDirection) -> (r: Self)
        ensures
            r@ == fresh_transceiver(0, kind, direction),
    {
        Self::new(0, kind, direction)
    }

    /// The identifier.
    pub fn id(&self) -> (r: u64)
        ensures
            r == self@.id,
    {
        self.id
    }

    /// The kind.
    pub fn kind(&self) -> (r: MediaKind)
        ensures
            r == self@.kind,
    {
        self.kind
    }

    /// The SSRC that the sender has or will have.
    pub fn sender_ssrc(&self) -> (r: Option<u32>)
        ensures
            r == self@.sender_ssrc,
    {
        self.sender_ssrc
    }

    /// The SSRC of the retransmission stream that we send.
    pub fn sender_rtx_ssrc(&self) -> (r: Option<u32>)
        ensures
            r == self@.sender_rtx_ssrc,
    {
        self.sender_rtx_ssrc
    }

    /// The payload type of the retransmission stream that we send.
    pub fn sender_rtx_payload_type(&self) -> (r: Option<u8>)
        ensures
            r == self@.sender_rtx_payload_type,
    {
        self.sender_rtx_payload_type
    }

    /// The stream that we send.
    pub fn sender_stream_id(&self) -> (r: Option<String>)
        ensures
            text_opt(r) == self@.sender_stream_id,
    {
        clone_text_opt(&self.sender_stream_id)
    }

    /// The track that we send.
    pub fn sender_track_id(&self) -> (r: Option<String>)
        ensures
            text_opt(r) == self@.sender_track_id,
    {
        clone_text_opt(&self.sender_track_id)
    }

    /// Sets what the sender will be.
    pub fn reserve_sender(&mut self, ssrc: u32, stream_id: String, track_id: String)
        ensures
            final(self)@ == (TransceiverView {
                sender_ssrc: Some(ssrc),
                sender_stream_id: Some(stream_id@),
                sender_track_id: Some(track_id@),
                ..old(self)@
            }),
    {
        self.sender_ssrc = Some(ssrc);
        self.sender_stream_id = Some(stream_id);
        self.sender_track_id = Some(track_id);
    }

    /// Sets the retransmission stream that we send.
    pub fn set_sender_rtx(&mut self, ssrc: Option<u32>, payload_type: Option<u8>)
        ensures
            final(self)@ == (TransceiverView {
                sender_rtx_ssrc: ssrc,
                sender_rtx_payload_type: payload_type,
                ..old(self)@
            }),
    {
        self.sender_rtx_ssrc = ssrc;
        self.sender_rtx_payload_type = payload_type;
    }

    /// The direction.
    pub fn direction(&self) -> (r: TransceiverDirection)
        ensures
            r == self@.direction,
    {
        self.direction
    }

    /// Sets the direction, and wants it.
    pub fn set_direction(&mut self, direction: TransceiverDirection)
        ensures
            final(self)@ == (TransceiverView { direction, desired: direction, ..old(self)@ }),
    {
        self.direction = direction;
        self.desired_direction = direction;
    }

    /// Sets the direction that a remote description carries; what we want stays.
    pub fn set_remote_direction(&mut self, direction: TransceiverDirection)
        ensures
            final(self)@ == (TransceiverView { direction, ..old(self)@ }),
    {
        self.direction = direction;
    }

    /// The direction that we want.
    pub fn desired_direction(&self) -> (r: TransceiverDirection)
        ensures
            r == self@.desired,
    {
        self.desired_direction
    }

    /// Adopts the direction of a local offer as the one that we want, unless it is that or what
    /// is offered in its place while there is nothing to send.
    pub fn record_offered_direction(&mut self, offered: TransceiverDirection)
        ensures
            final(self)@ == (TransceiverView {
                desired: record_offered(old(self)@.desired, offered),
                ..old(self)@
            }),
    {
        if offered != self.desired_direction && offered
            != self.desired_direction.without_sending() {
            self.desired_direction = offered;
        }
    }

    /// The mid.
    pub fn mid(&self) -> (r: Option<String>)
        ensures
            text_opt(r) == self@.mid,
    {
        clone_text_opt(&self.mid)
    }

    /// The mid, without a copy.
    pub fn mid_ref(&self) -> (r: Option<&str>)
        ensures
            match r {
                Some(m) => self@.mid == Some(m@),
                None => self@.mid is None,
            },
    {
        match &self.mid {
            Some(m) => Some(m.as_str()),
            None => None,
        }
    }

    fn listens(&self) -> (r: bool)
        ensures
            r == self@.listens(),
    {
        match &self.receiver {
            Some(x) => x.transport().is_some(),
            None => false,
        }
    }

    /// Sets the mid and gives the route that its packets take.
    pub fn set_mid(&mut self, mid: String) -> (r: Option<(u64, Route)>)
        ensures
            final(self)@ == (TransceiverView { mid: Some(mid@), ..old(self)@ }),
            route_opt(r) == (match old(self)@.transport {
                Some(t) => if old(self)@.listens() {
                    Some((t, RouteView::Mid(mid@)))
                } else {
                    None
                },
                None => None,
            }),
    {
        let route = match self.rtp_transport {
            Some(t) => if self.listens() {
                Some((t, Route::Mid(mid.clone())))
            } else {
                None
            },
            None => None,
        };
        self.mid = Some(mid);
        route
    }

    /// The fax transport.
    pub fn udtl_transport(&self) -> (r: Option<u64>)
        ensures
            r == self@.udtl,
    {
        self.udtl_transport
    }

    /// Sets the fax transport.
    pub fn set_udtl_transport(&mut self, transport: u64)
        ensures
            final(self)@ == (TransceiverView { udtl: Some(transport), ..old(self)@ }),
    {
        self.udtl_transport = Some(transport);
    }

    /// The sender.
    pub fn sender(&self) -> (r: Option<&RtpSender>)
        ensures
            match r {
                Some(s) => self@.sender == Some(s@),
                None => self@.sender is None,
            },
    {
        match &self.sender {
            Some(s) => Some(s),
            None => None,
        }
    }

    /// The sender, to change it.
    pub fn sender_mut(&mut self) -> (r: Option<&mut RtpSender>)
        ensures
            match r {
                Some(s) => {
                    &&& old(self)@.sender == Some(s@)
                    &&& final(self)@ == (TransceiverView {
                        sender: Some(final(s)@),
                        ..old(self)@
                    })
                },
                None => old(self)@.sender is None && final(self)@ == old(self)@,
            },
    {
        match &mut self.sender {
            Some(s) => Some(s),
            None => None,
        }
    }

    /// Connects a sender: it may send if the negotiation lets us, moves to the transport of the
    /// transceiver, and takes the retransmission stream and the mid extension that were
    /// negotiated. A send loop is given where one has to be run.
    pub fn set_sender(&mut self, sender: Option<RtpSender>) -> (r: Option<SendLoop>)
        ensures
            match sender {
                Some(s) => {
                    &&& final(self)@ == old(self)@.with_sender(s@)
                    &&& s@.wf() ==> final(self)@.wf()
                    &&& r is Some <==> old(self)@.transport is Some && old(self)@.transport
                        != s@.transport
                    &&& r matches Some(l) ==> l.last_source is None && l.generation
                        == s@.generation.wrapping_add(1)
                },
                None => r is None && final(self)@ == (TransceiverView { sender: None, ..old(
                    self)@ }) && final(self)@.wf(),
            },
    {
        let ghost before = self@;
        let mut s = match sender {
            Some(s) => s,
            None => {
                self.sender = None;
                return None;
            },
        };
        let ghost s0 = s@;
        s.set_send_enabled(self.send_permitted);
        let send_loop = match self.rtp_transport {
            Some(t) => s.set_transport(t),
            None => None,
        };
        self.sender_ssrc = Some(s.ssrc());
        self.sender_stream_id = Some(s.stream_id().to_owned());
        self.sender_track_id = Some(s.track_id().to_owned());
        if let (Some(rtx_ssrc), Some(rtx_payload_type)) = (
            self.sender_rtx_ssrc,
            self.sender_rtx_payload_type,
        ) {
            s.set_rtx(Some(RtxSenderConfig { rtx_ssrc, rtx_payload_type }));
        }
        let pending = self.pending_sdes_mid.take();
        match pending {
            Some(m) => {
                s.set_sdes_mid(m.0, m.1);
            },
            None => {
                let id = find_extension_id(&self.extmap, "urn:ietf:params:rtp-hdrext:sdes:mid");
                if let (Some(id), Some(mid)) = (id, &self.mid) {
                    s.set_sdes_mid(id, mid.clone());
                }
            },
        }
        assert(s@ =~= before.connected_sender(s0));
        self.sender = Some(s);
        assert(self@ =~= before.with_sender(s0));
        send_loop
    }

    /// Records whether the negotiation lets us send.
    pub fn set_send_permitted(&mut self, permitted: bool)
        ensures
            final(self)@ == old(self)@.permitted(permitted),
            old(self)@.wf() ==> final(self)@.wf(),
    {
        self.send_permitted = permitted;
        if let Some(s) = &mut self.sender {
            s.set_send_enabled(permitted);
        }
    }

    /// Whether the negotiation lets us send.
    pub fn send_permitted(&self) -> (r: bool)
        ensures
            r == self@.send_permitted,
    {
        self.send_permitted
    }

    /// The transport.
    pub fn rtp_transport(&self) -> (r: Option<u64>)
        ensures
            r == self@.transport,
    {
        self.rtp_transport
    }

    /// Sets the transport.
    pub fn set_rtp_transport(&mut self, transport: Option<u64>)
        ensures
            final(self)@ == (TransceiverView { transport, ..old(self)@ }),
    {
        self.rtp_transport = transport;
    }

    /// The receiver.
    pub fn receiver(&self) -> (r: Option<&RtpReceiver>)
        ensures
            match r {
                Some(x) => self@.receiver == Some(x@),
                None => self@.receiver is None,
            },
    {
        match &self.receiver {
            Some(x) => Some(x),
            None => None,
        }
    }

    /// The receiver, to change it.
    pub fn receiver_mut(&mut self) -> (r: Option<&mut RtpReceiver>)
        ensures
            match r {
                Some(x) => {
                    &&& old(self)@.receiver == Some(x@)
                    &&& final(self)@ == (TransceiverView {
                        receiver: Some(final(x)@),
                        ..old(self)@
                    })
                },
                None => old(self)@.receiver is None && final(self)@ == old(self)@,
            },
    {
        match &mut self.receiver {
            Some(x) => Some(x),
            None => None,
        }
    }

    /// Sets the receiver. One that shares the negotiated codecs takes those of the transceiver.
    pub fn set_receiver(&mut self, receiver: Option<RtpReceiver>)
        ensures
            final(self)@ == old(self)@.with_receiver(receiver_opt(receiver)),
    {
        let ghost before = self@;
        self.receiver = receiver;
        self.share_payload_map();
        assert(self@ =~= before.with_receiver(receiver_opt(receiver)));
    }

    /// Hands the negotiated codecs to a receiver that shares them.
    fn share_payload_map(&mut self)
        ensures
            final(self)@ == old(self)@.with_payload_map(old(self)@.payload_map),
    {
        let ghost before = self@;
        if let Some(x) = &mut self.receiver {
            if x.shares_payload_map() {
                x.set_payload_map(clone_codecs(&self.payload_map));
            }
        }
        assert(self@ =~= before.with_payload_map(before.payload_map));
    }

    /// What its receiver needs to know to be routed to.
    pub fn owner(&self) -> (r: Owner)
        ensures
            r@ == self@.owner(),
    {
        Owner {
            mid: clone_text_opt(&self.mid),
            sdes_mid_id: find_extension_id(&self.extmap, "urn:ietf:params:rtp-hdrext:sdes:mid"),
        }
    }

    /// Takes the negotiated codecs and gives the route for their payload types.
    pub fn update_payload_map(&mut self, new_map: HashMap<u8, RtpCodecParameters>) -> (r: Option<(
        u64,
        Route,
    )>)
        ensures
            final(self)@ == old(self)@.with_payload_map(codecs(new_map@)),
            old(self)@.wf() ==> final(self)@.wf(),
            route_opt(r) == (match old(self)@.transport {
                Some(t) => if old(self)@.listens() {
                    Some(
                        (
                            t,
                            RouteView::PayloadTypes(
                                types_from(Seq::empty(), codecs(new_map@).dom(), 0),
                            ),
                        ),
                    )
                } else {
                    None
                },
                None => None,
            }),
    {
        let ghost before = self@;
        let ghost m = codecs(new_map@);
        let route = match self.rtp_transport {
            Some(t) => if self.listens() {
                Some((t, Route::PayloadTypes(keys_of(&new_map))))
            } else {
                None
            },
            None => None,
        };
        self.payload_map = new_map;
        self.share_payload_map();
        assert(self@ =~= before.with_payload_map(m));
        route
    }

    /// Takes the negotiated header extensions and gives what the transport has to read them by.
    pub fn update_extmap(&mut self, new_extmap: HashMap<u8, String>) -> (r: Option<(
        u64,
        Vec<Route>,
    )>)
        ensures
            final(self)@ == old(self)@.with_extmap(uris(new_extmap@)),
            old(self)@.wf() ==> final(self)@.wf(),
            r is Some <==> old(self)@.transport is Some,
            r matches Some(x) ==> {
                let m = uris(new_extmap@);
                &&& old(self)@.transport == Some(x.0)
                &&& routes(x.1@) == seq![
                    RouteView::AbsSendTimeExtension(id_from(m, is_uri(abs_send_time_uri()), 0)),
                    RouteView::RidExtension(id_from(m, has_uri_part("rtp-stream-id"@), 0)),
                    RouteView::SdesMidExtension(id_from(m, is_uri(sdes_mid_uri()), 0)),
                ]
            },
    {
        let ghost before = self@;
        let ghost m = uris(new_extmap@);
        self.extmap = new_extmap;
        let mid_id = find_extension_id(&self.extmap, "urn:ietf:params:rtp-hdrext:sdes:mid");
        let told = match self.rtp_transport {
            Some(t) => {
                let mut out: Vec<Route> = Vec::new();
                out.push(
                    Route::AbsSendTimeExtension(
                        find_extension_id(
                            &self.extmap,
                            "http://www.webrtc.org/experiments/rtp-hdrext/abs-send-time",
                        ),
                    ),
                );
                out.push(
                    Route::RidExtension(find_extension_id_with_part(&self.extmap, "rtp-stream-id")),
                );
                out.push(Route::SdesMidExtension(mid_id));
                assert(routes(out@) =~= seq![
                    RouteView::AbsSendTimeExtension(id_from(m, is_uri(abs_send_time_uri()), 0)),
                    RouteView::RidExtension(id_from(m, has_uri_part("rtp-stream-id"@), 0)),
                    RouteView::SdesMidExtension(id_from(m, is_uri(sdes_mid_uri()), 0)),
                ]);
                Some((t, out))
            },
            None => None,
        };
        if let (Some(id), Some(mid)) = (mid_id, &self.mid) {
            let mid = mid.clone();
            match &mut self.sender {
                Some(s) => {
                    s.set_sdes_mid(id, mid);
                },
                None => {
                    self.pending_sdes_mid = Some((id, mid));
                },
            }
        }
        assert(self@ =~= before.with_extmap(m));
        told
    }

    /// The negotiated codecs.
    pub fn get_payload_map(&self) -> (r: HashMap<u8, RtpCodecParameters>)
        ensures
            codecs(r@) == self@.payload_map,
    {
        clone_codecs(&self.payload_map)
    }

    /// The negotiated header extensions.
    pub fn get_extmap(&self) -> (r: HashMap<u8, String>)
        ensures
            uris(r@) == self@.extmap,
    {
        clone_uris(&self.extmap)
    }
}

/// The keys of a payload map, in ascending order.
pub fn keys_of(m: &HashMap<u8, RtpCodecParameters>) -> (r: Vec<u8>)
    ensures
        r@ == types_from(Seq::empty(), codecs(m@).dom(), 0),
{
    let mut out: Vec<u8> = Vec::new();
    let ghost d = codecs(m@).dom();
    let mut k: u16 = 0;
    assert(out@ =~= Seq::<u8>::empty());
    while k < 256
        invariant
            k <= 256,
            d == codecs(m@).dom(),
            forall|i: int| 0 <= i < out@.len() ==> out@[i] < k,
            types_from(Seq::empty(), d, 0) == types_from(out@, d, k as int),
        decreases 256 - k,
    {
        let pt: u8 = k as u8;
        assert(!out@.contains(pt));
        if m.contains_key(&pt) {
            out.push(pt);
        }
        k += 1;
    }
    out
}

/// Copies a payload map.
pub fn clone_codecs(m: &HashMap<u8, RtpCodecParameters>) -> (r: HashMap<u8, RtpCodecParameters>)
    ensures
        codecs(r@) == codecs(m@),
{
    let mut out: HashMap<u8, RtpCodecParameters> = HashMap::new();
    let mut k: u16 = 0;
    while k < 256
        invariant
            k <= 256,
            forall|pt: u8| #[trigger]
                out@.contains_key(pt) <==> pt < k && m@.contains_key(pt),
            forall|pt: u8| #[trigger] out@.contains_key(pt) ==> out@[pt]@ == m@[pt]@,
        decreases 256 - k,
    {
        let pt: u8 = k as u8;
        if let Some(p) = m.get(&pt) {
            out.insert(pt, p.clone());
        }
        k += 1;
    }
    assert(codecs(out@) =~= codecs(m@));
    out
}

/// Copies an extension map.
pub fn clone_uris(m: &HashMap<u8, String>) -> (r: HashMap<u8, String>)
    ensures
        uris(r@) == uris(m@),
{
    let mut out: HashMap<u8, String> = HashMap::new();
    let mut k: u16 = 0;
    while k < 256
        invariant
            k <= 256,
            forall|id: u8| #[trigger]
                out@.contains_key(id) <==> id < k && m@.contains_key(id),
            forall|id: u8| #[trigger] out@.contains_key(id) ==> out@[id]@ == m@[id]@,
        decreases 256 - k,
    {
        let id: u8 = k as u8;
        if let Some(s) = m.get(&id) {
            out.insert(id, s.clone());
        }
        k += 1;
    }
    assert(uris(out@) =~= uris(m@));
    out
}

/// A remote description never changes what we want, and a local offer changes it only to
/// something else than what is offered in its place.
pub proof fn wanted_direction_survives_offers(desired: TransceiverDirection)
    ensures
        record_offered(desired, desired) == desired,
        record_offered(desired, desired.spec_without_sending()) == desired,
{
}

/// A sender that joins late is set up as one that was there: it may send exactly when the
/// negotiation lets us, and carries the negotiated mid.
pub proof fn late_sender_is_set_up(t: TransceiverView, s: SenderView)
    ensures
        t.with_sender(s).sender matches Some(x) && x.send_enabled == t.send_permitted
            && (t.transport is Some ==> x.transport == t.transport)
            && (t.mid_for_sender() is Some ==> x.sdes_mid == t.mid_for_sender()),
{
}

/// A transceiver that gets a sender names its stream, and the sender keeps its own codec, counters
/// and packets; it starts a new generation where it moves to the transport of the transceiver.
pub proof fn senders_keep_their_stream(t: TransceiverView, s: SenderView)
    ensures
        ({
            let x = t.with_sender(s);
            let y = x.sender->0;
            &&& x.sender is Some
            &&& x.sender_ssrc == Some(s.ssrc)
            &&& x.sender_stream_id == Some(s.stream_id)
            &&& x.sender_track_id == Some(s.track_id)
            &&& x.id == t.id && x.kind == t.kind && x.mid == t.mid && x.direction == t.direction
                && x.desired == t.desired && x.receiver == t.receiver
            &&& y.ssrc == s.ssrc && y.stream_id == s.stream_id && y.track_id == s.track_id
                && y.cname == s.cname && y.params == s.params && y.next_seq == s.next_seq
                && y.packets_sent == s.packets_sent
            &&& t.transport is Some && s.transport != t.transport ==> y.generation
                == s.generation.wrapping_add(1)
            &&& t.transport is None || s.transport == t.transport ==> y.generation == s.generation
            &&& t.sender_rtx_ssrc is Some && t.sender_rtx_payload_type is Some && s.nacks.len() > 0
                ==> y.nacks[0].rtx_config == Some(
                RtxSenderConfig {
                    rtx_ssrc: t.sender_rtx_ssrc->0,
                    rtx_payload_type: t.sender_rtx_payload_type->0,
                },
            )
        }),
{
}

/// Header extensions that map the mid give it to the sender, under the lowest identifier that is
/// mapped to it; without a sender it waits for one.
pub proof fn negotiated_mids_reach_the_sender(
    t: TransceiverView,
    m: Map<u8, Seq<char>>,
    id: u8,
    mid: Seq<char>,
)
    requires
        m.contains_key(id),
        m[id] == "urn:ietf:params:rtp-hdrext:sdes:mid"@,
        forall|j: u8| j < id && #[trigger] m.contains_key(j) ==> m[j]
            != "urn:ietf:params:rtp-hdrext:sdes:mid"@,
        t.mid == Some(mid),
    ensures
        ({
            let x = t.with_extmap(m);
            &&& x.extmap == m
            &&& t.sender is Some ==> x.sender is Some && x.sender->0.sdes_mid == Some((id, mid))
            &&& t.sender is None ==> x.sender is None && x.pending_sdes_mid == Some((id, mid))
        }),
{
    crate::codec::lowest_identifier_is_found(m, is_uri(sdes_mid_uri()), 0);
    let p = is_uri(sdes_mid_uri());
    assert(p(m[id]));
    match id_from(m, p, 0) {
        Some(j) => {
            assert(p(m[j]));
        },
        None => {},
    }
}

/// What a local offer says we want: the direction that it offers, unless that is what we want
/// already, or what is left of it while there is nothing to send.
pub proof fn offered_directions_are_wanted(
    desired: TransceiverDirection,
    offered: TransceiverDirection,
)
    ensures
        ({
            let r = record_offered(desired, offered);
            let quiet = !offered.spec_sends() && (offered.spec_receives()
                <==> desired.spec_receives());
            &&& offered == desired || quiet ==> r == desired
            &&& offered != desired && !quiet ==> r == offered
        }),
{
}

} // verus!

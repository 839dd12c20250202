//! The transports of a connection.

use super::lifecycle::all_silenced_from;
use super::lifecycle::all_stopped_from;
use super::lifecycle::silence_all;
use super::lifecycle::stop_all;
use super::observing::attach_registered_observers;
use super::observing::observed_from;
use super::ConnectionView;
use super::PeerConnection;
use crate::action::actions;
use crate::action::push_action;
use crate::action::Action;
use crate::action::ActionView;
use crate::address::description_rtcp;
use crate::address::remote_rtcp_addr_from_media_section;
use crate::address::remote_rtcp_addr_from_sdp;
use crate::address::section_rtcp;
use crate::address::unspecified_address;
use crate::address::HostTable;
use crate::address::IpAddress;
use crate::address::SocketAddress;
use crate::config::TransportMode;
use crate::error::RtcError;
use crate::error::RtcErrorView;
use crate::error::RtcResult;
use crate::local::all_wf;
use crate::local::TsStep;
use crate::matching::kind_is;
use crate::matching::matched;
use crate::matching::matched_rtp_media_sections;
use crate::matching::pairs;
use crate::negotiate::attach_step;
use crate::negotiate::attach_transceiver;
use crate::negotiate::listen_step;
use crate::negotiate::listen_transceiver;
use crate::negotiate::wire_step;
use crate::negotiate::wire_transceiver;
use crate::registry::find_transport;
use crate::registry::holds_id;
use crate::registry::set_transport;
use crate::registry::transport_of;
use crate::registry::with_transport;
use crate::remote::Credentials;
use crate::remote::MediaSetup;
use crate::remote::TransportPlan;
use crate::rtp::rtcp_targets_sender;
use crate::rtp::targets_sender;
use crate::rtp::RtcpPacket;
use crate::sdp::find_section_of_kind;
use crate::sdp::of_kind;
use crate::sdp::DescriptionView;
use crate::sdp::MediaKind;
use crate::search::first;
use crate::search::first_from;
use crate::transceiver::transceivers;
use crate::transceiver::RtpTransceiver;
use crate::transceiver::TransceiverView;
use vstd::prelude::*;

verus! {

/// How the primary transport is made once ICE has a path.
#[derive(Clone, Copy, PartialEq, Eq, Structural, Debug)]
pub struct TransportTerms {
    /// It follows the source address of what it receives.
    pub latch: bool,
    /// Where RTCP goes apart from RTP.
    pub rtcp: Option<SocketAddress>,
    /// Nothing is sent or taken before SRTP is set up.
    pub srtp_required: bool,
    /// A stream may change its SSRC.
    pub allow_ssrc_change: bool,
}

/// A transport of a transceiver of its own.
#[derive(Clone, Copy, PartialEq, Eq, Structural, Debug)]
pub struct MediaTransport {
    pub transport: u64,
    /// It has to be made first, towards `remote`, and latches where `latch` holds.
    pub created: bool,
    pub remote: SocketAddress,
    pub latch: bool,
}

/// What a lite ICE agent tells the ICE transport of a section, which checks no path itself.
#[derive(Clone, Copy, PartialEq, Eq, Structural, Debug)]
pub struct LiteTerms {
    /// The remote credentials are kept, and the other side is in control.
    pub controlled: bool,
    /// The remote candidates are kept.
    pub keep_candidates: bool,
}

/// Transceivers with an identifier.
pub open spec fn id_is(id: u64) -> spec_fn(TransceiverView) -> bool {
    |t: TransceiverView| t.id == id
}

/// The transport of a transceiver: its own, else `default`.
pub open spec fn own_or(m: Seq<(u64, u64)>, id: u64, default: u64) -> u64 {
    match transport_of(m, id) {
        Some(t) => t,
        None => default,
    }
}

/// The transceivers from index `k` on receive on their own transports or on `default`.
pub open spec fn listened_from(st: TsStep, m: Seq<(u64, u64)>, default: u64, k: int) -> TsStep
    decreases st.ts.len() - k,
{
    if k < 0 || k >= st.ts.len() {
        st
    } else {
        listened_from(
            st.with(k, listen_step(st.at(k), own_or(m, st.ts[k].id, default))),
            m,
            default,
            k + 1,
        )
    }
}

/// The senders and receivers of the transceivers from index `k` on move to a transport.
pub open spec fn wired_from(st: TsStep, transport: u64, k: int) -> TsStep
    decreases st.ts.len() - k,
{
    if k < 0 || k >= st.ts.len() {
        st
    } else {
        wired_from(st.with(k, wire_step(st.at(k), transport)), transport, k + 1)
    }
}

/// The transceivers from index `k` on are attached to their own transports or to `default`.
pub open spec fn attached_from(st: TsStep, m: Seq<(u64, u64)>, default: u64, k: int) -> TsStep
    decreases st.ts.len() - k,
{
    if k < 0 || k >= st.ts.len() {
        st
    } else {
        attached_from(
            st.with(k, attach_step(st.at(k), own_or(m, st.ts[k].id, default))),
            m,
            default,
            k + 1,
        )
    }
}

/// The transceiver with an identifier, if there is one, is attached to a transport.
pub open spec fn attached_id(st: TsStep, id: u64, transport: u64) -> TsStep {
    match first(st.ts, id_is(id)) {
        Some(i) => st.with(i, attach_step(st.at(i), transport)),
        None => st,
    }
}

/// The transceivers of the identifiers from index `k` on are attached to a transport.
pub open spec fn attached_ids_from(st: TsStep, ids: Seq<u64>, transport: u64, k: int) -> TsStep
    decreases ids.len() - k,
{
    if k < 0 || k >= ids.len() {
        st
    } else {
        attached_ids_from(attached_id(st, ids[k], transport), ids, transport, k + 1)
    }
}

/// What a setup from signaling asks of a transport: where it sends RTP and RTCP, and the SSRC that
/// it latches onto.
pub open spec fn pointed(
    acts: Seq<ActionView>,
    transport: u64,
    remote: SocketAddress,
    rtcp: Option<SocketAddress>,
    ssrc: Option<u32>,
) -> Seq<ActionView> {
    let a = acts.push(ActionView::SetRemoteAddress { transport, address: remote }).push(
        ActionView::SetRtcpAddress { transport, address: rtcp },
    );
    match ssrc {
        Some(n) => a.push(ActionView::ExpectSsrc { transport, ssrc: n }),
        None => a,
    }
}

fn point_transport(
    list: &mut Vec<Action>,
    transport: u64,
    remote: SocketAddress,
    rtcp: Option<SocketAddress>,
    ssrc: Option<u32>,
)
    ensures
        actions(final(list)@) == pointed(actions(old(list)@), transport, remote, rtcp, ssrc),
{
    push_action(list, Action::SetRemoteAddress { transport, address: remote });
    push_action(list, Action::SetRtcpAddress { transport, address: rtcp });
    if let Some(n) = ssrc {
        push_action(list, Action::ExpectSsrc { transport, ssrc: n });
    }
}

/// The sum of the counts from index `k` on.
pub open spec fn total_from(counts: Seq<u64>, k: int) -> nat
    decreases counts.len() - k,
{
    if k < 0 || k >= counts.len() {
        0
    } else {
        counts[k] as nat + total_from(counts, k + 1)
    }
}

/// The packets that several transports have received together.
pub fn received_rtp_packets(counts: &Vec<u64>) -> (r: u64)
    requires
        total_from(counts@, 0) <= u64::MAX,
    ensures
        r == total_from(counts@, 0),
{
    let mut total: u64 = 0;
    let mut i: usize = 0;
    while i < counts.len()
        invariant
            i <= counts@.len(),
            total + total_from(counts@, i as int) == total_from(counts@, 0),
            total_from(counts@, 0) <= u64::MAX,
        decreases counts@.len() - i,
    {
        total = total + counts[i];
        i += 1;
    }
    total
}

/// Addresses of a transport.
pub open spec fn entry_for(transport: u64) -> spec_fn((u64, SocketAddress)) -> bool {
    |e: (u64, SocketAddress)| e.0 == transport
}

/// The remote address of a transport, where it is known.
pub open spec fn address_of(known: Seq<(u64, SocketAddress)>, transport: u64) -> Option<
    SocketAddress,
> {
    match first(known, entry_for(transport)) {
        Some(i) => Some(known[i].1),
        None => None,
    }
}

fn find_address(known: &Vec<(u64, SocketAddress)>, transport: u64) -> (r: Option<SocketAddress>)
    ensures
        r == address_of(known@, transport),
{
    let mut i: usize = 0;
    while i < known.len()
        invariant
            i <= known@.len(),
            first(known@, entry_for(transport)) == first_from(
                known@,
                entry_for(transport),
                i as int,
            ),
        decreases known@.len() - i,
    {
        if known[i].0 == transport {
            return Some(known[i].1);
        }
        i += 1;
    }
    None
}

/// `acc` with the RTCP addresses of the pairs from index `k` on whose transceivers have transports
/// of their own.
pub open spec fn own_rtcp_from(
    v: ConnectionView,
    d: DescriptionView,
    p: Seq<(int, int)>,
    known: Seq<(u64, SocketAddress)>,
    hosts: Seq<(Seq<char>, IpAddress)>,
    k: int,
    acc: Seq<ActionView>,
) -> Seq<ActionView>
    decreases p.len() - k,
{
    if k < 0 || k >= p.len() {
        acc
    } else {
        let next = match transport_of(v.media, v.ts[p[k].0].id) {
            Some(t) => match address_of(known, t) {
                Some(a) => acc.push(
                    ActionView::SetRtcpAddress {
                        transport: t,
                        address: section_rtcp(d.media[p[k].1], a, hosts),
                    },
                ),
                None => acc,
            },
            None => acc,
        };
        own_rtcp_from(v, d, p, known, hosts, k + 1, next)
    }
}

impl ConnectionView {
    /// How the primary transport is made for a selected pair.
    pub open spec fn transport_terms(
        self,
        remote: SocketAddress,
        hosts: Seq<(Seq<char>, IpAddress)>,
    ) -> TransportTerms {
        TransportTerms {
            latch: self.config.is_direct() && self.config.enable_latching,
            rtcp: match self.remote {
                Some(d) => if self.config.transport_mode != TransportMode::WebRtc {
                    description_rtcp(d, remote, hosts)
                } else {
                    None
                },
                None => None,
            },
            srtp_required: self.config.transport_mode != TransportMode::Rtp,
            allow_ssrc_change: self.config.enable_latching,
        }
    }

    /// The transport for packets that no sender sends: that of the audio sender, else the primary
    /// one.
    pub open spec fn raw_transport(self) -> Option<u64> {
        match first(self.ts, kind_is(MediaKind::Audio)) {
            Some(i) => match self.ts[i].sender {
                Some(s) => if s.transport is Some {
                    s.transport
                } else {
                    self.rtp
                },
                None => self.rtp,
            },
            None => self.rtp,
        }
    }

    /// All transports, the primary one first.
    pub open spec fn all_transports(self) -> Seq<u64> {
        let own = self.media.map_values(|e: (u64, u64)| e.1);
        match self.rtp {
            Some(t) => seq![t] + own,
            None => own,
        }
    }

    /// Where RTCP goes by the remote description, given where RTP goes.
    pub open spec fn rtcp_routed(
        self,
        known: Seq<(u64, SocketAddress)>,
        hosts: Seq<(Seq<char>, IpAddress)>,
        acts: Seq<ActionView>,
    ) -> Seq<ActionView> {
        match self.remote {
            Some(d) => {
                let a = match self.rtp {
                    Some(t) => match address_of(known, t) {
                        Some(x) => acts.push(
                            ActionView::SetRtcpAddress {
                                transport: t,
                                address: description_rtcp(d, x, hosts),
                            },
                        ),
                        None => acts,
                    },
                    None => acts,
                };
                own_rtcp_from(self, d, matched(self.ts, d.media), known, hosts, 0, a)
            },
            None => acts,
        }
    }

    /// The transport that a transceiver has of its own, made towards an address if it has none.
    pub open spec fn media_transport(
        self,
        id: u64,
        setup: Option<MediaSetup>,
        fresh: u64,
    ) -> MediaTransport {
        MediaTransport {
            transport: own_or(self.media, id, fresh),
            created: transport_of(self.media, id) is None,
            remote: match setup {
                Some(s) => s.remote,
                None => SocketAddress { ip: IpAddress { v6: false, bits: 0 }, port: 0 },
            },
            latch: self.config.enable_latching,
        }
    }

    /// What the transport that a transceiver has of its own is asked for.
    pub open spec fn media_pointed(
        self,
        id: u64,
        setup: Option<MediaSetup>,
        fresh: u64,
        acts: Seq<ActionView>,
    ) -> Seq<ActionView> {
        match (transport_of(self.media, id), setup) {
            (Some(t), Some(s)) => pointed(acts, t, s.remote, s.rtcp, s.expected_ssrc),
            (Some(_), None) => acts,
            (None, Some(s)) => {
                let a = acts.push(
                    ActionView::SetRtcpAddress { transport: fresh, address: s.rtcp },
                );
                let b = match s.expected_ssrc {
                    Some(n) => a.push(ActionView::ExpectSsrc { transport: fresh, ssrc: n }),
                    None => a,
                };
                observed_from(self.observers, fresh, 0, b)
            },
            (None, None) => observed_from(
                self.observers,
                fresh,
                0,
                acts.push(ActionView::SetRtcpAddress { transport: fresh, address: None }),
            ),
        }
    }

    /// What a setup of a direct transport changes.
    pub open spec fn configured(
        self,
        s: MediaSetup,
        fresh: u64,
        acts: Seq<ActionView>,
    ) -> super::Change {
        if s.primary {
            match self.rtp {
                Some(t) => {
                    let a = attached_id(
                        self.step(pointed(acts, t, s.remote, s.rtcp, s.expected_ssrc)),
                        s.transceiver,
                        t,
                    );
                    super::Change { v: ConnectionView { ts: a.ts, ..self }, acts: a.acts }
                },
                None => super::Change { v: self, acts },
            }
        } else {
            let a = attached_id(
                self.step(self.media_pointed(s.transceiver, Some(s), fresh, acts)),
                s.transceiver,
                own_or(self.media, s.transceiver, fresh),
            );
            super::Change {
                v: ConnectionView {
                    ts: a.ts,
                    media: with_transport(
                        self.media,
                        s.transceiver,
                        own_or(self.media, s.transceiver, fresh),
                    ),
                    ..self
                },
                acts: a.acts,
            }
        }
    }
}

fn listen_all(
    ts: &mut Vec<RtpTransceiver>,
    media: &Vec<(u64, u64)>,
    default: u64,
    list: &mut Vec<Action>,
)
    requires
        all_wf(transceivers(old(ts)@)),
    ensures
        all_wf(transceivers(final(ts)@)),
        (TsStep { ts: transceivers(final(ts)@), acts: actions(final(list)@) }) == listened_from(
            (TsStep { ts: transceivers(old(ts)@), acts: actions(old(list)@) }),
            media@,
            default,
            0,
        ),
{
    let ghost start = TsStep { ts: transceivers(ts@), acts: actions(list@) };
    let mut k: usize = 0;
    while k < ts.len()
        invariant
            k <= ts@.len(),
            all_wf(transceivers(ts@)),
            listened_from(start, media@, default, 0) == listened_from(
                (TsStep { ts: transceivers(ts@), acts: actions(list@) }),
                media@,
                default,
                k as int,
            ),
        decreases ts@.len() - k,
    {
        let ghost st = TsStep { ts: transceivers(ts@), acts: actions(list@) };
        assert(st.ts[k as int] == ts@[k as int]@);
        let id: u64 = ts[k].id();
        let transport: u64 = match find_transport(media, id) {
            Some(t) => t,
            None => default,
        };
        listen_transceiver(&mut ts[k], transport, list);
        assert(transceivers(ts@) =~= st.with(
            k as int,
            listen_step(st.at(k as int), transport),
        ).ts);
        k += 1;
    }
}

fn wire_all(ts: &mut Vec<RtpTransceiver>, transport: u64, list: &mut Vec<Action>)
    requires
        all_wf(transceivers(old(ts)@)),
    ensures
        all_wf(transceivers(final(ts)@)),
        (TsStep { ts: transceivers(final(ts)@), acts: actions(final(list)@) }) == wired_from(
            (TsStep { ts: transceivers(old(ts)@), acts: actions(old(list)@) }),
            transport,
            0,
        ),
{
    let ghost start = TsStep { ts: transceivers(ts@), acts: actions(list@) };
    let mut k: usize = 0;
    while k < ts.len()
        invariant
            k <= ts@.len(),
            all_wf(transceivers(ts@)),
            wired_from(start, transport, 0) == wired_from(
                (TsStep { ts: transceivers(ts@), acts: actions(list@) }),
                transport,
                k as int,
            ),
        decreases ts@.len() - k,
    {
        let ghost st = TsStep { ts: transceivers(ts@), acts: actions(list@) };
        assert(st.ts[k as int] == ts@[k as int]@);
        wire_transceiver(&mut ts[k], transport, list);
        assert(transceivers(ts@) =~= st.with(k as int, wire_step(st.at(k as int), transport)).ts);
        k += 1;
    }
}

fn attach_all(
    ts: &mut Vec<RtpTransceiver>,
    media: &Vec<(u64, u64)>,
    default: u64,
    list: &mut Vec<Action>,
)
    requires
        all_wf(transceivers(old(ts)@)),
    ensures
        all_wf(transceivers(final(ts)@)),
        (TsStep { ts: transceivers(final(ts)@), acts: actions(final(list)@) }) == attached_from(
            (TsStep { ts: transceivers(old(ts)@), acts: actions(old(list)@) }),
            media@,
            default,
            0,
        ),
{
    let ghost start = TsStep { ts: transceivers(ts@), acts: actions(list@) };
    let mut k: usize = 0;
    while k < ts.len()
        invariant
            k <= ts@.len(),
            all_wf(transceivers(ts@)),
            attached_from(start, media@, default, 0) == attached_from(
                (TsStep { ts: transceivers(ts@), acts: actions(list@) }),
                media@,
                default,
                k as int,
            ),
        decreases ts@.len() - k,
    {
        let ghost st = TsStep { ts: transceivers(ts@), acts: actions(list@) };
        assert(st.ts[k as int] == ts@[k as int]@);
        let id: u64 = ts[k].id();
        let transport: u64 = match find_transport(media, id) {
            Some(t) => t,
            None => default,
        };
        attach_transceiver(&mut ts[k], transport, list);
        assert(transceivers(ts@) =~= st.with(
            k as int,
            attach_step(st.at(k as int), transport),
        ).ts);
        k += 1;
    }
}

fn find_id(ts: &Vec<RtpTransceiver>, id: u64) -> (r: Option<usize>)
    ensures
        match r {
            Some(i) => i < ts@.len() && first(transceivers(ts@), id_is(id)) == Some(i as int),
            None => first(transceivers(ts@), id_is(id)) is None,
        },
{
    let ghost t = transceivers(ts@);
    let mut i: usize = 0;
    while i < ts.len()
        invariant
            i <= ts@.len(),
            t == transceivers(ts@),
            first(t, id_is(id)) == first_from(t, id_is(id), i as int),
        decreases ts@.len() - i,
    {
        assert(t[i as int] == ts@[i as int]@);
        if ts[i].id() == id {
            return Some(i);
        }
        i += 1;
    }
    None
}

fn attach_id(ts: &mut Vec<RtpTransceiver>, id: u64, transport: u64, list: &mut Vec<Action>)
    requires
        all_wf(transceivers(old(ts)@)),
    ensures
        all_wf(transceivers(final(ts)@)),
        (TsStep { ts: transceivers(final(ts)@), acts: actions(final(list)@) }) == attached_id(
            (TsStep { ts: transceivers(old(ts)@), acts: actions(old(list)@) }),
            id,
            transport,
        ),
{
    let ghost st = TsStep { ts: transceivers(ts@), acts: actions(list@) };
    if let Some(i) = find_id(ts, id) {
        assert(st.ts[i as int] == ts@[i as int]@);
        attach_transceiver(&mut ts[i], transport, list);
        assert(transceivers(ts@) =~= st.with(
            i as int,
            attach_step(st.at(i as int), transport),
        ).ts);
    }
}

impl PeerConnection {
    /// The primary transport.
    pub fn rtp_transport(&self) -> (r: Option<u64>)
        ensures
            r == self@.rtp,
    {
        self.rtp_transport
    }

    /// The SCTP transport.
    pub fn sctp_transport(&self) -> (r: Option<u64>)
        ensures
            r == self@.sctp,
    {
        self.sctp_transport
    }

    /// The DTLS transport.
    pub fn dtls_transport(&self) -> (r: Option<u64>)
        ensures
            r == self@.dtls,
    {
        self.dtls_transport
    }

    /// Our DTLS role: true for the client.
    pub fn dtls_role(&self) -> (r: Option<bool>)
        ensures
            r == self@.role,
    {
        self.dtls_role
    }

    /// The transports that a rewriting bridge from us to another connection joins.
    pub fn bridge_rtp_with_rewrite_to(&self, to: &PeerConnection) -> (r: RtcResult<(u64, u64)>)
        ensures
            match r {
                Ok(x) => self@.rtp == Some(x.0) && to@.rtp == Some(x.1),
                Err(e) => if self@.rtp is None {
                    e@ == RtcErrorView::InvalidState(
                        "RTP transport is not ready for source PeerConnection"@,
                    )
                } else {
                    to@.rtp is None && e@ == RtcErrorView::InvalidState(
                        "RTP transport is not ready for destination PeerConnection"@,
                    )
                },
            },
    {
        match self.rtp_transport {
            None => Err(
                RtcError::invalid_state("RTP transport is not ready for source PeerConnection"),
            ),
            Some(a) => match to.rtp_transport {
                None => Err(
                    RtcError::invalid_state(
                        "RTP transport is not ready for destination PeerConnection",
                    ),
                ),
                Some(b) => Ok((a, b)),
            },
        }
    }

    /// The transports that a bridge which rewrites by payload type joins.
    pub fn bridge_rtp_with_rewrite_rules(&self, to: &PeerConnection) -> (r: RtcResult<(u64, u64)>)
        ensures
            match r {
                Ok(x) => self@.rtp == Some(x.0) && to@.rtp == Some(x.1),
                Err(e) => if self@.rtp is None {
                    e@ == RtcErrorView::InvalidState(
                        "RTP transport is not ready for source PeerConnection"@,
                    )
                } else {
                    to@.rtp is None && e@ == RtcErrorView::InvalidState(
                        "RTP transport is not ready for destination PeerConnection"@,
                    )
                },
            },
    {
        self.bridge_rtp_with_rewrite_to(to)
    }

    /// The transport that a rewriting bridge onto ourselves is on.
    pub fn bridge_rtp_with_rewrite_to_self(&self) -> (r: RtcResult<u64>)
        ensures
            match r {
                Ok(t) => self@.rtp == Some(t),
                Err(e) => self@.rtp is None && e@ == RtcErrorView::InvalidState(
                    "RTP transport is not ready for PeerConnection"@,
                ),
            },
    {
        match self.rtp_transport {
            Some(t) => Ok(t),
            None => Err(RtcError::invalid_state("RTP transport is not ready for PeerConnection")),
        }
    }

    /// The transport that a packet which no sender sends leaves on.
    pub fn send_raw_rtp(&self) -> (r: RtcResult<u64>)
        ensures
            match r {
                Ok(t) => self@.raw_transport() == Some(t),
                Err(e) => self@.raw_transport() is None && e@ == RtcErrorView::InvalidState(
                    "RTP transport is not ready for send_raw_rtp"@,
                ),
            },
    {
        let ghost t = self@.ts;
        let mut i: usize = 0;
        while i < self.transceivers.len() && self.transceivers[i].kind() != MediaKind::Audio
            invariant
                i <= self.transceivers@.len(),
                t == transceivers(self.transceivers@),
                first(t, kind_is(MediaKind::Audio)) == first_from(
                    t,
                    kind_is(MediaKind::Audio),
                    i as int,
                ),
            decreases self.transceivers@.len() - i,
        {
            assert(t[i as int] == self.transceivers@[i as int]@);
            i += 1;
        }
        let mut found: Option<u64> = None;
        if i < self.transceivers.len() {
            assert(t[i as int] == self.transceivers@[i as int]@);
            if let Some(s) = self.transceivers[i].sender() {
                found = s.transport();
            }
        }
        if found.is_none() {
            found = self.rtp_transport;
        }
        match found {
            Some(x) => Ok(x),
            None => Err(RtcError::invalid_state("RTP transport is not ready for send_raw_rtp")),
        }
    }

    /// All transports, the primary one first.
    pub fn all_transports(&self) -> (r: Vec<u64>)
        ensures
            r@ == self@.all_transports(),
    {
        let ghost own = self@.media.map_values(|e: (u64, u64)| e.1);
        let mut out: Vec<u64> = Vec::new();
        if let Some(t) = self.rtp_transport {
            out.push(t);
        }
        let ghost head = out@;
        let mut i: usize = 0;
        while i < self.rtp_media_transports.len()
            invariant
                i <= self.rtp_media_transports@.len(),
                own == self.rtp_media_transports@.map_values(|e: (u64, u64)| e.1),
                out@ == head + own.take(i as int),
            decreases self.rtp_media_transports@.len() - i,
        {
            out.push(self.rtp_media_transports[i].1);
            i += 1;
            assert(out@ =~= head + own.take(i as int));
        }
        assert(own.take(i as int) =~= own);
        assert(out@ =~= self@.all_transports());
        out
    }

    /// The transport of a transceiver: its own, else `default`.
    pub fn rtp_transport_for_transceiver_or(&self, id: u64, default: u64) -> (r: u64)
        ensures
            r == own_or(self@.media, id, default),
    {
        match find_transport(&self.rtp_media_transports, id) {
            Some(t) => t,
            None => default,
        }
    }

    /// Attaches a transceiver to a transport.
    pub fn attach_rtp_transport_to_transceiver(
        &mut self,
        id: u64,
        transport: u64,
        list: &mut Vec<Action>,
    )
        requires
            old(self)@.wf(),
        ensures
            final(self)@.wf(),
            ({
                let st = attached_id(old(self)@.step(actions(old(list)@)), id, transport);
                &&& final(self)@ == (ConnectionView { ts: st.ts, ..old(self)@ })
                &&& actions(final(list)@) == st.acts
            }),
    {
        attach_id(&mut self.transceivers, id, transport, list);
    }

    /// Gives up all transports that single transceivers have of their own.
    pub fn stop_extra_rtp_media_transports(&mut self, list: &mut Vec<Action>)
        ensures
            final(self)@ == (ConnectionView {
                media: Seq::empty(),
                media_ice: Seq::empty(),
                ..old(self)@
            }),
            actions(final(list)@) == all_stopped_from(
                old(self)@.media_ice,
                0,
                all_silenced_from(old(self)@.media, 0, actions(old(list)@)),
            ),
            old(self)@.wf() ==> final(self)@.wf(),
    {
        let ghost v0 = self@;
        silence_all(&self.rtp_media_transports, list);
        self.rtp_media_transports = Vec::new();
        stop_all(&self.rtp_media_ice_transports, list);
        self.rtp_media_ice_transports = Vec::new();
        assert(self@ =~= (ConnectionView {
            media: Seq::empty(),
            media_ice: Seq::empty(),
            ..v0
        }));
    }

    /// How the primary transport is made for a selected pair, or the error where ICE has none.
    pub fn plan_primary_transport(&self, pair: Option<SocketAddress>, hosts: &HostTable) -> (r:
        RtcResult<TransportTerms>)
        ensures
            match pair {
                Some(remote) => r matches Ok(t) && t == self@.transport_terms(remote, hosts@),
                None => r matches Err(e) && e@ == RtcErrorView::Internal("No selected pair"@),
            },
    {
        let remote = match pair {
            Some(a) => a,
            None => {
                return Err(RtcError::internal("No selected pair"));
            },
        };
        let rtcp: Option<SocketAddress> = match &self.remote_description {
            Some(d) => if self.config.transport_mode != TransportMode::WebRtc {
                remote_rtcp_addr_from_sdp(d, remote, hosts)
            } else {
                None
            },
            None => None,
        };
        Ok(
            TransportTerms {
                latch: self.config.is_direct() && self.config.enable_latching,
                rtcp,
                srtp_required: self.config.transport_mode != TransportMode::Rtp,
                allow_ssrc_change: self.config.enable_latching,
            },
        )
    }

    /// Takes a primary transport that was made: all observers see it, receivers listen on it
    /// before anything is secured, unless they have transports of their own, and on plain RTP
    /// senders start.
    pub fn adopt_transport(&mut self, transport: u64, list: &mut Vec<Action>)
        requires
            old(self)@.wf(),
        ensures
            final(self)@.wf(),
            ({
                let a = listened_from(
                    old(self)@.step(
                        observed_from(
                            old(self)@.observers,
                            transport,
                            0,
                            actions(old(list)@),
                        ),
                    ),
                    old(self)@.media,
                    transport,
                    0,
                );
                let b = if old(self)@.config.transport_mode == TransportMode::Rtp {
                    attached_from(a, old(self)@.media, transport, 0)
                } else {
                    a
                };
                &&& final(self)@ == (ConnectionView {
                    rtp: Some(transport),
                    ts: b.ts,
                    ..old(self)@
                })
                &&& actions(final(list)@) == b.acts
            }),
    {
        self.rtp_transport = Some(transport);
        attach_registered_observers(&self.rtp_observers, transport, list);
        listen_all(&mut self.transceivers, &self.rtp_media_transports, transport, list);
        if self.config.transport_mode == TransportMode::Rtp {
            attach_all(&mut self.transceivers, &self.rtp_media_transports, transport, list);
        }
    }

    /// Takes the primary transport once its keys are set up: all senders and receivers move there,
    /// and all observers see it.
    pub fn secure_transport(&mut self, transport: u64, list: &mut Vec<Action>)
        requires
            old(self)@.wf(),
        ensures
            final(self)@.wf(),
            ({
                let a = wired_from(old(self)@.step(actions(old(list)@)), transport, 0);
                &&& final(self)@ == (ConnectionView {
                    rtp: Some(transport),
                    ts: a.ts,
                    ..old(self)@
                })
                &&& actions(final(list)@) == observed_from(
                    old(self)@.observers,
                    transport,
                    0,
                    a.acts,
                )
            }),
    {
        wire_all(&mut self.transceivers, transport, list);
        self.rtp_transport = Some(transport);
        attach_registered_observers(&self.rtp_observers, transport, list);
    }

    /// The keys of SDES by both descriptions.
    pub fn sdes_keys(&self) -> (r: RtcResult<crate::sdes::SrtpKeys>)
        ensures
            match r {
                Ok(k) => crate::sdes::sdes_keys(self@.local, self@.remote) == Ok::<
                    crate::sdes::KeysView,
                    RtcErrorView,
                >(k@),
                Err(e) => crate::sdes::sdes_keys(self@.local, self@.remote) == Err::<
                    crate::sdes::KeysView,
                    RtcErrorView,
                >(e@),
            },
    {
        crate::sdes::setup_sdes_keys(&self.local_description, &self.remote_description)
    }

    /// Whether both descriptions carry crypto attributes, so that SDES can be set up.
    pub fn sdes_ready(&self) -> (r: bool)
        ensures
            r == (crate::sdes::carries_crypto(self@.local) && crate::sdes::carries_crypto(
                self@.remote,
            )),
    {
        crate::sdes::sdes_ready(&self.local_description, &self.remote_description)
    }

    /// Whether an SCTP transport is needed: the remote side has data channels.
    pub fn sctp_needed(&self) -> (r: bool)
        ensures
            r == (self@.remote matches Some(d) && first(d.media, of_kind(MediaKind::Application))
                is Some),
    {
        match &self.remote_description {
            Some(d) => find_section_of_kind(&d.media_sections, MediaKind::Application).is_some(),
            None => false,
        }
    }

    /// Takes an SCTP transport that was made.
    pub fn adopt_sctp(&mut self, transport: u64)
        ensures
            final(self)@ == (ConnectionView { sctp: Some(transport), ..old(self)@ }),
            old(self)@.wf() ==> final(self)@.wf(),
    {
        self.sctp_transport = Some(transport);
        assert(self@ =~= (ConnectionView { sctp: Some(transport), ..old(self)@ }));
    }

    /// Takes a DTLS transport that was made; an earlier one closes.
    pub fn adopt_dtls(&mut self, transport: u64, list: &mut Vec<Action>)
        ensures
            final(self)@ == (ConnectionView { dtls: Some(transport), ..old(self)@ }),
            actions(final(list)@) == (match old(self)@.dtls {
                Some(t) => actions(old(list)@).push(ActionView::CloseDtls { transport: t }),
                None => actions(old(list)@),
            }),
            old(self)@.wf() ==> final(self)@.wf(),
    {
        if let Some(t) = self.dtls_transport {
            push_action(list, Action::CloseDtls { transport: t });
        }
        self.dtls_transport = Some(transport);
        assert(self@ =~= (ConnectionView { dtls: Some(transport), ..old(self)@ }));
    }

    /// Whether the ICE transport that a transceiver has of its own has to be made first; from now
    /// on the transceiver has one.
    pub fn direct_rtp_ice_transport(&mut self, id: u64, primary: bool) -> (r: bool)
        ensures
            r == (!primary && !old(self)@.media_ice.contains(id)),
            final(self)@ == (ConnectionView {
                media_ice: if r {
                    old(self)@.media_ice.push(id)
                } else {
                    old(self)@.media_ice
                },
                ..old(self)@
            }),
            old(self)@.wf() ==> final(self)@.wf(),
    {
        if primary || holds_id(&self.rtp_media_ice_transports, id) {
            return false;
        }
        self.rtp_media_ice_transports.push(id);
        assert(self@ =~= (ConnectionView {
            media_ice: old(self)@.media_ice.push(id),
            ..old(self)@
        }));
        true
    }

    /// What a lite ICE agent tells an ICE transport, given the remote credentials; nothing where the
    /// connection is not a lite agent.
    pub fn ice_lite_terms(&self, credentials: &Credentials) -> (r: LiteTerms)
        ensures
            r.keep_candidates == self@.config.enable_ice_lite,
            r.controlled == (self@.config.enable_ice_lite && credentials@.ufrag is Some
                && credentials@.pwd is Some),
    {
        let lite: bool = self.config.enable_ice_lite;
        LiteTerms {
            controlled: lite && credentials.ufrag.is_some() && credentials.pwd.is_some(),
            keep_candidates: lite,
        }
    }

    /// Gives a transceiver a direct transport of its own: the one it has, pointed anew, else
    /// `fresh`.
    pub fn ensure_direct_rtp_media_transport(
        &mut self,
        id: u64,
        setup: &Option<MediaSetup>,
        fresh: u64,
        list: &mut Vec<Action>,
    ) -> (r: MediaTransport)
        ensures
            r == old(self)@.media_transport(id, *setup, fresh),
            final(self)@ == (ConnectionView {
                media: with_transport(old(self)@.media, id, r.transport),
                ..old(self)@
            }),
            actions(final(list)@) == old(self)@.media_pointed(
                id,
                *setup,
                fresh,
                actions(old(list)@),
            ),
            old(self)@.wf() ==> final(self)@.wf(),
    {
        let ghost v0 = self@;
        let latch: bool = self.config.enable_latching;
        let remote: SocketAddress = match setup {
            Some(s) => s.remote,
            None => unspecified_address(),
        };
        match find_transport(&self.rtp_media_transports, id) {
            Some(t) => {
                if let Some(s) = setup {
                    point_transport(list, t, s.remote, s.rtcp, s.expected_ssrc);
                }
                proof {
                    same_transport_again(v0.media, id);
                }
                MediaTransport { transport: t, created: false, remote, latch }
            },
            None => {
                let rtcp: Option<SocketAddress> = match setup {
                    Some(s) => s.rtcp,
                    None => None,
                };
                push_action(list, Action::SetRtcpAddress { transport: fresh, address: rtcp });
                if let Some(s) = setup {
                    if let Some(n) = s.expected_ssrc {
                        push_action(list, Action::ExpectSsrc { transport: fresh, ssrc: n });
                    }
                }
                attach_registered_observers(&self.rtp_observers, fresh, list);
                set_transport(&mut self.rtp_media_transports, id, fresh);
                assert(self@ =~= (ConnectionView {
                    media: with_transport(v0.media, id, fresh),
                    ..v0
                }));
                MediaTransport { transport: fresh, created: true, remote, latch }
            },
        }
    }

    /// Applies the setup of a direct transport once its socket is there: the primary transport is
    /// pointed to the remote side, or the transceiver gets a transport of its own, and the
    /// transceiver is attached.
    pub fn configure_rtp_media_transport(
        &mut self,
        setup: &MediaSetup,
        fresh: u64,
        list: &mut Vec<Action>,
    ) -> (r: Option<MediaTransport>)
        requires
            old(self)@.wf(),
        ensures
            final(self)@.wf(),
            final(self)@ == old(self)@.configured(*setup, fresh, actions(old(list)@)).v,
            actions(final(list)@) == old(self)@.configured(
                *setup,
                fresh,
                actions(old(list)@),
            ).acts,
            r == (if setup.primary {
                None
            } else {
                Some(old(self)@.media_transport(setup.transceiver, Some(*setup), fresh))
            }),
    {
        let ghost v0 = self@;
        if setup.primary {
            if let Some(t) = self.rtp_transport {
                point_transport(list, t, setup.remote, setup.rtcp, setup.expected_ssrc);
                attach_id(&mut self.transceivers, setup.transceiver, t, list);
                assert(self@ =~= v0.configured(*setup, fresh, actions(old(list)@)).v);
            }
            return None;
        }
        let some = Some(*setup);
        let m = self.ensure_direct_rtp_media_transport(setup.transceiver, &some, fresh, list);
        attach_id(&mut self.transceivers, setup.transceiver, m.transport, list);
        assert(self@ =~= v0.configured(*setup, fresh, actions(old(list)@)).v);
        Some(m)
    }

    /// Begins a transport plan: in a BUNDLE group the transports of single transceivers go.
    pub fn begin_transport_plan(&mut self, plan: &TransportPlan, list: &mut Vec<Action>)
        ensures
            plan.bundled ==> final(self)@ == (ConnectionView {
                media: Seq::empty(),
                media_ice: Seq::empty(),
                ..old(self)@
            }) && actions(final(list)@) == all_stopped_from(
                old(self)@.media_ice,
                0,
                all_silenced_from(old(self)@.media, 0, actions(old(list)@)),
            ),
            !plan.bundled ==> final(self)@ == old(self)@ && actions(final(list)@) == actions(
                old(list)@,
            ),
            old(self)@.wf() ==> final(self)@.wf(),
    {
        if plan.bundled {
            self.stop_extra_rtp_media_transports(list);
        }
    }

    /// Ends a transport plan: in a BUNDLE group all media is attached to the primary transport.
    pub fn end_transport_plan(&mut self, plan: &TransportPlan, list: &mut Vec<Action>)
        requires
            old(self)@.wf(),
        ensures
            final(self)@.wf(),
            ({
                let st = old(self)@.step(actions(old(list)@));
                let a = match old(self)@.rtp {
                    Some(t) => attached_ids_from(st, plan.shared@, t, 0),
                    None => st,
                };
                &&& final(self)@ == (ConnectionView { ts: a.ts, ..old(self)@ })
                &&& actions(final(list)@) == a.acts
            }),
    {
        let ghost v0 = self@;
        let ghost start = v0.step(actions(list@));
        if let Some(t) = self.rtp_transport {
            let mut k: usize = 0;
            while k < plan.shared.len()
                invariant
                    k <= plan.shared@.len(),
                    self@.wf(),
                    self@ == (ConnectionView { ts: self@.ts, ..v0 }),
                    attached_ids_from(start, plan.shared@, t, 0) == attached_ids_from(
                        self@.step(actions(list@)),
                        plan.shared@,
                        t,
                        k as int,
                    ),
                decreases plan.shared@.len() - k,
            {
                self.attach_rtp_transport_to_transceiver(plan.shared[k], t, list);
                k += 1;
            }
        }
    }

    /// Sets where RTCP goes by the remote description, given where each transport sends RTP: along
    /// with RTP where the section multiplexes, else to the port it names, else to the next port.
    pub fn update_rtcp_mux_from_remote(
        &self,
        known: &Vec<(u64, SocketAddress)>,
        hosts: &HostTable,
        list: &mut Vec<Action>,
    )
        ensures
            actions(final(list)@) == self@.rtcp_routed(known@, hosts@, actions(old(list)@)),
    {
        let ghost v = self@;
        let ghost a0 = actions(list@);
        let desc = match &self.remote_description {
            Some(d) => d,
            None => {
                return;
            },
        };
        if let Some(t) = self.rtp_transport {
            if let Some(a) = find_address(known, t) {
                push_action(
                    list,
                    Action::SetRtcpAddress {
                        transport: t,
                        address: remote_rtcp_addr_from_sdp(desc, a, hosts),
                    },
                );
            }
        }
        let ghost a1 = actions(list@);
        let found = matched_rtp_media_sections(&self.transceivers, desc);
        let ghost p = pairs(found@);
        let mut k: usize = 0;
        while k < found.len()
            invariant
                k <= found@.len(),
                v == self@,
                v.ts == transceivers(self.transceivers@),
                v.media == self.rtp_media_transports@,
                p == pairs(found@),
                forall|i: int|
                    0 <= i < found@.len() ==> (#[trigger] found@[i]).0 < self.transceivers@.len()
                        && found@[i].1 < desc.media_sections@.len(),
                own_rtcp_from(v, desc@, p, known@, hosts@, 0, a1) == own_rtcp_from(
                    v,
                    desc@,
                    p,
                    known@,
                    hosts@,
                    k as int,
                    actions(list@),
                ),
            decreases found@.len() - k,
        {
            assert(p[k as int] == (found@[k as int].0 as int, found@[k as int].1 as int));
            let s = &desc.media_sections[found[k].1];
            assert(desc@.media[found@[k as int].1 as int] == s@);
            assert(v.ts[found@[k as int].0 as int]
                == self.transceivers@[found@[k as int].0 as int]@);
            let id: u64 = self.transceivers[found[k].0].id();
            if let Some(t) = find_transport(&self.rtp_media_transports, id) {
                if let Some(a) = find_address(known, t) {
                    push_action(
                        list,
                        Action::SetRtcpAddress {
                            transport: t,
                            address: remote_rtcp_addr_from_media_section(s, a, hosts),
                        },
                    );
                }
            }
            k += 1;
        }
    }

    /// The transceivers, by their places, whose senders an RTCP packet is delivered to.
    pub fn rtcp_receivers(&self, packet: &RtcpPacket) -> (r: Vec<usize>)
        ensures
            r@ == rtcp_receivers_from(self@.ts, *packet, 0, Seq::empty()),
    {
        let ghost t = self@.ts;
        let mut out: Vec<usize> = Vec::new();
        let mut i: usize = 0;
        while i < self.transceivers.len()
            invariant
                i <= self.transceivers@.len(),
                t == transceivers(self.transceivers@),
                rtcp_receivers_from(t, *packet, 0, Seq::empty()) == rtcp_receivers_from(
                    t,
                    *packet,
                    i as int,
                    out@,
                ),
            decreases self.transceivers@.len() - i,
        {
            assert(t[i as int] == self.transceivers@[i as int]@);
            if let Some(s) = self.transceivers[i].sender() {
                if rtcp_targets_sender(packet, s.ssrc()) {
                    out.push(i);
                }
            }
            i += 1;
        }
        out
    }

    /// The SCTP transport that data is sent on.
    pub fn data_transport(&self) -> (r: RtcResult<u64>)
        ensures
            match r {
                Ok(t) => self@.sctp == Some(t),
                Err(e) => self@.sctp is None && e@ == RtcErrorView::InvalidState(
                    "SCTP not connected"@,
                ),
            },
    {
        match self.sctp_transport {
            Some(t) => Ok(t),
            None => Err(RtcError::invalid_state("SCTP not connected")),
        }
    }
}

/// `acc` with the places from `k` on of transceivers whose senders a packet concerns.
pub open spec fn rtcp_receivers_from(
    ts: Seq<TransceiverView>,
    packet: RtcpPacket,
    k: int,
    acc: Seq<usize>,
) -> Seq<usize>
    decreases ts.len() - k,
{
    if k < 0 || k >= ts.len() {
        acc
    } else {
        match ts[k].sender {
            Some(s) => if targets_sender(packet, s.ssrc) {
                rtcp_receivers_from(ts, packet, k + 1, acc.push(k as usize))
            } else {
                rtcp_receivers_from(ts, packet, k + 1, acc)
            },
            None => rtcp_receivers_from(ts, packet, k + 1, acc),
        }
    }
}

proof fn same_transport_again(m: Seq<(u64, u64)>, id: u64)
    requires
        transport_of(m, id) is Some,
    ensures
        with_transport(m, id, transport_of(m, id)->0) == m,
{
    crate::search::first_from_facts(m, crate::registry::entry_of(id), 0);
    let i = first(m, crate::registry::entry_of(id))->0;
    assert(m.update(i, (id, m[i].1)) =~= m);
}

/// Once a transport is secured, every sender and every receiver is on it.
pub proof fn securing_moves_all_media(st: TsStep, transport: u64, i: int)
    requires
        0 <= i < st.ts.len(),
    ensures
        wired_from(st, transport, 0).ts.len() == st.ts.len(),
        wired_from(st, transport, 0).ts[i].sender matches Some(s) ==> s.transport == Some(
            transport,
        ),
        wired_from(st, transport, 0).ts[i].receiver matches Some(r) ==> r.transport == Some(
            transport,
        ),
{
    wired_from_moves(st, transport, 0, i);
}

proof fn wired_from_moves(st: TsStep, transport: u64, k: int, i: int)
    requires
        0 <= k <= st.ts.len(),
        0 <= i < st.ts.len(),
    ensures
        ({
            let w = wired_from(st, transport, k);
            &&& w.ts.len() == st.ts.len()
            &&& i < k ==> w.ts[i] == st.ts[i]
            &&& i >= k ==> (w.ts[i].sender matches Some(s) ==> s.transport == Some(transport)) && (
            w.ts[i].receiver matches Some(r) ==> r.transport == Some(transport))
        }),
    decreases st.ts.len() - k,
{
    if k < st.ts.len() {
        let next = st.with(k, wire_step(st.at(k), transport));
        wired_from_moves(next, transport, k + 1, i);
    }
}

} // verus!

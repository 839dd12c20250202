//! How a connection comes up, goes down and recovers.

use super::ConnectionView;
use super::PeerConnection;
use crate::action::actions;
use crate::action::push_action;
use crate::action::Action;
use crate::action::ActionView;
use crate::config::TransportMode;
use crate::error::RtcError;
use crate::error::RtcErrorView;
use crate::error::RtcResult;
use crate::rtp::Goodbye;
use crate::state::ice_connection_of;
use crate::state::ice_gone;
use crate::state::ice_up;
use crate::state::is_ice_up;
use crate::state::is_ice_failed_or_closed;
use crate::state::reason_of_sctp;
use crate::state::reason_opt;
use crate::state::sctp_reason;
use crate::state::to_ice_connection_state;
use crate::state::DisconnectReason;
use crate::state::DtlsState;
use crate::state::IceConnectionState;
use crate::state::IceGatheringState;
use crate::state::IceTransportState;
use crate::state::PeerConnectionState;
use crate::state::ReasonView;
use crate::state::SignalingState;
use crate::text::joined;
use crate::text::text_opt;
use crate::transceiver::transceivers;
use crate::transceiver::TransceiverView;
use vstd::prelude::*;

verus! {

/// What follows from a state of the ICE transport.
#[derive(Clone, Copy, PartialEq, Eq, Structural, Debug)]
pub enum IceStep {
    /// The path works: the transport starts on it.
    Up,
    /// The connection is over.
    Over,
    /// The next state is awaited.
    Wait,
}

/// What follows from a state of the ICE transport.
pub open spec fn ice_step(s: IceTransportState) -> IceStep {
    if ice_up(s) {
        IceStep::Up
    } else if ice_gone(s) {
        IceStep::Over
    } else {
        IceStep::Wait
    }
}

/// What follows once ICE has a working path.
#[derive(Clone, Copy, PartialEq, Eq, Structural, Debug)]
pub enum NominationStep {
    /// A nomination is awaited, for at most so many milliseconds and as long as the path works.
    Await { limit_ms: u64 },
    /// No pair was nominated: the path has to go before anything else happens.
    AwaitIceLoss,
    /// The transport starts without DTLS.
    StartDirect,
    /// The transport starts with DTLS.
    StartDtls,
}

/// What follows for a nomination: none yet, a failed one or one that succeeded. Each candidate pair
/// has the timeout for its own checks, and several are tried.
pub open spec fn nomination_step(
    nomination: Option<bool>,
    timeout_ms: u64,
    mode: TransportMode,
) -> NominationStep {
    match nomination {
        None => NominationStep::Await {
            limit_ms: if timeout_ms * 6 <= u64::MAX {
                (timeout_ms * 6) as u64
            } else {
                u64::MAX
            },
        },
        Some(false) => NominationStep::AwaitIceLoss,
        Some(true) => if mode == TransportMode::WebRtc {
            NominationStep::StartDtls
        } else {
            NominationStep::StartDirect
        },
    }
}

/// A loop that watches a transport that was started.
#[derive(Clone, Copy, PartialEq, Eq, Structural, Debug)]
pub struct ConnectedLoop {
    /// The transport runs DTLS.
    pub dtls: bool,
    /// How often the path was found again; timers of an earlier count are stale.
    pub epoch: u64,
}

/// What a transport that was started may report.
#[derive(Debug)]
pub enum ConnectedEvent {
    /// The loops of the transport ended, SCTP for the given reason, with ICE in the given state.
    LoopsEnded { close_reason: Option<String>, ice: IceTransportState },
    /// ICE went to a state.
    Ice(IceTransportState),
    /// ICE reports nothing any more.
    IceGone,
    /// DTLS went to a state.
    Dtls(DtlsState),
    /// DTLS reports nothing any more, with ICE in the given state.
    DtlsGone { ice: IceTransportState },
    /// The grace timer of an epoch ran out.
    GraceExpired { epoch: u64 },
}

/// What follows from a report.
#[derive(Clone, Copy, PartialEq, Eq, Structural, Debug)]
pub enum ConnectedStep {
    /// The loop goes on.
    Stay,
    /// The loop goes on, and a grace timer starts for an epoch.
    StartGrace { epoch: u64 },
    /// The loop ends; ICE is looked at again where `again` holds, else the connection is over.
    End { again: bool },
}

/// The connection and the loop after a report, the actions so far, and what follows.
#[verifier::ext_equal]
pub struct ConnectedChange {
    pub v: ConnectionView,
    pub epoch: u64,
    pub acts: Seq<ActionView>,
    pub step: ConnectedStep,
}

impl ConnectionView {
    /// The connection with a reason for its end; the first one stays.
    pub open spec fn noted(self, r: ReasonView) -> ConnectionView {
        ConnectionView {
            reason: match self.reason {
                None => Some(r),
                Some(x) => Some(x),
            },
            ..self
        }
    }

    /// The connection with the reason why its SCTP transport closed.
    pub open spec fn noted_sctp(self, close: Option<Seq<char>>) -> ConnectionView {
        match (self.sctp, close) {
            (Some(_), Some(text)) => match sctp_reason(text) {
                Some(r) => self.noted(r),
                None => self,
            },
            _ => self,
        }
    }

    /// The connection in a state.
    pub open spec fn in_state(self, peer: PeerConnectionState) -> ConnectionView {
        ConnectionView { peer, ..self }
    }

    /// The connection in a state that shows in its ICE state too, where DTLS runs.
    pub open spec fn in_states(
        self,
        peer: PeerConnectionState,
        ice: IceConnectionState,
        dtls: bool,
    ) -> ConnectionView {
        ConnectionView {
            peer,
            ice: if dtls {
                ice
            } else {
                self.ice
            },
            ..self
        }
    }

    /// The connection after ICE went to a state.
    pub open spec fn after_ice(self, s: IceTransportState) -> ConnectionView {
        let v = ConnectionView { ice: ice_connection_of(s), ..self };
        match s {
            IceTransportState::Failed => v.noted(ReasonView::IceFailed).in_state(
                PeerConnectionState::Failed,
            ),
            IceTransportState::Closed => v.noted(ReasonView::IceDisconnected).in_state(
                PeerConnectionState::Closed,
            ),
            _ => v,
        }
    }

    /// The connection after its transport started, or failed to with an error.
    pub open spec fn after_start(self, dtls: bool, error: Option<Seq<char>>) -> ConnectionView {
        match error {
            None => self.in_state(PeerConnectionState::Connected),
            Some(e) => self.noted(
                if dtls {
                    ReasonView::DtlsFailed
                } else {
                    ReasonView::TransportStartFailed(e)
                },
            ).in_state(PeerConnectionState::Failed),
        }
    }

    /// The actions with one that closes the SCTP transport, if there is one.
    pub open spec fn closing_sctp(self, acts: Seq<ActionView>) -> Seq<ActionView> {
        match self.sctp {
            Some(t) => acts.push(ActionView::CloseSctp { transport: t }),
            None => acts,
        }
    }

    /// What follows from a report of a transport that was started.
    pub open spec fn watched(
        self,
        l: ConnectedLoop,
        e: ConnectedEvent,
        acts: Seq<ActionView>,
    ) -> ConnectedChange {
        let same = ConnectedChange { v: self, epoch: l.epoch, acts, step: ConnectedStep::Stay };
        match e {
            ConnectedEvent::LoopsEnded { close_reason, ice } => ConnectedChange {
                v: self.noted_sctp(text_opt(close_reason)),
                step: ConnectedStep::End { again: l.dtls && ice_gone(ice) },
                ..same
            },
            ConnectedEvent::IceGone => ConnectedChange {
                step: ConnectedStep::End { again: false },
                ..same
            },
            ConnectedEvent::Ice(s) => if ice_gone(s) {
                ConnectedChange { step: ConnectedStep::End { again: true }, ..same }
            } else if s == IceTransportState::Disconnected {
                ConnectedChange {
                    v: self.in_states(
                        PeerConnectionState::Disconnected,
                        IceConnectionState::Disconnected,
                        l.dtls,
                    ),
                    step: ConnectedStep::StartGrace { epoch: l.epoch },
                    ..same
                }
            } else if ice_up(s) {
                ConnectedChange {
                    v: self.in_states(
                        PeerConnectionState::Connected,
                        IceConnectionState::Connected,
                        l.dtls,
                    ),
                    epoch: l.epoch.wrapping_add(1),
                    ..same
                }
            } else {
                same
            },
            ConnectedEvent::Dtls(s) => if l.dtls && (s == DtlsState::Closed || s
                == DtlsState::Failed) {
                ConnectedChange {
                    v: self.noted(
                        if s == DtlsState::Failed {
                            ReasonView::DtlsFailed
                        } else {
                            ReasonView::DtlsClosed
                        },
                    ).in_states(
                        PeerConnectionState::Disconnected,
                        IceConnectionState::Disconnected,
                        true,
                    ),
                    step: ConnectedStep::End { again: false },
                    ..same
                }
            } else {
                same
            },
            ConnectedEvent::DtlsGone { ice } => if l.dtls {
                ConnectedChange { step: ConnectedStep::End { again: ice_gone(ice) }, ..same }
            } else {
                same
            },
            ConnectedEvent::GraceExpired { epoch } => if epoch == l.epoch {
                ConnectedChange {
                    v: self.noted(ReasonView::IceDisconnected).in_states(
                        PeerConnectionState::Disconnected,
                        IceConnectionState::Disconnected,
                        l.dtls,
                    ),
                    acts: self.closing_sctp(acts),
                    step: ConnectedStep::End { again: true },
                    ..same
                }
            } else {
                same
            },
        }
    }

    /// The reason with which a close ends: one that is known, else why SCTP closed, else the one
    /// that is given.
    pub open spec fn final_reason(self, r: ReasonView, close: Option<Seq<char>>) -> ReasonView {
        match self.noted_sctp(close).noted(r).reason {
            Some(x) => x,
            None => r,
        }
    }

    /// The connection once it is closed.
    pub open spec fn closed(self, r: ReasonView, close: Option<Seq<char>>) -> ConnectionView {
        ConnectionView {
            reason: Some(self.final_reason(r, close)),
            signaling: SignalingState::Closed,
            peer: PeerConnectionState::Closed,
            ice: IceConnectionState::Closed,
            gathering: IceGatheringState::Complete,
            media: Seq::empty(),
            media_ice: Seq::empty(),
            sctp: None,
            ..self
        }
    }

    /// The goodbye of the primary transport, if there is one and anything was sent on it.
    pub open spec fn farewell(self, acts: Seq<ActionView>) -> Seq<ActionView> {
        match self.rtp {
            Some(t) => {
                let a = acts.push(ActionView::ClearListeners { transport: t });
                if sending_from(self.ts, 0, Seq::empty()).len() > 0 {
                    a.push(
                        ActionView::SendBye {
                            transport: t,
                            sources: sending_from(self.ts, 0, Seq::empty()),
                            reason: Some("PeerConnection closed"@),
                        },
                    )
                } else {
                    a
                }
            },
            None => acts,
        }
    }

    /// What closing asks for: tracks end, then the transports say goodbye and close, the inner ones
    /// before the outer ones.
    pub open spec fn closing(self, acts: Seq<ActionView>) -> Seq<ActionView> {
        let a = self.farewell(tracks_ended_from(self.ts, 0, acts));
        let b = self.closing_sctp(all_silenced_from(self.media, 0, a));
        let c = match self.dtls {
            Some(t) => b.push(ActionView::CloseDtls { transport: t }),
            None => b,
        };
        all_stopped_from(self.media_ice, 0, c.push(ActionView::StopPrimaryIce))
    }
}

/// The SSRCs of the senders from index `k` on, after `acc`.
pub open spec fn sending_from(ts: Seq<TransceiverView>, k: int, acc: Seq<u32>) -> Seq<u32>
    decreases ts.len() - k,
{
    if k < 0 || k >= ts.len() {
        acc
    } else {
        match ts[k].sender {
            Some(s) => sending_from(ts, k + 1, acc.push(s.ssrc)),
            None => sending_from(ts, k + 1, acc),
        }
    }
}

/// `acc` with actions that end the tracks of the transceivers from index `k` on.
pub open spec fn tracks_ended_from(
    ts: Seq<TransceiverView>,
    k: int,
    acc: Seq<ActionView>,
) -> Seq<ActionView>
    decreases ts.len() - k,
{
    if k < 0 || k >= ts.len() {
        acc
    } else {
        let a = if ts[k].sender is Some {
            acc.push(ActionView::StopSender { transceiver: ts[k].id })
        } else {
            acc
        };
        tracks_ended_from(
            ts,
            k + 1,
            if ts[k].receiver is Some {
                a.push(ActionView::StopTrack { transceiver: ts[k].id })
            } else {
                a
            },
        )
    }
}

/// `acc` with actions that silence the transports from index `k` on.
pub open spec fn all_silenced_from(
    m: Seq<(u64, u64)>,
    k: int,
    acc: Seq<ActionView>,
) -> Seq<ActionView>
    decreases m.len() - k,
{
    if k < 0 || k >= m.len() {
        acc
    } else {
        all_silenced_from(m, k + 1, acc.push(ActionView::ClearListeners { transport: m[k].1 }))
    }
}

/// `acc` with actions that stop the ICE transports from index `k` on.
pub open spec fn all_stopped_from(ice: Seq<u64>, k: int, acc: Seq<ActionView>) -> Seq<ActionView>
    decreases ice.len() - k,
{
    if k < 0 || k >= ice.len() {
        acc
    } else {
        all_stopped_from(ice, k + 1, acc.push(ActionView::StopIce { transceiver: ice[k] }))
    }
}

/// Silences all transports that single transceivers have of their own.
pub fn silence_all(media: &Vec<(u64, u64)>, list: &mut Vec<Action>)
    ensures
        actions(final(list)@) == all_silenced_from(media@, 0, actions(old(list)@)),
{
    let ghost a0 = actions(list@);
    let mut i: usize = 0;
    while i < media.len()
        invariant
            i <= media@.len(),
            all_silenced_from(media@, 0, a0) == all_silenced_from(
                media@,
                i as int,
                actions(list@),
            ),
        decreases media@.len() - i,
    {
        push_action(list, Action::ClearListeners { transport: media[i].1 });
        i += 1;
    }
}

/// Stops all ICE transports that single transceivers have of their own.
pub fn stop_all(ice: &Vec<u64>, list: &mut Vec<Action>)
    ensures
        actions(final(list)@) == all_stopped_from(ice@, 0, actions(old(list)@)),
{
    let ghost a0 = actions(list@);
    let mut i: usize = 0;
    while i < ice.len()
        invariant
            i <= ice@.len(),
            all_stopped_from(ice@, 0, a0) == all_stopped_from(ice@, i as int, actions(list@)),
        decreases ice@.len() - i,
    {
        push_action(list, Action::StopIce { transceiver: ice[i] });
        i += 1;
    }
}

/// What follows once ICE has a working path.
pub fn on_nomination(nomination: Option<bool>, timeout_ms: u64, mode: TransportMode) -> (r:
    NominationStep)
    ensures
        r == nomination_step(nomination, timeout_ms, mode),
{
    match nomination {
        None => NominationStep::Await {
            limit_ms: match timeout_ms.checked_mul(6) {
                Some(n) => n,
                None => u64::MAX,
            },
        },
        Some(ok) => if !ok {
            NominationStep::AwaitIceLoss
        } else if mode == TransportMode::WebRtc {
            NominationStep::StartDtls
        } else {
            NominationStep::StartDirect
        },
    }
}

/// How a DTLS handshake goes on.
#[derive(Clone, Copy, PartialEq, Eq, Structural, Debug)]
pub enum Handshake {
    /// It goes on.
    Pending,
    /// It is done, with the identifier of the SRTP profile that was negotiated.
    Done(Option<u16>),
}

/// How a DTLS handshake in a state goes on.
pub open spec fn handshake_of(s: DtlsState) -> Result<Handshake, RtcErrorView> {
    match s {
        DtlsState::Connected(profile) => Ok(Handshake::Done(profile)),
        DtlsState::Failed => Err(RtcErrorView::Internal("DTLS handshake failed"@)),
        DtlsState::Closed => Err(
            RtcErrorView::Internal("DTLS transport closed before completing handshake"@),
        ),
        _ => Ok(Handshake::Pending),
    }
}

/// The model of how a handshake goes on.
pub open spec fn handshake_result(r: RtcResult<Handshake>) -> Result<Handshake, RtcErrorView> {
    match r {
        Ok(h) => Ok(h),
        Err(e) => Err(e@),
    }
}

/// How a DTLS handshake in a state goes on.
pub fn on_handshake(s: DtlsState) -> (r: RtcResult<Handshake>)
    ensures
        handshake_result(r) == handshake_of(s),
{
    match s {
        DtlsState::Connected(profile) => Ok(Handshake::Done(profile)),
        DtlsState::Failed => Err(RtcError::internal("DTLS handshake failed")),
        DtlsState::Closed => Err(
            RtcError::internal("DTLS transport closed before completing handshake"),
        ),
        DtlsState::New => Ok(Handshake::Pending),
        DtlsState::Handshaking => Ok(Handshake::Pending),
    }
}

/// The name of a connection state.
pub open spec fn peer_state_name(s: PeerConnectionState) -> Seq<char> {
    match s {
        PeerConnectionState::New => "New"@,
        PeerConnectionState::Connecting => "Connecting"@,
        PeerConnectionState::Connected => "Connected"@,
        PeerConnectionState::Disconnected => "Disconnected"@,
        PeerConnectionState::Failed => "Failed"@,
        PeerConnectionState::Closed => "Closed"@,
    }
}

fn name_of_peer_state(s: PeerConnectionState) -> (r: &'static str)
    ensures
        r@ == peer_state_name(s),
{
    match s {
        PeerConnectionState::New => "New",
        PeerConnectionState::Connecting => "Connecting",
        PeerConnectionState::Connected => "Connected",
        PeerConnectionState::Disconnected => "Disconnected",
        PeerConnectionState::Failed => "Failed",
        PeerConnectionState::Closed => "Closed",
    }
}

/// Whether a connection in a state is connected; none while that is still open.
pub open spec fn connected_result(s: PeerConnectionState) -> Option<Result<(), RtcErrorView>> {
    match s {
        PeerConnectionState::Connected => Some(Ok(())),
        PeerConnectionState::Failed | PeerConnectionState::Closed => Some(
            Err(
                RtcErrorView::Internal(
                    "Peer connection failed or closed: "@ + peer_state_name(s),
                ),
            ),
        ),
        _ => None,
    }
}

impl PeerConnection {
    /// Why the connection ended.
    pub fn disconnect_reason(&self) -> (r: Option<DisconnectReason>)
        ensures
            reason_opt(r) == self@.reason,
    {
        match &self.disconnect_reason {
            Some(x) => Some(x.clone()),
            None => None,
        }
    }

    /// The state of the ICE connection.
    pub fn ice_connection_state(&self) -> (r: IceConnectionState)
        ensures
            r == self@.ice,
    {
        self.ice_connection_state
    }

    /// The state of candidate gathering.
    pub fn ice_gathering_state(&self) -> (r: IceGatheringState)
        ensures
            r == self@.gathering,
    {
        self.ice_gathering_state
    }

    /// Notes why the connection ends; the first reason stays.
    pub fn note_reason(&mut self, reason: DisconnectReason)
        ensures
            final(self)@ == old(self)@.noted(reason@),
            old(self)@.wf() ==> final(self)@.wf(),
    {
        if self.disconnect_reason.is_none() {
            self.disconnect_reason = Some(reason);
        }
        assert(self@ =~= old(self)@.noted(reason@));
    }

    /// Notes why the SCTP transport closed.
    pub fn propagate_sctp_close_reason(&mut self, close: &Option<String>)
        ensures
            final(self)@ == old(self)@.noted_sctp(text_opt(*close)),
            old(self)@.wf() ==> final(self)@.wf(),
    {
        if self.sctp_transport.is_some() {
            if let Some(text) = close {
                if let Some(reason) = reason_of_sctp(text.as_str()) {
                    self.note_reason(reason);
                }
            }
        }
    }

    /// Takes a state of the ICE transport.
    pub fn on_ice_state(&mut self, s: IceTransportState) -> (r: IceStep)
        ensures
            final(self)@ == old(self)@.after_ice(s),
            r == ice_step(s),
            old(self)@.wf() ==> final(self)@.wf(),
    {
        let ghost v0 = self@;
        self.ice_connection_state = to_ice_connection_state(s);
        match s {
            IceTransportState::Failed => {
                self.note_reason(DisconnectReason::IceFailed);
                self.peer_state = PeerConnectionState::Failed;
                assert(self@ =~= v0.after_ice(s));
                IceStep::Over
            },
            IceTransportState::Closed => {
                self.note_reason(DisconnectReason::IceDisconnected);
                self.peer_state = PeerConnectionState::Closed;
                assert(self@ =~= v0.after_ice(s));
                IceStep::Over
            },
            IceTransportState::Connected => IceStep::Up,
            IceTransportState::Completed => IceStep::Up,
            IceTransportState::New => IceStep::Wait,
            IceTransportState::Checking => IceStep::Wait,
            IceTransportState::Disconnected => IceStep::Wait,
        }
    }

    /// Takes the outcome of starting the transport: the loop that watches it, or none where it
    /// failed with an error.
    pub fn on_started(&mut self, dtls: bool, error: &Option<String>) -> (r: Option<ConnectedLoop>)
        ensures
            final(self)@ == old(self)@.after_start(dtls, text_opt(*error)),
            r == (if error is None {
                Some(ConnectedLoop { dtls, epoch: 0 })
            } else {
                None
            }),
            old(self)@.wf() ==> final(self)@.wf(),
    {
        let ghost v0 = self@;
        match error {
            None => {
                self.peer_state = PeerConnectionState::Connected;
                assert(self@ =~= v0.after_start(dtls, None));
                Some(ConnectedLoop { dtls, epoch: 0 })
            },
            Some(e) => {
                if dtls {
                    self.note_reason(DisconnectReason::DtlsFailed);
                } else {
                    self.note_reason(DisconnectReason::TransportStartFailed(e.clone()));
                }
                self.peer_state = PeerConnectionState::Failed;
                assert(self@ =~= v0.after_start(dtls, Some(e@)));
                None
            },
        }
    }

    fn show(&mut self, peer: PeerConnectionState, ice: IceConnectionState, dtls: bool)
        ensures
            final(self)@ == old(self)@.in_states(peer, ice, dtls),
    {
        self.peer_state = peer;
        if dtls {
            self.ice_connection_state = ice;
        }
        assert(self@ =~= old(self)@.in_states(peer, ice, dtls));
    }

    /// Takes a report of a transport that was started.
    pub fn on_connected_event(
        &mut self,
        watch: &mut ConnectedLoop,
        event: ConnectedEvent,
        list: &mut Vec<Action>,
    ) -> (r: ConnectedStep)
        ensures
            (ConnectedChange {
                v: final(self)@,
                epoch: final(watch).epoch,
                acts: actions(final(list)@),
                step: r,
            }) == old(self)@.watched(*old(watch), event, actions(old(list)@)),
            final(watch).dtls == old(watch).dtls,
            old(self)@.wf() ==> final(self)@.wf(),
    {
        match event {
            ConnectedEvent::LoopsEnded { close_reason, ice } => {
                self.propagate_sctp_close_reason(&close_reason);
                ConnectedStep::End { again: watch.dtls && is_ice_failed_or_closed(ice) }
            },
            ConnectedEvent::IceGone => ConnectedStep::End { again: false },
            ConnectedEvent::Ice(s) => {
                if is_ice_failed_or_closed(s) {
                    return ConnectedStep::End { again: true };
                }
                if s == IceTransportState::Disconnected {
                    self.show(
                        PeerConnectionState::Disconnected,
                        IceConnectionState::Disconnected,
                        watch.dtls,
                    );
                    return ConnectedStep::StartGrace { epoch: watch.epoch };
                }
                if is_ice_up(s) {
                    watch.epoch = watch.epoch.wrapping_add(1);
                    self.show(
                        PeerConnectionState::Connected,
                        IceConnectionState::Connected,
                        watch.dtls,
                    );
                }
                ConnectedStep::Stay
            },
            ConnectedEvent::Dtls(s) => {
                if watch.dtls && s == DtlsState::Failed {
                    self.note_reason(DisconnectReason::DtlsFailed);
                } else if watch.dtls && s == DtlsState::Closed {
                    self.note_reason(DisconnectReason::DtlsClosed);
                } else {
                    return ConnectedStep::Stay;
                }
                self.show(
                    PeerConnectionState::Disconnected,
                    IceConnectionState::Disconnected,
                    true,
                );
                ConnectedStep::End { again: false }
            },
            ConnectedEvent::DtlsGone { ice } => {
                if watch.dtls {
                    ConnectedStep::End { again: is_ice_failed_or_closed(ice) }
                } else {
                    ConnectedStep::Stay
                }
            },
            ConnectedEvent::GraceExpired { epoch } => {
                if epoch != watch.epoch {
                    return ConnectedStep::Stay;
                }
                self.note_reason(DisconnectReason::IceDisconnected);
                self.show(
                    PeerConnectionState::Disconnected,
                    IceConnectionState::Disconnected,
                    watch.dtls,
                );
                if let Some(t) = self.sctp_transport {
                    push_action(list, Action::CloseSctp { transport: t });
                }
                ConnectedStep::End { again: true }
            },
        }
    }

    /// Whether the connection is connected; none while that is still open.
    pub fn connected(&self) -> (r: Option<RtcResult<()>>)
        ensures
            match r {
                None => connected_result(self@.peer) is None,
                Some(x) => connected_result(self@.peer) == Some(super::unit_result(x)),
            },
    {
        match self.peer_state {
            PeerConnectionState::Connected => Some(Ok(())),
            PeerConnectionState::Failed => Some(Err(self.not_connected())),
            PeerConnectionState::Closed => Some(Err(self.not_connected())),
            _ => None,
        }
    }

    fn not_connected(&self) -> (r: RtcError)
        ensures
            r@ == RtcErrorView::Internal(
                "Peer connection failed or closed: "@ + peer_state_name(self@.peer),
            ),
    {
        RtcError::Internal(
            joined("Peer connection failed or closed: ", name_of_peer_state(self.peer_state)),
        )
    }

    fn sending_ssrcs(&self) -> (r: Vec<u32>)
        ensures
            r@ == sending_from(self@.ts, 0, Seq::empty()),
    {
        let ghost t = self@.ts;
        let mut out: Vec<u32> = Vec::new();
        let mut i: usize = 0;
        while i < self.transceivers.len()
            invariant
                i <= self.transceivers@.len(),
                t == transceivers(self.transceivers@),
                sending_from(t, 0, Seq::empty()) == sending_from(t, i as int, out@),
            decreases self.transceivers@.len() - i,
        {
            assert(t[i as int] == self.transceivers@[i as int]@);
            if let Some(s) = self.transceivers[i].sender() {
                out.push(s.ssrc());
            }
            i += 1;
        }
        out
    }

    fn end_tracks(&self, list: &mut Vec<Action>)
        ensures
            actions(final(list)@) == tracks_ended_from(self@.ts, 0, actions(old(list)@)),
    {
        let ghost t = self@.ts;
        let ghost a0 = actions(list@);
        let mut i: usize = 0;
        while i < self.transceivers.len()
            invariant
                i <= self.transceivers@.len(),
                t == transceivers(self.transceivers@),
                tracks_ended_from(t, 0, a0) == tracks_ended_from(t, i as int, actions(list@)),
            decreases self.transceivers@.len() - i,
        {
            assert(t[i as int] == self.transceivers@[i as int]@);
            let id: u64 = self.transceivers[i].id();
            if self.transceivers[i].sender().is_some() {
                push_action(list, Action::StopSender { transceiver: id });
            }
            if self.transceivers[i].receiver().is_some() {
                push_action(list, Action::StopTrack { transceiver: id });
            }
            i += 1;
        }
    }

    /// Closes the connection. A connection that is closed stays as it is.
    pub fn close_with_reason(
        &mut self,
        reason: DisconnectReason,
        sctp_close: &Option<String>,
        list: &mut Vec<Action>,
    ) -> (r: bool)
        ensures
            r == (old(self)@.peer != PeerConnectionState::Closed),
            !r ==> final(self)@ == old(self)@ && actions(final(list)@) == actions(old(list)@),
            r ==> final(self)@ == old(self)@.closed(reason@, text_opt(*sctp_close)) && actions(
                final(list)@,
            ) == old(self)@.closing(actions(old(list)@)),
            old(self)@.wf() ==> final(self)@.wf(),
    {
        let ghost v0 = self@;
        if self.peer_state == PeerConnectionState::Closed {
            return false;
        }
        self.propagate_sctp_close_reason(sctp_close);
        self.note_reason(reason);
        self.signaling_state = SignalingState::Closed;
        self.peer_state = PeerConnectionState::Closed;
        self.ice_connection_state = IceConnectionState::Closed;
        self.ice_gathering_state = IceGatheringState::Complete;
        self.end_tracks(list);
        if let Some(t) = self.rtp_transport {
            push_action(list, Action::ClearListeners { transport: t });
            let sources = self.sending_ssrcs();
            if sources.len() > 0 {
                push_action(
                    list,
                    Action::SendBye {
                        transport: t,
                        goodbye: Goodbye {
                            sources,
                            reason: Some("PeerConnection closed".to_owned()),
                        },
                    },
                );
            }
        }
        silence_all(&self.rtp_media_transports, list);
        self.rtp_media_transports = Vec::new();
        if let Some(t) = self.sctp_transport {
            push_action(list, Action::CloseSctp { transport: t });
        }
        self.sctp_transport = None;
        if let Some(t) = self.dtls_transport {
            push_action(list, Action::CloseDtls { transport: t });
        }
        push_action(list, Action::StopPrimaryIce);
        stop_all(&self.rtp_media_ice_transports, list);
        self.rtp_media_ice_transports = Vec::new();
        assert(self@ =~= v0.closed(reason@, text_opt(*sctp_close)));
        true
    }

    /// Closes the connection from our side.
    pub fn close(&mut self, sctp_close: &Option<String>, list: &mut Vec<Action>) -> (r: bool)
        ensures
            r == (old(self)@.peer != PeerConnectionState::Closed),
            !r ==> final(self)@ == old(self)@ && actions(final(list)@) == actions(old(list)@),
            r ==> final(self)@ == old(self)@.closed(
                ReasonView::LocalClose,
                text_opt(*sctp_close),
            ) && actions(final(list)@) == old(self)@.closing(actions(old(list)@)),
            old(self)@.wf() ==> final(self)@.wf(),
    {
        self.close_with_reason(DisconnectReason::LocalClose, sctp_close, list)
    }
}

/// A closed connection is closed for signaling too, so that it is not closed again, and holds no
/// extra transport and no SCTP transport.
pub proof fn closing_is_final(v: ConnectionView, r: ReasonView, close: Option<Seq<char>>)
    ensures
        v.closed(r, close).peer == PeerConnectionState::Closed,
        v.closed(r, close).signaling == SignalingState::Closed,
        v.closed(r, close).media.len() == 0,
        v.closed(r, close).media_ice.len() == 0,
        v.closed(r, close).sctp is None,
{
}

/// The first reason for the end of a connection stays, whatever happens to the connection later.
pub proof fn first_reason_stays(
    v: ConnectionView,
    first: ReasonView,
    later: ReasonView,
    s: IceTransportState,
    l: ConnectedLoop,
    e: ConnectedEvent,
    acts: Seq<ActionView>,
    close: Option<Seq<char>>,
)
    requires
        v.reason == Some(first),
    ensures
        v.noted(later).reason == Some(first),
        v.after_ice(s).reason == Some(first),
        v.watched(l, e, acts).v.reason == Some(first),
        v.closed(later, close).reason == Some(first),
{
}

/// A path that is found again within the grace period makes its timer stale: when the timer runs
/// out, nothing changes.
pub proof fn recovery_cancels_grace(
    v: ConnectionView,
    l: ConnectedLoop,
    s: IceTransportState,
    acts: Seq<ActionView>,
)
    requires
        ice_up(s),
    ensures
        ({
            let lost = v.watched(l, ConnectedEvent::Ice(IceTransportState::Disconnected), acts);
            let back = lost.v.watched(
                ConnectedLoop { epoch: lost.epoch, ..l },
                ConnectedEvent::Ice(s),
                lost.acts,
            );
            &&& lost.step == (ConnectedStep::StartGrace { epoch: l.epoch })
            &&& lost.v.peer == PeerConnectionState::Disconnected
            &&& back.v.peer == PeerConnectionState::Connected
            &&& back.v.watched(
                ConnectedLoop { epoch: back.epoch, ..l },
                ConnectedEvent::GraceExpired { epoch: l.epoch },
                back.acts,
            ) == (ConnectedChange { step: ConnectedStep::Stay, ..back })
        }),
{
}

/// A path that stays lost ends the loop once the grace timer runs out, and ICE is looked at again.
pub proof fn lost_path_ends_after_grace(
    v: ConnectionView,
    l: ConnectedLoop,
    acts: Seq<ActionView>,
)
    ensures
        ({
            let lost = v.watched(l, ConnectedEvent::Ice(IceTransportState::Disconnected), acts);
            let over = lost.v.watched(
                ConnectedLoop { epoch: lost.epoch, ..l },
                ConnectedEvent::GraceExpired { epoch: l.epoch },
                lost.acts,
            );
            &&& over.step == (ConnectedStep::End { again: true })
            &&& over.v.peer == PeerConnectionState::Disconnected
            &&& v.reason is None ==> over.v.reason == Some(ReasonView::IceDisconnected)
        }),
{
}

proof fn tracks_end(ts: Seq<TransceiverView>, k: int, acc: Seq<ActionView>, i: int, x: ActionView)
    requires
        0 <= k <= ts.len(),
    ensures
        ({
            let r = tracks_ended_from(ts, k, acc);
            &&& acc.contains(x) ==> r.contains(x)
            &&& k <= i < ts.len() && ts[i].sender is Some ==> r.contains(
                ActionView::StopSender { transceiver: ts[i].id },
            )
            &&& k <= i < ts.len() && ts[i].receiver is Some ==> r.contains(
                ActionView::StopTrack { transceiver: ts[i].id },
            )
        }),
    decreases ts.len() - k,
{
    if k < ts.len() {
        let stop = ActionView::StopSender { transceiver: ts[k].id };
        let end = ActionView::StopTrack { transceiver: ts[k].id };
        let a = if ts[k].sender is Some {
            acc.push(stop)
        } else {
            acc
        };
        let b = if ts[k].receiver is Some {
            a.push(end)
        } else {
            a
        };
        tracks_end(ts, k + 1, b, i, x);
        if acc.contains(x) {
            assert(b[acc.index_of(x)] == x);
        }
        if ts[k].sender is Some {
            assert(b[acc.len() as int] == stop);
            tracks_end(ts, k + 1, b, i, stop);
        }
        if ts[k].receiver is Some {
            assert(b[a.len() as int] == end);
            tracks_end(ts, k + 1, b, i, end);
        }
    }
}

proof fn silence_spreads(m: Seq<(u64, u64)>, k: int, acc: Seq<ActionView>, i: int, x: ActionView)
    requires
        0 <= k <= m.len(),
    ensures
        acc.contains(x) ==> all_silenced_from(m, k, acc).contains(x),
        k <= i < m.len() ==> all_silenced_from(m, k, acc).contains(
            ActionView::ClearListeners { transport: m[i].1 },
        ),
    decreases m.len() - k,
{
    if k < m.len() {
        let y = ActionView::ClearListeners { transport: m[k].1 };
        let next = acc.push(y);
        if acc.contains(x) {
            assert(next[acc.index_of(x)] == x);
        }
        assert(next[acc.len() as int] == y);
        silence_spreads(m, k + 1, next, i, x);
        silence_spreads(m, k + 1, next, i, y);
    }
}

proof fn stops_spread(ice: Seq<u64>, k: int, acc: Seq<ActionView>, i: int, x: ActionView)
    requires
        0 <= k <= ice.len(),
    ensures
        acc.contains(x) ==> all_stopped_from(ice, k, acc).contains(x),
        k <= i < ice.len() ==> all_stopped_from(ice, k, acc).contains(
            ActionView::StopIce { transceiver: ice[i] },
        ),
    decreases ice.len() - k,
{
    if k < ice.len() {
        let y = ActionView::StopIce { transceiver: ice[k] };
        let next = acc.push(y);
        if acc.contains(x) {
            assert(next[acc.index_of(x)] == x);
        }
        assert(next[acc.len() as int] == y);
        stops_spread(ice, k + 1, next, i, x);
        stops_spread(ice, k + 1, next, i, y);
    }
}

/// Giving up the transports of single transceivers silences each of them and stops the ICE of each.
pub proof fn extra_transports_stop(
    media: Seq<(u64, u64)>,
    ice: Seq<u64>,
    acts: Seq<ActionView>,
    i: int,
    j: int,
)
    ensures
        ({
            let r = all_stopped_from(ice, 0, all_silenced_from(media, 0, acts));
            &&& 0 <= i < media.len() ==> r.contains(
                ActionView::ClearListeners { transport: media[i].1 },
            )
            &&& 0 <= j < ice.len() ==> r.contains(ActionView::StopIce { transceiver: ice[j] })
        }),
{
    let a = all_silenced_from(media, 0, acts);
    if 0 <= i < media.len() {
        let x = ActionView::ClearListeners { transport: media[i].1 };
        silence_spreads(media, 0, acts, i, x);
        stops_spread(ice, 0, a, j, x);
    }
    stops_spread(ice, 0, a, j, ActionView::StopPrimaryIce);
}

proof fn sources_are_senders(ts: Seq<TransceiverView>, k: int, acc: Seq<u32>, n: u32)
    requires
        0 <= k <= ts.len(),
    ensures
        sending_from(ts, k, acc).contains(n) <==> acc.contains(n) || exists|i: int|
            k <= i < ts.len() && (#[trigger] ts[i]).sender is Some && ts[i].sender->0.ssrc == n,
        sending_from(ts, k, acc).len() > 0 <==> acc.len() > 0 || exists|i: int|
            k <= i < ts.len() && (#[trigger] ts[i]).sender is Some,
    decreases ts.len() - k,
{
    if k < ts.len() {
        match ts[k].sender {
            Some(s) => {
                let next = acc.push(s.ssrc);
                sources_are_senders(ts, k + 1, next, n);
                if acc.contains(n) {
                    assert(next[acc.index_of(n)] == n);
                }
                assert(next[acc.len() as int] == s.ssrc);
                if next.contains(n) && n != s.ssrc {
                    assert(acc[next.index_of(n)] == n);
                }
                assert(ts[k].sender is Some);
            },
            None => {
                sources_are_senders(ts, k + 1, acc, n);
                assert(ts[k].sender is None);
            },
        }
    }
}

/// Closing ends every track and silences every transport; where anything was sent on the primary
/// transport, a goodbye with the SSRC of every sender leaves there; and SCTP, DTLS and ICE close.
pub proof fn closing_leaves_nothing_open(v: ConnectionView, acts: Seq<ActionView>, i: int, j: int)
    ensures
        ({
            let r = v.closing(acts);
            &&& 0 <= i < v.ts.len() && v.ts[i].sender is Some ==> r.contains(
                ActionView::StopSender { transceiver: v.ts[i].id },
            )
            &&& 0 <= i < v.ts.len() && v.ts[i].receiver is Some ==> r.contains(
                ActionView::StopTrack { transceiver: v.ts[i].id },
            )
            &&& v.rtp matches Some(t) ==> r.contains(ActionView::ClearListeners { transport: t })
            &&& 0 <= j < v.media.len() ==> r.contains(
                ActionView::ClearListeners { transport: v.media[j].1 },
            )
            &&& v.sctp matches Some(t) ==> r.contains(ActionView::CloseSctp { transport: t })
            &&& v.dtls matches Some(t) ==> r.contains(ActionView::CloseDtls { transport: t })
            &&& r.contains(ActionView::StopPrimaryIce)
            &&& 0 <= j < v.media_ice.len() ==> r.contains(
                ActionView::StopIce { transceiver: v.media_ice[j] },
            )
        }),
{
    let p = tracks_ended_from(v.ts, 0, acts);
    let a = v.farewell(p);
    let s = all_silenced_from(v.media, 0, a);
    let b = v.closing_sctp(s);
    let c = match v.dtls {
        Some(t) => b.push(ActionView::CloseDtls { transport: t }),
        None => b,
    };
    let d = c.push(ActionView::StopPrimaryIce);
    let r = v.closing(acts);
    assert forall|x: ActionView| #[trigger] s.contains(x) implies r.contains(x) by {
        let n = s.index_of(x);
        assert(d[n] == x);
        stops_spread(v.media_ice, 0, d, j, x);
    }
    assert forall|x: ActionView| #[trigger] p.contains(x) implies r.contains(x) by {
        let n = p.index_of(x);
        assert(a[n] == x);
        silence_spreads(v.media, 0, a, j, x);
        assert(s.contains(x));
    }
    tracks_end(v.ts, 0, acts, i, ActionView::StopPrimaryIce);
    if let Some(t) = v.rtp {
        let x = ActionView::ClearListeners { transport: t };
        assert(a[p.len() as int] == x);
        silence_spreads(v.media, 0, a, j, x);
        assert(s.contains(x));
    }
    silence_spreads(v.media, 0, a, j, ActionView::StopPrimaryIce);
    if 0 <= j < v.media.len() {
        assert(s.contains(ActionView::ClearListeners { transport: v.media[j].1 }));
    }
    if let Some(t) = v.sctp {
        let x = ActionView::CloseSctp { transport: t };
        assert(d[s.len() as int] == x);
        stops_spread(v.media_ice, 0, d, j, x);
    }
    if let Some(t) = v.dtls {
        let x = ActionView::CloseDtls { transport: t };
        assert(d[b.len() as int] == x);
        stops_spread(v.media_ice, 0, d, j, x);
    }
    assert(d[c.len() as int] == ActionView::StopPrimaryIce);
    stops_spread(v.media_ice, 0, d, j, ActionView::StopPrimaryIce);
}

/// The goodbye of a connection names the SSRC of every sender and no other, and leaves only where
/// there is a sender and a transport.
pub proof fn goodbyes_name_all_senders(v: ConnectionView, acts: Seq<ActionView>, n: u32)
    ensures
        ({
            let some = exists|i: int| 0 <= i < v.ts.len() && (#[trigger] v.ts[i]).sender is Some;
            let r = v.farewell(acts);
            &&& v.rtp is None ==> r == acts
            &&& v.rtp matches Some(t) ==> (some ==> r.last() is SendBye && r.len() == acts.len() + 2
                && (r.last() matches ActionView::SendBye { transport, sources, reason }
                && transport == t && reason == Some("PeerConnection closed"@) && (sources.contains(
                n,
            ) <==> exists|i: int|
                0 <= i < v.ts.len() && (#[trigger] v.ts[i]).sender is Some && v.ts[i].sender->0.ssrc
                    == n)))
            &&& v.rtp matches Some(t) ==> (!some ==> r == acts.push(
                ActionView::ClearListeners { transport: t },
            ))
        }),
{
    sources_are_senders(v.ts, 0, Seq::empty(), n);
    let s = sending_from(v.ts, 0, Seq::empty());
    assert(!Seq::<u32>::empty().contains(n));
}

/// A close ends with the first reason that is known: one that was noted, else why SCTP closed, else
/// the one that is given. Everything shows as closed, and the transceivers stay.
pub proof fn closes_have_a_reason(v: ConnectionView, given: ReasonView, close: Option<Seq<char>>)
    ensures
        ({
            let w = v.closed(given, close);
            &&& v.reason is Some ==> w.reason == v.reason
            &&& v.reason is None && v.sctp is Some && close is Some && sctp_reason(
                close->0,
            ) is Some ==> w.reason == sctp_reason(close->0)
            &&& v.reason is None && (v.sctp is None || close is None) ==> w.reason == Some(given)
            &&& w.ice == IceConnectionState::Closed
            &&& w.gathering == IceGatheringState::Complete
            &&& w.ts == v.ts && w.local == v.local && w.remote == v.remote
        }),
{
}

/// What ICE shows: the connection follows each state, fails with a failed path and closes with a
/// closed one; a path that works starts the transport.
pub proof fn connections_follow_ice(v: ConnectionView, s: IceTransportState)
    ensures
        ({
            let w = v.after_ice(s);
            &&& s == IceTransportState::Failed ==> w.peer == PeerConnectionState::Failed && w.ice
                == IceConnectionState::Failed && ice_step(s) == IceStep::Over && (v.reason is None
                ==> w.reason == Some(ReasonView::IceFailed))
            &&& s == IceTransportState::Closed ==> w.peer == PeerConnectionState::Closed && w.ice
                == IceConnectionState::Closed && ice_step(s) == IceStep::Over && (v.reason is None
                ==> w.reason == Some(ReasonView::IceDisconnected))
            &&& s == IceTransportState::Connected || s == IceTransportState::Completed ==> ice_step(
                s,
            ) == IceStep::Up && w.peer == v.peer && w.reason == v.reason
            &&& s == IceTransportState::Connected ==> w.ice == IceConnectionState::Connected
            &&& s == IceTransportState::Completed ==> w.ice == IceConnectionState::Completed
            &&& s == IceTransportState::New ==> w.ice == IceConnectionState::New
            &&& s == IceTransportState::Checking ==> w.ice == IceConnectionState::Checking
            &&& s == IceTransportState::Disconnected ==> w.ice == IceConnectionState::Disconnected
            &&& s == IceTransportState::New || s == IceTransportState::Checking || s
                == IceTransportState::Disconnected ==> ice_step(s) == IceStep::Wait && w.peer
                == v.peer && w.reason == v.reason
        }),
{
}

/// How a start ends: connected, or failed with the reason that fits the transport.
pub proof fn starts_connect_or_fail(v: ConnectionView, dtls: bool, error: Seq<char>)
    ensures
        v.after_start(dtls, None).peer == PeerConnectionState::Connected,
        v.after_start(dtls, None).reason == v.reason,
        v.after_start(dtls, Some(error)).peer == PeerConnectionState::Failed,
        v.reason is None && dtls ==> v.after_start(dtls, Some(error)).reason == Some(
            ReasonView::DtlsFailed,
        ),
        v.reason is None && !dtls ==> v.after_start(dtls, Some(error)).reason == Some(
            ReasonView::TransportStartFailed(error),
        ),
{
}

/// What the loss of DTLS does to a connection that runs it: it shows as disconnected, for the
/// reason at hand, and is over. Without DTLS nothing changes.
pub proof fn dtls_loss_ends_the_loop(
    v: ConnectionView,
    l: ConnectedLoop,
    s: DtlsState,
    acts: Seq<ActionView>,
)
    ensures
        ({
            let r = v.watched(l, ConnectedEvent::Dtls(s), acts);
            let lost = s == DtlsState::Closed || s == DtlsState::Failed;
            &&& r.acts == acts && r.epoch == l.epoch
            &&& l.dtls && lost ==> r.v.peer == PeerConnectionState::Disconnected && r.v.ice
                == IceConnectionState::Disconnected && r.step == (ConnectedStep::End {
                again: false,
            })
            &&& l.dtls && s == DtlsState::Failed && v.reason is None ==> r.v.reason == Some(
                ReasonView::DtlsFailed,
            )
            &&& l.dtls && s == DtlsState::Closed && v.reason is None ==> r.v.reason == Some(
                ReasonView::DtlsClosed,
            )
            &&& !l.dtls || !lost ==> r.v == v && r.step == ConnectedStep::Stay
        }),
{
}

/// The loop ends with its path: for good where ICE reports no more, else to look at ICE again; a
/// loop whose transport ended looks again only where DTLS runs and ICE is gone.
pub proof fn lost_paths_end_the_loop(
    v: ConnectionView,
    l: ConnectedLoop,
    s: IceTransportState,
    close: Option<String>,
    acts: Seq<ActionView>,
)
    ensures
        v.watched(l, ConnectedEvent::IceGone, acts).step == (ConnectedStep::End { again: false }),
        v.watched(l, ConnectedEvent::IceGone, acts).v == v,
        ice_gone(s) ==> v.watched(l, ConnectedEvent::Ice(s), acts).step == (ConnectedStep::End {
            again: true,
        }) && v.watched(l, ConnectedEvent::Ice(s), acts).v == v,
        v.watched(l, ConnectedEvent::LoopsEnded { close_reason: close, ice: s }, acts).step == (
        ConnectedStep::End { again: l.dtls && ice_gone(s) }),
        l.dtls ==> v.watched(l, ConnectedEvent::DtlsGone { ice: s }, acts).step == (
        ConnectedStep::End { again: ice_gone(s) }),
        ice_gone(s) <==> s == IceTransportState::Failed || s == IceTransportState::Closed,
        ice_up(s) <==> s == IceTransportState::Connected || s == IceTransportState::Completed,
{
}

/// What follows for a nomination: DTLS starts on a nominated pair of a WebRTC connection, another
/// connection starts without it; where no pair was nominated, the path has to go first; until it is
/// known, six times the timeout of a pair is waited.
pub proof fn nominations_start_the_transport(timeout_ms: u64, mode: TransportMode)
    ensures
        nomination_step(Some(true), timeout_ms, TransportMode::WebRtc) == NominationStep::StartDtls,
        mode != TransportMode::WebRtc ==> nomination_step(Some(true), timeout_ms, mode)
            == NominationStep::StartDirect,
        nomination_step(Some(false), timeout_ms, mode) == NominationStep::AwaitIceLoss,
        timeout_ms * 6 <= u64::MAX ==> nomination_step(None, timeout_ms, mode) == (
        NominationStep::Await { limit_ms: (6 * timeout_ms) as u64 }),
{
}

/// A handshake is done once DTLS is connected, with the profile that it negotiated; it fails with
/// DTLS, and goes on otherwise.
pub proof fn handshakes_end_with_dtls(profile: Option<u16>)
    ensures
        handshake_of(DtlsState::Connected(profile)) == Ok::<_, RtcErrorView>(
            Handshake::Done(profile),
        ),
        handshake_of(DtlsState::Failed) is Err,
        handshake_of(DtlsState::Closed) is Err,
        handshake_of(DtlsState::New) == Ok::<_, RtcErrorView>(Handshake::Pending),
        handshake_of(DtlsState::Handshaking) == Ok::<_, RtcErrorView>(Handshake::Pending),
{
}

/// Who waits for the connection is told once it is connected, and gets an error once it failed or
/// closed; until then there is nothing to tell.
pub proof fn waiting_ends_with_the_state(s: PeerConnectionState)
    ensures
        connected_result(s) == Some(Ok::<(), RtcErrorView>(())) <==> s
            == PeerConnectionState::Connected,
        connected_result(s) is None <==> s == PeerConnectionState::New || s
            == PeerConnectionState::Connecting || s == PeerConnectionState::Disconnected,
{
}

} // verus!

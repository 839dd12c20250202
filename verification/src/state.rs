//! The states of a connection and the reasons why one ends.

use crate::text::joined;
use crate::text::same_text;
use vstd::prelude::*;

verus! {

/// The state of a connection as a whole.
#[derive(Clone, Copy, PartialEq, Eq, Structural, Debug)]
pub enum PeerConnectionState {
    New,
    Connecting,
    Connected,
    Disconnected,
    Failed,
    Closed,
}

/// Where the offer/answer exchange stands.
#[derive(Clone, Copy, PartialEq, Eq, Structural, Debug)]
pub enum SignalingState {
    Stable,
    HaveLocalOffer,
    HaveRemoteOffer,
    Closed,
}

/// The state of the ICE connection.
#[derive(Clone, Copy, PartialEq, Eq, Structural, Debug)]
pub enum IceConnectionState {
    New,
    Checking,
    Connected,
    Completed,
    Failed,
    Disconnected,
    Closed,
}

/// The state of candidate gathering.
#[derive(Clone, Copy, PartialEq, Eq, Structural, Debug)]
pub enum IceGatheringState {
    New,
    Gathering,
    Complete,
}

/// The state of the ICE transport.
#[derive(Clone, Copy, PartialEq, Eq, Structural, Debug)]
pub enum IceTransportState {
    New,
    Checking,
    Connected,
    Completed,
    Failed,
    Disconnected,
    Closed,
}

/// The state of the DTLS handshake.
#[derive(Clone, Copy, PartialEq, Eq, Structural, Debug)]
pub enum DtlsState {
    New,
    Handshaking,
    /// The handshake is done, with the identifier of the SRTP profile that was negotiated.
    Connected(Option<u16>),
    Failed,
    Closed,
}

/// ICE is gone for good: a lost connection may come back, a failed or closed one does not.
pub open spec fn ice_gone(s: IceTransportState) -> bool {
    s == IceTransportState::Failed || s == IceTransportState::Closed
}

/// Whether ICE is gone for good.
pub fn is_ice_failed_or_closed(s: IceTransportState) -> (r: bool)
    ensures
        r == ice_gone(s),
{
    s == IceTransportState::Failed || s == IceTransportState::Closed
}

/// ICE has a working path.
pub open spec fn ice_up(s: IceTransportState) -> bool {
    s == IceTransportState::Connected || s == IceTransportState::Completed
}

/// Whether ICE has a working path.
pub fn is_ice_up(s: IceTransportState) -> (r: bool)
    ensures
        r == ice_up(s),
{
    s == IceTransportState::Connected || s == IceTransportState::Completed
}

/// The connection state that a transport state shows as.
pub open spec fn ice_connection_of(s: IceTransportState) -> IceConnectionState {
    match s {
        IceTransportState::New => IceConnectionState::New,
        IceTransportState::Checking => IceConnectionState::Checking,
        IceTransportState::Connected => IceConnectionState::Connected,
        IceTransportState::Completed => IceConnectionState::Completed,
        IceTransportState::Failed => IceConnectionState::Failed,
        IceTransportState::Disconnected => IceConnectionState::Disconnected,
        IceTransportState::Closed => IceConnectionState::Closed,
    }
}

/// The connection state that a transport state shows as.
pub fn to_ice_connection_state(s: IceTransportState) -> (r: IceConnectionState)
    ensures
        r == ice_connection_of(s),
{
    match s {
        IceTransportState::New => IceConnectionState::New,
        IceTransportState::Checking => IceConnectionState::Checking,
        IceTransportState::Connected => IceConnectionState::Connected,
        IceTransportState::Completed => IceConnectionState::Completed,
        IceTransportState::Failed => IceConnectionState::Failed,
        IceTransportState::Disconnected => IceConnectionState::Disconnected,
        IceTransportState::Closed => IceConnectionState::Closed,
    }
}

/// Why a connection was disconnected or closed.
#[derive(Debug)]
pub enum DisconnectReason {
    /// The local side closed.
    LocalClose,
    /// The connection was dropped without being closed.
    Dropped,
    /// Connectivity checks failed.
    IceFailed,
    /// Connectivity was lost.
    IceDisconnected,
    DtlsFailed,
    DtlsClosed,
    /// The peer stopped answering heartbeats.
    SctpHeartbeatTimeout,
    /// Heartbeats kept failing during backoff.
    SctpPeerDead,
    SctpRemoteAbort,
    SctpRemoteShutdown,
    TransportStartFailed(String),
    Unknown(String),
}

/// The model of a reason.
pub enum ReasonView {
    LocalClose,
    Dropped,
    IceFailed,
    IceDisconnected,
    DtlsFailed,
    DtlsClosed,
    SctpHeartbeatTimeout,
    SctpPeerDead,
    SctpRemoteAbort,
    SctpRemoteShutdown,
    TransportStartFailed(Seq<char>),
    Unknown(Seq<char>),
}

impl View for DisconnectReason {
    type V = ReasonView;

    open spec fn view(&self) -> ReasonView {
        match *self {
            DisconnectReason::LocalClose => ReasonView::LocalClose,
            DisconnectReason::Dropped => ReasonView::Dropped,
            DisconnectReason::IceFailed => ReasonView::IceFailed,
            DisconnectReason::IceDisconnected => ReasonView::IceDisconnected,
            DisconnectReason::DtlsFailed => ReasonView::DtlsFailed,
            DisconnectReason::DtlsClosed => ReasonView::DtlsClosed,
            DisconnectReason::SctpHeartbeatTimeout => ReasonView::SctpHeartbeatTimeout,
            DisconnectReason::SctpPeerDead => ReasonView::SctpPeerDead,
            DisconnectReason::SctpRemoteAbort => ReasonView::SctpRemoteAbort,
            DisconnectReason::SctpRemoteShutdown => ReasonView::SctpRemoteShutdown,
            DisconnectReason::TransportStartFailed(e) => ReasonView::TransportStartFailed(e@),
            DisconnectReason::Unknown(s) => ReasonView::Unknown(s@),
        }
    }
}

/// The model of an optional reason.
pub open spec fn reason_opt(r: Option<DisconnectReason>) -> Option<ReasonView> {
    match r {
        Some(x) => Some(x@),
        None => None,
    }
}

/// What a reason reads as.
pub open spec fn reason_text(r: ReasonView) -> Seq<char> {
    match r {
        ReasonView::LocalClose => "local close"@,
        ReasonView::Dropped => "connection dropped"@,
        ReasonView::IceFailed => "ICE failed"@,
        ReasonView::IceDisconnected => "ICE disconnected"@,
        ReasonView::DtlsFailed => "DTLS failed"@,
        ReasonView::DtlsClosed => "DTLS closed"@,
        ReasonView::SctpHeartbeatTimeout => "SCTP heartbeat timeout (peer unresponsive)"@,
        ReasonView::SctpPeerDead => "SCTP peer dead (consecutive heartbeat failures)"@,
        ReasonView::SctpRemoteAbort => "remote SCTP ABORT"@,
        ReasonView::SctpRemoteShutdown => "remote SCTP SHUTDOWN"@,
        ReasonView::TransportStartFailed(e) => "transport start failed: "@ + e,
        ReasonView::Unknown(s) => "unknown: "@ + s,
    }
}

/// The reason that an SCTP transport's own reason for closing stands for. That it was closed here
/// says nothing more.
pub open spec fn sctp_reason(text: Seq<char>) -> Option<ReasonView> {
    if text == "HEARTBEAT_TIMEOUT"@ {
        Some(ReasonView::SctpHeartbeatTimeout)
    } else if text == "HEARTBEAT_DEAD"@ {
        Some(ReasonView::SctpPeerDead)
    } else if text == "REMOTE_ABORT"@ {
        Some(ReasonView::SctpRemoteAbort)
    } else if text == "REMOTE_SHUTDOWN"@ {
        Some(ReasonView::SctpRemoteShutdown)
    } else if text == "DTLS_FAILED"@ {
        Some(ReasonView::DtlsFailed)
    } else if text == "DTLS_CLOSED"@ || text == "DTLS_CHANNEL_CLOSED"@ {
        Some(ReasonView::DtlsClosed)
    } else if text == "LOCAL_CLOSE"@ {
        None
    } else if text == "INIT_TIMEOUT"@ {
        Some(ReasonView::TransportStartFailed("SCTP INIT timeout"@))
    } else if text == "TRANSPORT_CLOSED"@ {
        Some(ReasonView::Unknown("transport channel closed"@))
    } else {
        Some(ReasonView::Unknown(text))
    }
}

/// The reason that an SCTP transport's own reason for closing stands for.
pub fn reason_of_sctp(text: &str) -> (r: Option<DisconnectReason>)
    ensures
        reason_opt(r) == sctp_reason(text@),
{
    if same_text(text, "HEARTBEAT_TIMEOUT") {
        Some(DisconnectReason::SctpHeartbeatTimeout)
    } else if same_text(text, "HEARTBEAT_DEAD") {
        Some(DisconnectReason::SctpPeerDead)
    } else if same_text(text, "REMOTE_ABORT") {
        Some(DisconnectReason::SctpRemoteAbort)
    } else if same_text(text, "REMOTE_SHUTDOWN") {
        Some(DisconnectReason::SctpRemoteShutdown)
    } else if same_text(text, "DTLS_FAILED") {
        Some(DisconnectReason::DtlsFailed)
    } else if same_text(text, "DTLS_CLOSED") || same_text(text, "DTLS_CHANNEL_CLOSED") {
        Some(DisconnectReason::DtlsClosed)
    } else if same_text(text, "LOCAL_CLOSE") {
        None
    } else if same_text(text, "INIT_TIMEOUT") {
        Some(DisconnectReason::TransportStartFailed("SCTP INIT timeout".to_owned()))
    } else if same_text(text, "TRANSPORT_CLOSED") {
        Some(DisconnectReason::Unknown("transport channel closed".to_owned()))
    } else {
        Some(DisconnectReason::Unknown(text.to_owned()))
    }
}

impl Clone for DisconnectReason {
    fn clone(&self) -> (r: Self)
        ensures
            r@ == self@,
    {
        match self {
            DisconnectReason::LocalClose => DisconnectReason::LocalClose,
            DisconnectReason::Dropped => DisconnectReason::Dropped,
            DisconnectReason::IceFailed => DisconnectReason::IceFailed,
            DisconnectReason::IceDisconnected => DisconnectReason::IceDisconnected,
            DisconnectReason::DtlsFailed => DisconnectReason::DtlsFailed,
            DisconnectReason::DtlsClosed => DisconnectReason::DtlsClosed,
            DisconnectReason::SctpHeartbeatTimeout => DisconnectReason::SctpHeartbeatTimeout,
            DisconnectReason::SctpPeerDead => DisconnectReason::SctpPeerDead,
            DisconnectReason::SctpRemoteAbort => DisconnectReason::SctpRemoteAbort,
            DisconnectReason::SctpRemoteShutdown => DisconnectReason::SctpRemoteShutdown,
            DisconnectReason::TransportStartFailed(e) => DisconnectReason::TransportStartFailed(
                e.clone(),
            ),
            DisconnectReason::Unknown(s) => DisconnectReason::Unknown(s.clone()),
        }
    }
}

impl DisconnectReason {
    /// What the reason reads as.
    pub fn message(&self) -> (r: String)
        ensures
            r@ == reason_text(self@),
    {
        match self {
            DisconnectReason::LocalClose => "local close".to_owned(),
            DisconnectReason::Dropped => "connection dropped".to_owned(),
            DisconnectReason::IceFailed => "ICE failed".to_owned(),
            DisconnectReason::IceDisconnected => "ICE disconnected".to_owned(),
            DisconnectReason::DtlsFailed => "DTLS failed".to_owned(),
            DisconnectReason::DtlsClosed => "DTLS closed".to_owned(),
            DisconnectReason::SctpHeartbeatTimeout =>
                "SCTP heartbeat timeout (peer unresponsive)".to_owned(),
            DisconnectReason::SctpPeerDead =>
                "SCTP peer dead (consecutive heartbeat failures)".to_owned(),
            DisconnectReason::SctpRemoteAbort => "remote SCTP ABORT".to_owned(),
            DisconnectReason::SctpRemoteShutdown => "remote SCTP SHUTDOWN".to_owned(),
            DisconnectReason::TransportStartFailed(e) => joined(
                "transport start failed: ",
                e.as_str(),
            ),
            DisconnectReason::Unknown(s) => joined("unknown: ", s.as_str()),
        }
    }
}

/// An SCTP transport that was closed here gives no reason; any other text gives one, and a text
/// that is not known is kept.
pub proof fn sctp_reasons_are_kept(text: Seq<char>)
    ensures
        sctp_reason(text) is None <==> text == "LOCAL_CLOSE"@,
        sctp_reason("HEARTBEAT_TIMEOUT"@) == Some(ReasonView::SctpHeartbeatTimeout),
        sctp_reason("HEARTBEAT_DEAD"@) == Some(ReasonView::SctpPeerDead),
        sctp_reason("REMOTE_ABORT"@) == Some(ReasonView::SctpRemoteAbort),
        sctp_reason("REMOTE_SHUTDOWN"@) == Some(ReasonView::SctpRemoteShutdown),
        sctp_reason("DTLS_FAILED"@) == Some(ReasonView::DtlsFailed),
        sctp_reason("DTLS_CLOSED"@) == Some(ReasonView::DtlsClosed),
        sctp_reason("DTLS_CHANNEL_CLOSED"@) == Some(ReasonView::DtlsClosed),
        sctp_reason(text) matches Some(ReasonView::Unknown(t)) ==> t == text || text
            == "TRANSPORT_CLOSED"@,
        sctp_reason(text) matches Some(r) ==> !(r is LocalClose || r is Dropped || r is IceFailed
            || r is IceDisconnected),
{
    reveal_strlit("HEARTBEAT_TIMEOUT");
    reveal_strlit("HEARTBEAT_DEAD");
    reveal_strlit("REMOTE_ABORT");
    reveal_strlit("REMOTE_SHUTDOWN");
    reveal_strlit("DTLS_FAILED");
    reveal_strlit("DTLS_CLOSED");
    reveal_strlit("DTLS_CHANNEL_CLOSED");
    reveal_strlit("LOCAL_CLOSE");
    assert("HEARTBEAT_TIMEOUT"@.len() == 17);
    assert("HEARTBEAT_DEAD"@.len() == 14);
    assert("REMOTE_ABORT"@.len() == 12);
    assert("REMOTE_SHUTDOWN"@.len() == 15);
    assert("DTLS_FAILED"@.len() == 11 && "DTLS_FAILED"@[5] == 'F');
    assert("DTLS_CLOSED"@.len() == 11 && "DTLS_CLOSED"@[5] == 'C' && "DTLS_CLOSED"@[0] == 'D');
    assert("DTLS_CHANNEL_CLOSED"@.len() == 19);
    assert("LOCAL_CLOSE"@.len() == 11 && "LOCAL_CLOSE"@[0] == 'L');
}

/// ICE is up or gone in no state at once, and shows so: as connected or completed, or as failed or
/// closed.
pub proof fn ice_states_are_shown(s: IceTransportState, t: IceTransportState)
    ensures
        !(ice_up(s) && ice_gone(s)),
        ice_up(s) <==> ice_connection_of(s) == IceConnectionState::Connected || ice_connection_of(s)
            == IceConnectionState::Completed,
        ice_gone(s) <==> ice_connection_of(s) == IceConnectionState::Failed || ice_connection_of(s)
            == IceConnectionState::Closed,
        ice_connection_of(IceTransportState::Connected) == IceConnectionState::Connected,
        ice_connection_of(IceTransportState::Failed) == IceConnectionState::Failed,
        ice_connection_of(IceTransportState::Checking) == IceConnectionState::Checking,
        ice_connection_of(IceTransportState::Disconnected) == IceConnectionState::Disconnected,
        ice_connection_of(s) == ice_connection_of(t) ==> s == t,
{
}

} // verus!

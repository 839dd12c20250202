//! The offer/answer exchange.

use crate::error::RtcError;
use crate::error::RtcErrorView;
use crate::error::RtcResult;
use crate::sdp::SdpType;
use crate::state::SignalingState;
use vstd::prelude::*;

verus! {

/// The state after a local description, or why it is refused.
pub open spec fn local_transition(state: SignalingState, t: SdpType) -> Result<
    SignalingState,
    RtcErrorView,
> {
    match t {
        SdpType::Offer => if state == SignalingState::Stable {
            Ok(SignalingState::HaveLocalOffer)
        } else {
            Err(
                RtcErrorView::InvalidState(
                    "set_local_description(offer) requires stable signaling state"@,
                ),
            )
        },
        SdpType::Answer => if state == SignalingState::HaveRemoteOffer {
            Ok(SignalingState::Stable)
        } else {
            Err(
                RtcErrorView::InvalidState("set_local_description(answer) requires remote offer"@),
            )
        },
        SdpType::Pranswer => if state == SignalingState::HaveRemoteOffer {
            Ok(SignalingState::HaveRemoteOffer)
        } else {
            Err(
                RtcErrorView::InvalidState(
                    "set_local_description(pranswer) requires remote offer"@,
                ),
            )
        },
        SdpType::Rollback => Err(RtcErrorView::NotImplemented("rollback"@)),
    }
}

/// The state after a remote description, or why it is refused.
pub open spec fn remote_transition(state: SignalingState, t: SdpType) -> Result<
    SignalingState,
    RtcErrorView,
> {
    match t {
        SdpType::Offer => if state == SignalingState::Stable {
            Ok(SignalingState::HaveRemoteOffer)
        } else {
            Err(
                RtcErrorView::InvalidState(
                    "set_remote_description(offer) requires stable signaling state"@,
                ),
            )
        },
        SdpType::Answer => if state == SignalingState::HaveLocalOffer {
            Ok(SignalingState::Stable)
        } else {
            Err(RtcErrorView::InvalidState("set_remote_description(answer) requires local offer"@))
        },
        SdpType::Pranswer => if state == SignalingState::HaveLocalOffer {
            Ok(SignalingState::HaveLocalOffer)
        } else {
            Err(
                RtcErrorView::InvalidState(
                    "set_remote_description(pranswer) requires local offer"@,
                ),
            )
        },
        SdpType::Rollback => Err(RtcErrorView::NotImplemented("rollback"@)),
    }
}

/// The model of a result that is a state.
pub open spec fn transition_view(r: RtcResult<SignalingState>) -> Result<
    SignalingState,
    RtcErrorView,
> {
    match r {
        Ok(s) => Ok(s),
        Err(e) => Err(e@),
    }
}

/// The state after a local description.
pub fn next_local_state(state: SignalingState, t: SdpType) -> (r: RtcResult<SignalingState>)
    ensures
        transition_view(r) == local_transition(state, t),
{
    match t {
        SdpType::Offer => if state == SignalingState::Stable {
            Ok(SignalingState::HaveLocalOffer)
        } else {
            Err(
                RtcError::invalid_state(
                    "set_local_description(offer) requires stable signaling state",
                ),
            )
        },
        SdpType::Answer => if state == SignalingState::HaveRemoteOffer {
            Ok(SignalingState::Stable)
        } else {
            Err(RtcError::invalid_state("set_local_description(answer) requires remote offer"))
        },
        SdpType::Pranswer => if state == SignalingState::HaveRemoteOffer {
            Ok(SignalingState::HaveRemoteOffer)
        } else {
            Err(RtcError::invalid_state("set_local_description(pranswer) requires remote offer"))
        },
        SdpType::Rollback => Err(RtcError::NotImplemented("rollback".to_owned())),
    }
}

/// The state after a remote description.
pub fn next_remote_state(state: SignalingState, t: SdpType) -> (r: RtcResult<SignalingState>)
    ensures
        transition_view(r) == remote_transition(state, t),
{
    match t {
        SdpType::Offer => if state == SignalingState::Stable {
            Ok(SignalingState::HaveRemoteOffer)
        } else {
            Err(
                RtcError::invalid_state(
                    "set_remote_description(offer) requires stable signaling state",
                ),
            )
        },
        SdpType::Answer => if state == SignalingState::HaveLocalOffer {
            Ok(SignalingState::Stable)
        } else {
            Err(RtcError::invalid_state("set_remote_description(answer) requires local offer"))
        },
        SdpType::Pranswer => if state == SignalingState::HaveLocalOffer {
            Ok(SignalingState::HaveLocalOffer)
        } else {
            Err(RtcError::invalid_state("set_remote_description(pranswer) requires local offer"))
        },
        SdpType::Rollback => Err(RtcError::NotImplemented("rollback".to_owned())),
    }
}

/// An offer and its answer, in either direction and with provisional answers between them, lead
/// back to the stable state.
pub proof fn exchange_returns_to_stable()
    ensures
        local_transition(SignalingState::Stable, SdpType::Offer) == Ok::<_, RtcErrorView>(
            SignalingState::HaveLocalOffer,
        ),
        remote_transition(SignalingState::HaveLocalOffer, SdpType::Pranswer) == Ok::<
            _,
            RtcErrorView,
        >(SignalingState::HaveLocalOffer),
        remote_transition(SignalingState::HaveLocalOffer, SdpType::Answer) == Ok::<
            _,
            RtcErrorView,
        >(SignalingState::Stable),
        remote_transition(SignalingState::Stable, SdpType::Offer) == Ok::<_, RtcErrorView>(
            SignalingState::HaveRemoteOffer,
        ),
        local_transition(SignalingState::HaveRemoteOffer, SdpType::Pranswer) == Ok::<
            _,
            RtcErrorView,
        >(SignalingState::HaveRemoteOffer),
        local_transition(SignalingState::HaveRemoteOffer, SdpType::Answer) == Ok::<
            _,
            RtcErrorView,
        >(SignalingState::Stable),
{
}

/// A provisional answer never completes an exchange: where it is accepted the state stays.
pub proof fn provisional_answers_keep_the_state(state: SignalingState)
    ensures
        local_transition(state, SdpType::Pranswer) matches Ok(s) ==> s == state,
        remote_transition(state, SdpType::Pranswer) matches Ok(s) ==> s == state,
{
}

/// A closed connection takes no description, and a rollback is never taken.
pub proof fn refused_descriptions(state: SignalingState, t: SdpType)
    ensures
        local_transition(SignalingState::Closed, t) is Err,
        remote_transition(SignalingState::Closed, t) is Err,
        local_transition(state, SdpType::Rollback) is Err,
        remote_transition(state, SdpType::Rollback) is Err,
{
}

/// At most one side has an offer outstanding: an offer is taken only in the stable state.
pub proof fn offers_need_the_stable_state(state: SignalingState)
    ensures
        local_transition(state, SdpType::Offer) is Ok <==> state == SignalingState::Stable,
        remote_transition(state, SdpType::Offer) is Ok <==> state == SignalingState::Stable,
{
}

/// An answer, provisional or not, is taken only where an offer of the other side is open: a local
/// one after a remote offer, a remote one after a local offer.
pub proof fn answers_need_an_offer(state: SignalingState)
    ensures
        local_transition(state, SdpType::Answer) is Ok <==> state
            == SignalingState::HaveRemoteOffer,
        local_transition(state, SdpType::Pranswer) is Ok <==> state
            == SignalingState::HaveRemoteOffer,
        remote_transition(state, SdpType::Answer) is Ok <==> state
            == SignalingState::HaveLocalOffer,
        remote_transition(state, SdpType::Pranswer) is Ok <==> state
            == SignalingState::HaveLocalOffer,
{
}

} // verus!

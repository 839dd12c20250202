//! Media directions.

use vstd::prelude::*;

verus! {

/// The direction attribute of a media section.
#[derive(Clone, Copy, PartialEq, Eq, Structural, Debug)]
pub enum Direction {
    SendRecv,
    SendOnly,
    RecvOnly,
    Inactive,
}

/// The direction of a transceiver.
#[derive(Clone, Copy, PartialEq, Eq, Structural, Debug)]
pub enum TransceiverDirection {
    SendRecv,
    SendOnly,
    RecvOnly,
    Inactive,
}

/// The direction that sends iff `s` and receives iff `r`.
pub open spec fn direction_of(s: bool, r: bool) -> TransceiverDirection {
    if s && r {
        TransceiverDirection::SendRecv
    } else if s {
        TransceiverDirection::SendOnly
    } else if r {
        TransceiverDirection::RecvOnly
    } else {
        TransceiverDirection::Inactive
    }
}

impl Direction {
    /// Whether the side that wrote this direction sends.
    pub open spec fn spec_sends(self) -> bool {
        self is SendRecv || self is SendOnly
    }

    /// Whether the side that wrote this direction receives.
    pub open spec fn spec_receives(self) -> bool {
        self is SendRecv || self is RecvOnly
    }

    /// Whether the side that wrote this direction sends.
    #[verifier::when_used_as_spec(spec_sends)]
    pub fn sends(self) -> (r: bool)
        ensures
            r == self.spec_sends(),
    {
        matches!(self, Direction::SendRecv | Direction::SendOnly)
    }

    /// Whether the side that wrote this direction receives.
    #[verifier::when_used_as_spec(spec_receives)]
    pub fn receives(self) -> (r: bool)
        ensures
            r == self.spec_receives(),
    {
        matches!(self, Direction::SendRecv | Direction::RecvOnly)
    }
}

impl TransceiverDirection {
    /// Whether this direction sends.
    pub open spec fn spec_sends(self) -> bool {
        self is SendRecv || self is SendOnly
    }

    /// Whether this direction receives.
    pub open spec fn spec_receives(self) -> bool {
        self is SendRecv || self is RecvOnly
    }

    /// The same direction seen from the other side: what one sends the other receives.
    pub open spec fn spec_answer_direction(self) -> Self {
        direction_of(self.spec_receives(), self.spec_sends())
    }

    /// What both directions allow.
    pub open spec fn spec_intersect(self, other: Self) -> Self {
        direction_of(
            self.spec_sends() && other.spec_sends(),
            self.spec_receives() && other.spec_receives(),
        )
    }

    /// The direction without sending.
    pub open spec fn spec_without_sending(self) -> Self {
        direction_of(false, self.spec_receives())
    }

    /// The direction that answers this one.
    #[verifier::when_used_as_spec(spec_answer_direction)]
    pub fn answer_direction(self) -> (r: Self)
        ensures
            r == self.spec_answer_direction(),
    {
        match self {
            TransceiverDirection::SendRecv => TransceiverDirection::SendRecv,
            TransceiverDirection::SendOnly => TransceiverDirection::RecvOnly,
            TransceiverDirection::RecvOnly => TransceiverDirection::SendOnly,
            TransceiverDirection::Inactive => TransceiverDirection::Inactive,
        }
    }

    /// Whether this direction sends.
    #[verifier::when_used_as_spec(spec_sends)]
    pub fn sends(self) -> (r: bool)
        ensures
            r == self.spec_sends(),
    {
        matches!(self, TransceiverDirection::SendRecv | TransceiverDirection::SendOnly)
    }

    /// Whether this direction receives.
    #[verifier::when_used_as_spec(spec_receives)]
    pub fn receives(self) -> (r: bool)
        ensures
            r == self.spec_receives(),
    {
        matches!(self, TransceiverDirection::SendRecv | TransceiverDirection::RecvOnly)
    }

    /// The direction that both `self` and `other` allow.
    #[verifier::when_used_as_spec(spec_intersect)]
    pub fn intersect(self, other: Self) -> (r: Self)
        ensures
            r == self.spec_intersect(other),
    {
        match (self.sends() && other.sends(), self.receives() && other.receives()) {
            (true, true) => TransceiverDirection::SendRecv,
            (true, false) => TransceiverDirection::SendOnly,
            (false, true) => TransceiverDirection::RecvOnly,
            (false, false) => TransceiverDirection::Inactive,
        }
    }

    /// The direction that is left when nothing can be sent.
    #[verifier::when_used_as_spec(spec_without_sending)]
    pub fn without_sending(self) -> (r: Self)
        ensures
            r == self.spec_without_sending(),
    {
        match self {
            TransceiverDirection::SendRecv => TransceiverDirection::RecvOnly,
            TransceiverDirection::SendOnly => TransceiverDirection::Inactive,
            other => other,
        }
    }
}

/// The direction attribute that writes a transceiver's direction.
pub open spec fn attribute_of(d: TransceiverDirection) -> Direction {
    match d {
        TransceiverDirection::SendRecv => Direction::SendRecv,
        TransceiverDirection::SendOnly => Direction::SendOnly,
        TransceiverDirection::RecvOnly => Direction::RecvOnly,
        TransceiverDirection::Inactive => Direction::Inactive,
    }
}

/// The transceiver direction that a direction attribute writes.
pub open spec fn transceiver_of(d: Direction) -> TransceiverDirection {
    direction_of(d.spec_sends(), d.spec_receives())
}

impl Default for TransceiverDirection {
    fn default() -> (r: Self)
        ensures
            r == TransceiverDirection::SendRecv,
    {
        TransceiverDirection::SendRecv
    }
}

impl From<TransceiverDirection> for Direction {
    fn from(value: TransceiverDirection) -> (r: Self) {
        match value {
            TransceiverDirection::SendRecv => Direction::SendRecv,
            TransceiverDirection::SendOnly => Direction::SendOnly,
            TransceiverDirection::RecvOnly => Direction::RecvOnly,
            TransceiverDirection::Inactive => Direction::Inactive,
        }
    }
}

impl vstd::std_specs::convert::FromSpecImpl<TransceiverDirection> for Direction {
    open spec fn obeys_from_spec() -> bool {
        true
    }

    open spec fn from_spec(v: TransceiverDirection) -> Self {
        attribute_of(v)
    }
}

impl From<Direction> for TransceiverDirection {
    fn from(value: Direction) -> (r: Self) {
        match value {
            Direction::SendRecv => TransceiverDirection::SendRecv,
            Direction::SendOnly => TransceiverDirection::SendOnly,
            Direction::RecvOnly => TransceiverDirection::RecvOnly,
            Direction::Inactive => TransceiverDirection::Inactive,
        }
    }
}

impl vstd::std_specs::convert::FromSpecImpl<Direction> for TransceiverDirection {
    open spec fn obeys_from_spec() -> bool {
        true
    }

    open spec fn from_spec(v: Direction) -> Self {
        transceiver_of(v)
    }
}

/// Answering twice gives the direction back.
pub proof fn answer_direction_is_an_involution(d: TransceiverDirection)
    ensures
        d.answer_direction().answer_direction() == d,
{
}

/// What answers a direction receives exactly what that direction sends, and the other way round.
pub proof fn answer_direction_swaps_roles(d: TransceiverDirection)
    ensures
        d.answer_direction().sends() == d.receives(),
        d.answer_direction().receives() == d.sends(),
{
}

/// The intersection sends and receives exactly what both directions do.
pub proof fn intersection_is_the_meet(a: TransceiverDirection, b: TransceiverDirection)
    ensures
        a.intersect(b).sends() == (a.sends() && b.sends()),
        a.intersect(b).receives() == (a.receives() && b.receives()),
        a.intersect(b) == b.intersect(a),
        a.intersect(a) == a,
{
}

/// The two direction types name the same four directions.
pub proof fn direction_conversions_round_trip(d: Direction, t: TransceiverDirection)
    ensures
        attribute_of(transceiver_of(d)) == d,
        transceiver_of(attribute_of(t)) == t,
{
}

/// Only `sendrecv` and `sendonly` send, only `sendrecv` and `recvonly` receive, in either notation;
/// no two directions do the same.
pub proof fn directions_say_what_they_do(d: TransceiverDirection, e: TransceiverDirection, a: Direction)
    ensures
        d.sends() <==> d == TransceiverDirection::SendRecv || d == TransceiverDirection::SendOnly,
        d.receives() <==> d == TransceiverDirection::SendRecv || d
            == TransceiverDirection::RecvOnly,
        a.sends() <==> a == Direction::SendRecv || a == Direction::SendOnly,
        a.receives() <==> a == Direction::SendRecv || a == Direction::RecvOnly,
        d.sends() == e.sends() && d.receives() == e.receives() ==> d == e,
        attribute_of(d).sends() == d.sends(),
        attribute_of(d).receives() == d.receives(),
        transceiver_of(a).sends() == a.sends(),
        transceiver_of(a).receives() == a.receives(),
{
}

/// A direction without sending does not send, and receives as before.
pub proof fn without_sending_still_receives(d: TransceiverDirection)
    ensures
        !d.without_sending().sends(),
        d.without_sending().receives() == d.receives(),
{
}

} // verus!

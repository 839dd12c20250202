//! Data channels of a connection.

use super::with_added;
use super::ConnectionView;
use super::PeerConnection;
use crate::direction::TransceiverDirection;
use crate::ident::is_rtc_id;
use crate::ident::random_rtc_id;
use crate::matching::kind_is;
use crate::outside::random_u32;
use crate::sdp::MediaKind;
use crate::search::first;
use crate::search::first_from;
use crate::transceiver::transceivers;
use vstd::prelude::*;

verus! {

/// A data channel that was created.
#[derive(Clone, Copy, PartialEq, Eq, Structural, Debug)]
pub struct ChannelPlan {
    pub id: u16,
    /// The SCTP transport on which the other side is told of it.
    pub open_on: Option<u64>,
}

/// The lowest identifier from `id` on, in steps of two, that no channel has.
pub open spec fn free_channel_from(channels: Seq<u16>, id: int) -> Option<u16>
    decreases 65538 - id,
{
    if id < 0 || id > u16::MAX {
        None
    } else if channels.contains(id as u16) {
        free_channel_from(channels, id + 2)
    } else {
        Some(id as u16)
    }
}

impl ConnectionView {
    /// Where the identifiers of our channels begin: even ones are the client's, odd ones the
    /// server's. Before the roles are known we count as the client.
    pub open spec fn first_channel(self) -> int {
        if self.role == Some(false) {
            1
        } else {
            0
        }
    }

    /// The identifier of a channel that is created, by agreement or the lowest that is free.
    pub open spec fn channel_id(self, negotiated: Option<u16>) -> Option<u16> {
        match negotiated {
            Some(id) => Some(id),
            None => free_channel_from(self.channels, self.first_channel()),
        }
    }

    /// The connection with a section for data channels.
    pub open spec fn with_application(
        self,
        ssrc_step: u32,
        stream_id: Seq<char>,
        track_id: Seq<char>,
    ) -> ConnectionView {
        if first(self.ts, kind_is(MediaKind::Application)) is Some {
            self
        } else {
            with_added(
                self,
                MediaKind::Application,
                TransceiverDirection::SendRecv,
                ssrc_step,
                stream_id,
                track_id,
            )
        }
    }

    /// The connection with a channel more.
    pub open spec fn with_channel(
        self,
        id: u16,
        ssrc_step: u32,
        stream_id: Seq<char>,
        track_id: Seq<char>,
    ) -> ConnectionView {
        ConnectionView {
            channels: self.channels.push(id),
            ..self.with_application(ssrc_step, stream_id, track_id)
        }
    }

    /// How a channel that is created is opened: one that was agreed upon needs no telling.
    pub open spec fn channel_plan(self, negotiated: Option<u16>) -> ChannelPlan {
        ChannelPlan {
            id: self.channel_id(negotiated)->0,
            open_on: if negotiated is Some {
                None
            } else {
                self.sctp
            },
        }
    }
}

fn has_channel(channels: &Vec<u16>, id: u16) -> (r: bool)
    ensures
        r == channels@.contains(id),
{
    let mut i: usize = 0;
    while i < channels.len()
        invariant
            i <= channels@.len(),
            forall|j: int| 0 <= j < i ==> channels@[j] != id,
        decreases channels@.len() - i,
    {
        if channels[i] == id {
            return true;
        }
        i += 1;
    }
    false
}

impl PeerConnection {
    /// The identifiers of the data channels.
    pub fn data_channels(&self) -> (r: &Vec<u16>)
        ensures
            r@ == self@.channels,
    {
        &self.data_channels
    }

    /// The lowest identifier that our next data channel may have; none where all are taken.
    pub fn next_channel_id(&self) -> (r: Option<u16>)
        ensures
            r == self@.channel_id(None),
    {
        let first: u32 = match self.dtls_role {
            Some(client) => if client {
                0
            } else {
                1
            },
            None => 0,
        };
        assert(first == self@.first_channel());
        let mut id: u32 = first;
        while id <= 65535
            invariant
                id <= 65537,
                first == self@.first_channel(),
                self@.channels == self.data_channels@,
                free_channel_from(self.data_channels@, first as int) == free_channel_from(
                    self.data_channels@,
                    id as int,
                ),
            decreases 65537 - id,
        {
            if !has_channel(&self.data_channels, id as u16) {
                return Some(id as u16);
            }
            id += 2;
        }
        None
    }

    /// Creates a data channel, with the given step to the next SSRC and names for the transceiver
    /// that describes data channels, where there is none yet.
    pub fn create_data_channel_with(
        &mut self,
        negotiated: Option<u16>,
        ssrc_step: u32,
        stream_id: String,
        track_id: String,
    ) -> (r: ChannelPlan)
        requires
            old(self)@.wf(),
            old(self)@.channel_id(negotiated) is Some,
        ensures
            final(self)@.wf(),
            r == old(self)@.channel_plan(negotiated),
            final(self)@ == old(self)@.with_channel(r.id, ssrc_step, stream_id@, track_id@),
    {
        let ghost v0 = self@;
        let mut i: usize = 0;
        while i < self.transceivers.len() && self.transceivers[i].kind() != MediaKind::Application
            invariant
                i <= self.transceivers@.len(),
                self@ == v0,
                first(v0.ts, kind_is(MediaKind::Application)) == first_from(
                    v0.ts,
                    kind_is(MediaKind::Application),
                    i as int,
                ),
            decreases self.transceivers@.len() - i,
        {
            assert(v0.ts[i as int] == self.transceivers@[i as int]@);
            i += 1;
        }
        if i < self.transceivers.len() {
            assert(v0.ts[i as int] == self.transceivers@[i as int]@);
        } else {
            self.add_transceiver_with(
                MediaKind::Application,
                TransceiverDirection::SendRecv,
                ssrc_step,
                stream_id,
                track_id,
            );
        }
        let id: u16 = match negotiated {
            Some(id) => id,
            None => match self.next_channel_id() {
                Some(id) => id,
                None => 0,
            },
        };
        self.data_channels.push(id);
        assert(self@ =~= v0.with_channel(id, ssrc_step, stream_id@, track_id@));
        ChannelPlan {
            id,
            open_on: if negotiated.is_some() {
                None
            } else {
                self.sctp_transport
            },
        }
    }

    /// Creates a data channel.
    pub fn create_data_channel(&mut self, negotiated: Option<u16>) -> (r: ChannelPlan)
        requires
            old(self)@.wf(),
            old(self)@.channel_id(negotiated) is Some,
        ensures
            final(self)@.wf(),
            r == old(self)@.channel_plan(negotiated),
            exists|ssrc_step: u32, stream_id: Seq<char>, track_id: Seq<char>|
                ssrc_step != 0 && is_rtc_id(stream_id) && is_rtc_id(track_id) && final(self)@
                    == #[trigger] old(self)@.with_channel(
                    r.id,
                    ssrc_step,
                    stream_id,
                    track_id,
                ),
    {
        let ssrc_step: u32 = random_u32().saturating_add(1);
        self.create_data_channel_with(negotiated, ssrc_step, random_rtc_id(), random_rtc_id())
    }

    /// Forgets a data channel that nobody holds any more.
    pub fn release_data_channel(&mut self, id: u16)
        ensures
            final(self)@ == (ConnectionView {
                channels: crate::search::kept(old(self)@.channels, |x: u16| x != id),
                ..old(self)@
            }),
            old(self)@.wf() ==> final(self)@.wf(),
    {
        let ghost v0 = self@;
        let ghost p = |x: u16| x != id;
        let mut left: Vec<u16> = Vec::new();
        let mut i: usize = 0;
        while i < self.data_channels.len()
            invariant
                i <= self.data_channels@.len(),
                v0 == self@,
                v0.channels == self.data_channels@,
                p == (|x: u16| x != id),
                crate::search::kept(v0.channels, p) == crate::search::kept_from(
                    v0.channels,
                    p,
                    i as int,
                    left@,
                ),
            decreases self.data_channels@.len() - i,
        {
            if self.data_channels[i] != id {
                left.push(self.data_channels[i]);
            }
            i += 1;
        }
        self.data_channels = left;
        assert(self@ =~= (ConnectionView { channels: left@, ..v0 }));
    }
}

proof fn free_channel_facts(channels: Seq<u16>, id: int)
    requires
        0 <= id,
    ensures
        free_channel_from(channels, id) matches Some(r) ==> r >= id && (r - id) % 2 == 0
            && !channels.contains(r) && forall|j: u16|
            id <= j < r && (j - id) % 2 == 0 ==> #[trigger] channels.contains(j),
    decreases 65538 - id,
{
    if id <= u16::MAX && channels.contains(id as u16) {
        free_channel_facts(channels, id + 2);
    }
}

/// A channel that is not agreed upon gets an identifier that no channel has, of the parity of our
/// role, and the lowest such; so the channels that both sides create never collide.
pub proof fn channel_id_is_free(v: ConnectionView)
    ensures
        v.channel_id(None) matches Some(id) ==> !v.channels.contains(id) && id % 2
            == v.first_channel() && forall|j: u16|
            j < id && j % 2 == v.first_channel() ==> #[trigger] v.channels.contains(j),
{
    free_channel_facts(v.channels, v.first_channel());
}

/// A data channel that was agreed upon has the identifier that was agreed and is opened on no
/// transport; another one is opened on the SCTP transport, where there is one. The connection knows
/// the channel, and describes data channels in one transceiver.
pub proof fn channels_are_opened_as_agreed(
    v: ConnectionView,
    id: u16,
    ssrc_step: u32,
    stream_id: Seq<char>,
    track_id: Seq<char>,
)
    ensures
        v.channel_id(Some(id)) == Some(id),
        v.channel_plan(Some(id)).id == id,
        v.channel_plan(Some(id)).open_on is None,
        v.channel_plan(None).open_on == v.sctp,
        v.role == Some(true) ==> v.first_channel() == 0,
        v.role == Some(false) ==> v.first_channel() == 1,
        ({
            let w = v.with_channel(id, ssrc_step, stream_id, track_id);
            let known = exists|i: int|
                0 <= i < v.ts.len() && (#[trigger] v.ts[i]).kind == MediaKind::Application;
            &&& w.channels == v.channels.push(id)
            &&& known ==> w.ts == v.ts
            &&& !known ==> w.ts.len() == v.ts.len() + 1 && w.ts.last().kind
                == MediaKind::Application && w.ts.take(v.ts.len() as int) == v.ts
        }),
{
    crate::search::first_from_facts(v.ts, kind_is(MediaKind::Application), 0);
    let w = v.with_channel(id, ssrc_step, stream_id, track_id);
    if exists|i: int| 0 <= i < v.ts.len() && (#[trigger] v.ts[i]).kind == MediaKind::Application {
        let i = choose|i: int|
            0 <= i < v.ts.len() && (#[trigger] v.ts[i]).kind == MediaKind::Application;
        assert(kind_is(MediaKind::Application)(v.ts[i]));
    } else {
        if let Some(i) = first(v.ts, kind_is(MediaKind::Application)) {
            assert(kind_is(MediaKind::Application)(v.ts[i]));
        }
        assert(w.ts.take(v.ts.len() as int) =~= v.ts);
    }
}

} // verus!

//! What a decision asks the transports to do.

use crate::address::SocketAddress;
use crate::receiver::Route;
use crate::receiver::RouteView;
use crate::rtp::Goodbye;
use crate::sender::SendLoop;
use crate::text::text_opt;
use vstd::prelude::*;

verus! {

/// One thing to be done outside, in the order in which it is asked for.
pub enum Action {
    /// Packets of a transport take a route, or are read by an extension.
    Route { transport: u64, route: Route },
    /// A send loop of a transceiver's sender has to run.
    StartSendLoop { transceiver: u64, send_loop: SendLoop },
    /// The application is told of the track of a transceiver.
    Track { transceiver: u64 },
    /// A transport latches onto an SSRC.
    ExpectSsrc { transport: u64, ssrc: u32 },
    /// The primary direct transport sends to an address.
    CompleteDirect { address: SocketAddress },
    /// A transport sends to an address that signaling gives, and forgets the address that it had
    /// latched onto.
    SetRemoteAddress { transport: u64, address: SocketAddress },
    /// A transport hands packets to nobody any more.
    ClearListeners { transport: u64 },
    /// The extra ICE transport of a transceiver stops.
    StopIce { transceiver: u64 },
    /// The send loop of a transceiver's sender ends.
    StopSender { transceiver: u64 },
    /// The track of a transceiver's receiver ends.
    StopTrack { transceiver: u64 },
    /// A transport sends a goodbye, as well as it can, for its sources.
    SendBye { transport: u64, goodbye: Goodbye },
    /// An SCTP transport closes.
    CloseSctp { transport: u64 },
    /// A DTLS transport closes.
    CloseDtls { transport: u64 },
    /// The primary ICE transport stops.
    StopPrimaryIce,
    /// A transport sends RTCP apart from RTP, or along with it.
    SetRtcpAddress { transport: u64, address: Option<SocketAddress> },
    /// An observer sees the packets of a transport; one that already does goes on.
    Observe { transport: u64, observer: u64 },
    /// Nobody observes a transport any more.
    ClearObservers { transport: u64 },
    /// A transport forwards no packets any more.
    ClearBridge { transport: u64 },
}

/// The model of an action. The first timestamp of a send loop is random and not part of it.
pub enum ActionView {
    Route { transport: u64, route: RouteView },
    StartSendLoop { transceiver: u64, generation: u64, last_source: Option<u32> },
    Track { transceiver: u64 },
    ExpectSsrc { transport: u64, ssrc: u32 },
    CompleteDirect { address: SocketAddress },
    SetRemoteAddress { transport: u64, address: SocketAddress },
    ClearListeners { transport: u64 },
    StopIce { transceiver: u64 },
    StopSender { transceiver: u64 },
    StopTrack { transceiver: u64 },
    SendBye { transport: u64, sources: Seq<u32>, reason: Option<Seq<char>> },
    CloseSctp { transport: u64 },
    CloseDtls { transport: u64 },
    StopPrimaryIce,
    SetRtcpAddress { transport: u64, address: Option<SocketAddress> },
    Observe { transport: u64, observer: u64 },
    ClearObservers { transport: u64 },
    ClearBridge { transport: u64 },
}

impl View for Action {
    type V = ActionView;

    open spec fn view(&self) -> ActionView {
        match *self {
            Action::Route { transport, route } => ActionView::Route { transport, route: route@ },
            Action::StartSendLoop { transceiver, send_loop } => ActionView::StartSendLoop {
                transceiver,
                generation: send_loop.generation,
                last_source: send_loop.last_source,
            },
            Action::Track { transceiver } => ActionView::Track { transceiver },
            Action::ExpectSsrc { transport, ssrc } => ActionView::ExpectSsrc { transport, ssrc },
            Action::CompleteDirect { address } => ActionView::CompleteDirect { address },
            Action::SetRemoteAddress { transport, address } => ActionView::SetRemoteAddress {
                transport,
                address,
            },
            Action::ClearListeners { transport } => ActionView::ClearListeners { transport },
            Action::StopIce { transceiver } => ActionView::StopIce { transceiver },
            Action::StopSender { transceiver } => ActionView::StopSender { transceiver },
            Action::StopTrack { transceiver } => ActionView::StopTrack { transceiver },
            Action::SendBye { transport, goodbye } => ActionView::SendBye {
                transport,
                sources: goodbye.sources@,
                reason: text_opt(goodbye.reason),
            },
            Action::CloseSctp { transport } => ActionView::CloseSctp { transport },
            Action::CloseDtls { transport } => ActionView::CloseDtls { transport },
            Action::StopPrimaryIce => ActionView::StopPrimaryIce,
            Action::SetRtcpAddress { transport, address } => ActionView::SetRtcpAddress {
                transport,
                address,
            },
            Action::Observe { transport, observer } => ActionView::Observe { transport, observer },
            Action::ClearObservers { transport } => ActionView::ClearObservers { transport },
            Action::ClearBridge { transport } => ActionView::ClearBridge { transport },
        }
    }
}

/// The model of a list of actions.
pub open spec fn actions(v: Seq<Action>) -> Seq<ActionView> {
    v.map_values(|a: Action| a@)
}

/// Adds an action.
pub fn push_action(list: &mut Vec<Action>, a: Action)
    ensures
        actions(final(list)@) == actions(old(list)@).push(a@),
{
    let ghost before = list@;
    list.push(a);
    assert(actions(list@) =~= actions(before).push(a@));
}

/// `acc` with a route, if there is one.
pub open spec fn with_route(acc: Seq<ActionView>, r: Option<(u64, RouteView)>) -> Seq<ActionView> {
    match r {
        Some(x) => acc.push(ActionView::Route { transport: x.0, route: x.1 }),
        None => acc,
    }
}

/// Adds a route, if there is one.
pub fn push_route(list: &mut Vec<Action>, r: Option<(u64, Route)>)
    ensures
        actions(final(list)@) == with_route(actions(old(list)@), crate::receiver::route_opt(r)),
{
    if let Some(x) = r {
        push_action(list, Action::Route { transport: x.0, route: x.1 });
    }
}

/// `acc` with the routes from index `k` on.
pub open spec fn routes_from(
    transport: u64,
    r: Seq<RouteView>,
    k: int,
    acc: Seq<ActionView>,
) -> Seq<ActionView>
    decreases r.len() - k,
{
    if k < 0 || k >= r.len() {
        acc
    } else {
        routes_from(transport, r, k + 1, acc.push(ActionView::Route { transport, route: r[k] }))
    }
}

/// Adds the routes of a transport.
pub fn push_routes(list: &mut Vec<Action>, transport: u64, routes: Vec<Route>)
    ensures
        actions(final(list)@) == routes_from(
            transport,
            crate::receiver::routes(routes@),
            0,
            actions(old(list)@),
        ),
{
    let ghost r = crate::receiver::routes(routes@);
    let ghost start = actions(list@);
    let mut rest = routes;
    let mut i: usize = 0;
    let n: usize = rest.len();
    let ghost all = rest@;
    while i < n
        invariant
            i <= n,
            n == all.len(),
            r == crate::receiver::routes(all),
            rest@ == all.skip(i as int),
            routes_from(transport, r, 0, start) == routes_from(
                transport,
                r,
                i as int,
                actions(list@),
            ),
        decreases n - i,
    {
        let x = rest.remove(0);
        assert(x == all[i as int]);
        assert(r[i as int] == x@);
        push_action(list, Action::Route { transport, route: x });
        i += 1;
        assert(rest@ =~= all.skip(i as int));
    }
}

} // verus!

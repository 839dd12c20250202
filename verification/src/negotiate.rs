//! What a negotiated section and a transport change in a transceiver.

use crate::action::actions;
use crate::action::push_action;
use crate::action::push_route;
use crate::action::push_routes;
use crate::action::routes_from;
use crate::action::with_route;
use crate::action::Action;
use crate::action::ActionView;
use crate::apt::apt_map;
use crate::apt::extract_rtx_apt_map_from_attrs;
use crate::codec::codecs;
use crate::codec::extmap_of;
use crate::codec::extract_extmap;
use crate::codec::extract_payload_map;
use crate::codec::extract_ssrc_from_section;
use crate::codec::has_uri_part;
use crate::codec::id_from;
use crate::codec::is_uri;
use crate::codec::payload_map_of;
use crate::codec::pick_sender_codec_params;
use crate::codec::section_ssrc;
use crate::codec::sender_codec;
use crate::codec::uris;
use crate::codec::CodecView;
use crate::codec::RtpCodecParameters;
use crate::direction::transceiver_of;
use crate::direction::TransceiverDirection;
use crate::receiver::fresh_receiver;
use crate::receiver::shared_plan;
use crate::receiver::types_from;
use crate::receiver::ReceiverView;
use crate::receiver::RouteView;
use crate::receiver::RtpReceiver;
use crate::receiver::RtpReceiverBuilder;
use crate::sdp::MediaSection;
use crate::sdp::SectionView;
use crate::sender::SenderView;
use crate::stream::StreamInfo;
use crate::stream::StreamView;
use crate::text::texts;
use crate::transceiver::abs_send_time_uri;
use crate::transceiver::clone_codecs;
use crate::transceiver::fresh_transceiver;
use crate::transceiver::sdes_mid_uri;
use crate::transceiver::RtpTransceiver;
use crate::transceiver::TransceiverView;
use std::collections::HashMap;
use vstd::prelude::*;

verus! {

broadcast use vstd::std_specs::hash::group_hash_axioms;

/// A transceiver and the actions so far.
#[verifier::ext_equal]
pub struct Step {
    pub t: TransceiverView,
    pub acts: Seq<ActionView>,
}

/// A receiver and the actions so far.
#[verifier::ext_equal]
pub struct ReceiverStep {
    pub r: ReceiverView,
    pub acts: Seq<ActionView>,
}

/// A sender takes the codec that the section leaves it, where that has another payload type.
pub open spec fn synced(t: TransceiverView, s: SectionView, m: Map<u8, CodecView>) -> TransceiverView {
    match t.sender {
        Some(x) => match sender_codec(s.formats, m, x.params) {
            Some(c) => if c.payload_type != x.params.payload_type {
                TransceiverView { sender: Some(SenderView { params: c, ..x }), ..t }
            } else {
                t
            },
            None => t,
        },
        None => t,
    }
}

/// The route of the negotiated payload types.
pub open spec fn payload_route(t: TransceiverView, m: Map<u8, CodecView>) -> Option<(
    u64,
    RouteView,
)> {
    match t.transport {
        Some(x) => if t.listens() {
            Some((x, RouteView::PayloadTypes(types_from(Seq::empty(), m.dom(), 0))))
        } else {
            None
        },
        None => None,
    }
}

/// The codecs of a section are taken over, unless it has none.
pub open spec fn payload_step(st: Step, s: SectionView, sync: bool) -> Step {
    let m = payload_map_of(s);
    if m.dom() == Set::<u8>::empty() {
        st
    } else {
        let t = st.t.with_payload_map(m);
        Step {
            t: if sync {
                synced(t, s, m)
            } else {
                t
            },
            acts: with_route(st.acts, payload_route(st.t, m)),
        }
    }
}

/// How a transport reads negotiated header extensions.
pub open spec fn extension_routes(m: Map<u8, Seq<char>>) -> Seq<RouteView> {
    seq![
        RouteView::AbsSendTimeExtension(id_from(m, is_uri(abs_send_time_uri()), 0)),
        RouteView::RidExtension(id_from(m, has_uri_part("rtp-stream-id"@), 0)),
        RouteView::SdesMidExtension(id_from(m, is_uri(sdes_mid_uri()), 0)),
    ]
}

/// Header extensions are taken over.
pub open spec fn extmap_step(st: Step, m: Map<u8, Seq<char>>) -> Step {
    Step {
        t: st.t.with_extmap(m),
        acts: match st.t.transport {
            Some(x) => routes_from(x, extension_routes(m), 0, st.acts),
            None => st.acts,
        },
    }
}

fn sync_sender(
    t: &mut RtpTransceiver,
    section: &MediaSection,
    map: &HashMap<u8, RtpCodecParameters>,
)
    ensures
        final(t)@ == synced(old(t)@, section@, codecs(map@)),
        old(t)@.wf() ==> final(t)@.wf(),
{
    let ghost t0 = t@;
    let picked = match t.sender() {
        Some(s) => {
            let cur = s.params();
            match pick_sender_codec_params(section, map, &cur) {
                Some(p) => if p.payload_type != cur.payload_type {
                    Some(p)
                } else {
                    None
                },
                None => None,
            }
        },
        None => None,
    };
    if let Some(p) = picked {
        if let Some(s) = t.sender_mut() {
            s.set_params(p);
        }
    }
    assert(t@ =~= synced(t0, section@, codecs(map@)));
}

fn take_payload_map(t: &mut RtpTransceiver, section: &MediaSection, sync: bool, list: &mut Vec<
    Action,
>)
    ensures
        (Step { t: final(t)@, acts: actions(final(list)@) }) == payload_step(
            (Step { t: old(t)@, acts: actions(old(list)@) }),
            section@,
            sync,
        ),
        old(t)@.wf() ==> final(t)@.wf(),
{
    let map = extract_payload_map(section);
    let ghost m = codecs(map@);
    assert(m.dom() =~= map@.dom());
    if map.len() == 0 {
        assert(m.dom() =~= Set::<u8>::empty()) by {
            vstd::set_lib::lemma_set_empty_equivalency_len(map@.dom());
        }
        return;
    }
    assert(map@.dom().len() != 0);
    let copy = clone_codecs(&map);
    let route = t.update_payload_map(map);
    push_route(list, route);
    if sync {
        sync_sender(t, section, &copy);
    }
}

fn take_extmap(t: &mut RtpTransceiver, m: HashMap<u8, String>, list: &mut Vec<Action>)
    ensures
        (Step { t: final(t)@, acts: actions(final(list)@) }) == extmap_step(
            (Step { t: old(t)@, acts: actions(old(list)@) }),
            uris(m@),
        ),
        old(t)@.wf() ==> final(t)@.wf(),
{
    if let Some(told) = t.update_extmap(m) {
        push_routes(list, told.0, told.1);
    }
}

/// Takes over the codecs and the header extensions of a section.
pub fn take_section(t: &mut RtpTransceiver, section: &MediaSection, list: &mut Vec<Action>)
    ensures
        (Step { t: final(t)@, acts: actions(final(list)@) }) == extmap_step(
            payload_step((Step { t: old(t)@, acts: actions(old(list)@) }), section@, false),
            extmap_of(section@),
        ),
        old(t)@.wf() ==> final(t)@.wf(),
{
    take_payload_map(t, section, false, list);
    take_extmap(t, extract_extmap(section), list);
}

/// The route of an SSRC.
pub open spec fn ssrc_route(r: ReceiverView, ssrc: u32) -> Option<(u64, RouteView)> {
    match r.transport {
        Some(t) => if ssrc != 0 {
            Some((t, RouteView::Ssrc(ssrc)))
        } else {
            None
        },
        None => None,
    }
}

/// A receiver learns the SSRC of its stream.
pub open spec fn ssrc_step(st: ReceiverStep, ssrc: u32) -> ReceiverStep {
    ReceiverStep {
        r: ReceiverView { ssrc, ..st.r },
        acts: with_route(st.acts, ssrc_route(st.r, ssrc)),
    }
}

/// A receiver learns of retransmissions.
pub open spec fn rtx_step(st: ReceiverStep, rtx: Option<u32>, apt: Map<u8, u8>) -> ReceiverStep {
    let a = match rtx {
        Some(x) => ReceiverStep {
            r: ReceiverView { rtx_ssrc: Some(x), ..st.r },
            acts: with_route(
                st.acts,
                match st.r.transport {
                    Some(t) => Some((t, RouteView::Ssrc(x))),
                    None => None,
                },
            ),
        },
        None => st,
    };
    if apt.dom() == Set::<u8>::empty() {
        a
    } else {
        ReceiverStep {
            r: ReceiverView { rtx_apt: apt, ..a.r },
            acts: with_route(
                a.acts,
                match a.r.transport {
                    Some(t) => Some((t, RouteView::PayloadTypes(a.r.payload_types(apt)))),
                    None => None,
                },
            ),
        }
    }
}

/// A receiver learns of the simulcast layers from index `k` on.
pub open spec fn layers_from(st: ReceiverStep, l: Seq<Seq<char>>, k: int) -> ReceiverStep
    decreases l.len() - k,
{
    if k < 0 || k >= l.len() {
        st
    } else {
        layers_from(
            ReceiverStep {
                r: st.r.with_layer(l[k]),
                acts: with_route(
                    st.acts,
                    match st.r.transport {
                        Some(t) => Some((t, RouteView::Rid(l[k]))),
                        None => None,
                    },
                ),
            },
            l,
            k + 1,
        )
    }
}

fn learn_ssrc(r: &mut RtpReceiver, ssrc: u32, list: &mut Vec<Action>)
    ensures
        (ReceiverStep { r: final(r)@, acts: actions(final(list)@) }) == ssrc_step(
            (ReceiverStep { r: old(r)@, acts: actions(old(list)@) }),
            ssrc,
        ),
{
    let route = r.set_ssrc(ssrc);
    push_route(list, route);
}

fn learn_rtx(r: &mut RtpReceiver, rtx: Option<u32>, apt: HashMap<u8, u8>, list: &mut Vec<Action>)
    ensures
        (ReceiverStep { r: final(r)@, acts: actions(final(list)@) }) == rtx_step(
            (ReceiverStep { r: old(r)@, acts: actions(old(list)@) }),
            rtx,
            apt@,
        ),
{
    if let Some(x) = rtx {
        let route = r.set_rtx_ssrc(x);
        push_route(list, route);
    }
    let route = r.set_rtx_apt_map(apt);
    push_route(list, route);
}

fn learn_layers(r: &mut RtpReceiver, l: &Vec<String>, list: &mut Vec<Action>)
    ensures
        (ReceiverStep { r: final(r)@, acts: actions(final(list)@) }) == layers_from(
            (ReceiverStep { r: old(r)@, acts: actions(old(list)@) }),
            texts(l@),
            0,
        ),
{
    let ghost start = ReceiverStep { r: r@, acts: actions(list@) };
    let mut i: usize = 0;
    while i < l.len()
        invariant
            i <= l@.len(),
            layers_from(start, texts(l@), 0) == layers_from(
                (ReceiverStep { r: r@, acts: actions(list@) }),
                texts(l@),
                i as int,
            ),
        decreases l@.len() - i,
    {
        assert(texts(l@)[i as int] == l@[i as int]@);
        let route = r.add_simulcast_track(l[i].as_str());
        push_route(list, route);
        i += 1;
    }
}

/// What a re-offer, or its answer, changes at once in the transceiver of a section.
pub open spec fn reinvite_step(st: Step, s: SectionView) -> Step {
    let a = match st.t.receiver {
        Some(r) => match section_ssrc(s) {
            Some(n) => if r.ssrc != n {
                let x = ssrc_step(ReceiverStep { r, acts: st.acts }, n);
                Step { t: TransceiverView { receiver: Some(x.r), ..st.t }, acts: x.acts }
            } else {
                st
            },
            None => Step {
                t: st.t,
                acts: with_route(
                    st.acts,
                    match r.transport {
                        Some(t) => Some((t, RouteView::Provisional)),
                        None => None,
                    },
                ),
            },
        },
        None => st,
    };
    let b = extmap_step(payload_step(a, s, true), extmap_of(s));
    Step { t: TransceiverView { direction: transceiver_of(s.direction), ..b.t }, acts: b.acts }
}

/// Applies at once what a re-offer, or its answer, changes in the transceiver of a section.
pub fn reinvite_transceiver(t: &mut RtpTransceiver, section: &MediaSection, list: &mut Vec<Action>)
    ensures
        (Step { t: final(t)@, acts: actions(final(list)@) }) == reinvite_step(
            (Step { t: old(t)@, acts: actions(old(list)@) }),
            section@,
        ),
        old(t)@.wf() ==> final(t)@.wf(),
{
    if let Some(r) = t.receiver_mut() {
        match extract_ssrc_from_section(section) {
            Some(n) => {
                if r.ssrc() != n {
                    learn_ssrc(r, n, list);
                }
            },
            None => {
                let route = r.ensure_provisional_listener();
                push_route(list, route);
            },
        }
    }
    take_payload_map(t, section, true, list);
    take_extmap(t, extract_extmap(section), list);
    let direction: TransceiverDirection = TransceiverDirection::from(section.direction);
    if t.direction() != direction {
        t.set_remote_direction(direction);
    }
}

/// What an answer changes in the transceiver of a section: codecs, header extensions, direction
/// and, where the section names one, the stream. The track is told of once, and `transport`
/// expects the stream.
pub open spec fn answer_step(st: Step, s: SectionView, transport: Option<u64>) -> Step {
    let a = extmap_step(payload_step(st, s, true), extmap_of(s));
    let b = Step {
        t: TransceiverView { direction: transceiver_of(s.direction), ..a.t },
        acts: a.acts,
    };
    match section_ssrc(s) {
        Some(n) => {
            let c = match b.t.receiver {
                Some(r) => {
                    let x = ssrc_step(ReceiverStep { r, acts: b.acts }, n);
                    Step {
                        t: TransceiverView {
                            receiver: Some(ReceiverView { track_event_sent: true, ..x.r }),
                            ..b.t
                        },
                        acts: if r.track_event_sent {
                            x.acts
                        } else {
                            x.acts.push(ActionView::Track { transceiver: b.t.id })
                        },
                    }
                },
                None => b,
            };
            match transport {
                Some(x) => Step {
                    t: c.t,
                    acts: c.acts.push(ActionView::ExpectSsrc { transport: x, ssrc: n }),
                },
                None => c,
            }
        },
        None => b,
    }
}

/// Applies an answer to the transceiver of a section.
pub fn answer_transceiver(
    t: &mut RtpTransceiver,
    section: &MediaSection,
    transport: Option<u64>,
    list: &mut Vec<Action>,
)
    ensures
        (Step { t: final(t)@, acts: actions(final(list)@) }) == answer_step(
            (Step { t: old(t)@, acts: actions(old(list)@) }),
            section@,
            transport,
        ),
        old(t)@.wf() ==> final(t)@.wf(),
{
    take_payload_map(t, section, true, list);
    take_extmap(t, extract_extmap(section), list);
    t.set_remote_direction(TransceiverDirection::from(section.direction));
    if let Some(n) = extract_ssrc_from_section(section) {
        let id: u64 = t.id();
        if let Some(r) = t.receiver_mut() {
            learn_ssrc(r, n, list);
            if !r.mark_track_event_sent() {
                push_action(list, Action::Track { transceiver: id });
            }
        }
        if let Some(x) = transport {
            push_action(list, Action::ExpectSsrc { transport: x, ssrc: n });
        }
    }
}

/// The extension identifiers that the primary transport reads after an offered section.
pub open spec fn offer_extensions(
    acts: Seq<ActionView>,
    info: StreamView,
    primary: Option<u64>,
) -> Seq<ActionView> {
    match primary {
        Some(x) => {
            let a = match info.rid_extension {
                Some(id) => acts.push(
                    ActionView::Route {
                        transport: x,
                        route: RouteView::RidExtension(Some(id)),
                    },
                ),
                None => acts,
            };
            match info.send_time_extension {
                Some(id) => a.push(
                    ActionView::Route {
                        transport: x,
                        route: RouteView::AbsSendTimeExtension(Some(id)),
                    },
                ),
                None => a,
            }
        },
        None => acts,
    }
}

/// Tells the primary transport what extension identifiers it reads after an offered section.
pub fn tell_offer_extensions(info: &StreamInfo, primary: Option<u64>, list: &mut Vec<Action>)
    ensures
        actions(final(list)@) == offer_extensions(actions(old(list)@), info@, primary),
{
    if let Some(x) = primary {
        if info.rid_extension.is_some() {
            push_action(
                list,
                Action::Route {
                    transport: x,
                    route: crate::receiver::Route::RidExtension(info.rid_extension),
                },
            );
        }
        if info.send_time_extension.is_some() {
            push_action(
                list,
                Action::Route {
                    transport: x,
                    route: crate::receiver::Route::AbsSendTimeExtension(info.send_time_extension),
                },
            );
        }
    }
}

/// What an offer changes in a transceiver that a section was matched to. One that was matched for
/// the first time tells of its track, where the section names the stream.
pub open spec fn offer_step(st: Step, s: SectionView, info: StreamView, newly: bool) -> Step {
    let a = extmap_step(payload_step(st, s, false), extmap_of(s));
    let b = Step {
        t: TransceiverView { direction: transceiver_of(s.direction), ..a.t },
        acts: a.acts,
    };
    match info.ssrc {
        Some(n) => {
            let c = match b.t.receiver {
                Some(r) => {
                    let x = layers_from(
                        rtx_step(
                            ssrc_step(ReceiverStep { r, acts: b.acts }, n),
                            info.rtx_ssrc,
                            apt_map(s.attributes),
                        ),
                        info.layers,
                        0,
                    );
                    Step {
                        t: TransceiverView {
                            receiver: Some(
                                if newly {
                                    ReceiverView { track_event_sent: true, ..x.r }
                                } else {
                                    x.r
                                },
                            ),
                            ..b.t
                        },
                        acts: x.acts,
                    }
                },
                None => b,
            };
            if newly {
                Step { t: c.t, acts: c.acts.push(ActionView::Track { transceiver: c.t.id }) }
            } else {
                c
            }
        },
        None => b,
    }
}

/// Applies an offer to a transceiver that a section was matched to.
pub fn offer_transceiver(
    t: &mut RtpTransceiver,
    section: &MediaSection,
    info: &StreamInfo,
    newly: bool,
    list: &mut Vec<Action>,
)
    ensures
        (Step { t: final(t)@, acts: actions(final(list)@) }) == offer_step(
            (Step { t: old(t)@, acts: actions(old(list)@) }),
            section@,
            info@,
            newly,
        ),
        old(t)@.wf() ==> final(t)@.wf(),
{
    take_payload_map(t, section, false, list);
    take_extmap(t, extract_extmap(section), list);
    t.set_remote_direction(TransceiverDirection::from(section.direction));
    if let Some(n) = info.ssrc {
        let id: u64 = t.id();
        if let Some(r) = t.receiver_mut() {
            learn_ssrc(r, n, list);
            learn_rtx(
                r,
                info.rtx_ssrc,
                extract_rtx_apt_map_from_attrs(&section.attributes),
                list,
            );
            learn_layers(r, &info.layers, list);
            if newly {
                r.mark_track_event_sent();
            }
        }
        if newly {
            push_action(list, Action::Track { transceiver: id });
        }
    }
}

/// A receiver moves to a transport that tells of its track.
pub open spec fn receiver_moved(
    r: ReceiverView,
    transport: u64,
    t: TransceiverView,
    acts: Seq<ActionView>,
) -> ReceiverStep {
    if r.transport == Some(transport) {
        ReceiverStep { r, acts }
    } else {
        let x = r.on_transport(transport, true);
        ReceiverStep {
            r: x,
            acts: routes_from(transport, x.initial_routes(Some(t.owner())), 0, acts),
        }
    }
}

/// The transceiver that an offered section without one creates. It wants both directions, since
/// we have said nothing of what we want, and is on the primary transport if there is one.
pub open spec fn created_step(
    id: u64,
    s: SectionView,
    info: StreamView,
    nack: bool,
    transport: Option<u64>,
    acts: Seq<ActionView>,
) -> Step {
    let t = TransceiverView {
        desired: TransceiverDirection::SendRecv,
        mid: Some(s.mid),
        transport,
        ..fresh_transceiver(id, s.kind, transceiver_of(s.direction))
    };
    let r0 = fresh_receiver(
        shared_plan(
            s.kind,
            match info.ssrc {
                Some(n) => n,
                None => 0,
            },
            nack,
        ),
    );
    let a = rtx_step(ReceiverStep { r: r0, acts }, info.rtx_ssrc, apt_map(s.attributes));
    let b = match transport {
        Some(x) => receiver_moved(a.r, x, t, a.acts),
        None => a,
    };
    let c = layers_from(b, info.layers, 0);
    Step {
        t: t.with_receiver(
            Some(
                if info.ssrc is Some {
                    ReceiverView { track_event_sent: true, ..c.r }
                } else {
                    c.r
                },
            ),
        ),
        acts: if info.ssrc is Some {
            c.acts.push(ActionView::Track { transceiver: id })
        } else {
            c.acts
        },
    }
}

/// Creates the transceiver of an offered section.
pub fn create_from_offer(
    id: u64,
    section: &MediaSection,
    info: &StreamInfo,
    nack: bool,
    transport: Option<u64>,
    list: &mut Vec<Action>,
) -> (r: RtpTransceiver)
    ensures
        (Step { t: r@, acts: actions(final(list)@) }) == created_step(
            id,
            section@,
            info@,
            nack,
            transport,
            actions(old(list)@),
        ),
        r@.wf(),
{
    let mut t = RtpTransceiver::new(
        id,
        section.kind,
        TransceiverDirection::SendRecv,
    );
    t.set_remote_direction(TransceiverDirection::from(section.direction));
    t.set_mid(section.mid.clone());
    t.set_rtp_transport(transport);
    let ssrc: u32 = match info.ssrc {
        Some(n) => n,
        None => 0,
    };
    let mut builder = RtpReceiverBuilder::new(section.kind, ssrc).shared_payload_map();
    if nack {
        builder = builder.nack();
    }
    let mut r = builder.build();
    learn_rtx(
        &mut r,
        info.rtx_ssrc,
        extract_rtx_apt_map_from_attrs(&section.attributes),
        list,
    );
    if let Some(x) = transport {
        let owner = Some(t.owner());
        if let Some(v) = r.set_transport(x, true, &owner) {
            push_routes(list, x, v);
        }
    }
    learn_layers(&mut r, &info.layers, list);
    if info.ssrc.is_some() {
        r.mark_track_event_sent();
    }
    t.set_receiver(Some(r));
    if info.ssrc.is_some() {
        push_action(list, Action::Track { transceiver: id });
    }
    assert((Step { t: t@, acts: actions(list@) }) =~= created_step(
        id,
        section@,
        info@,
        nack,
        transport,
        actions(old(list)@),
    ));
    t
}

/// The sender and the receiver of a transceiver move to a transport; feedback is sent with the
/// SSRC of the sender.
pub open spec fn wire_step(st: Step, transport: u64) -> Step {
    let a = match st.t.sender {
        Some(s) => if s.transport == Some(transport) {
            st
        } else {
            let generation = s.generation.wrapping_add(1);
            Step {
                t: TransceiverView {
                    sender: Some(SenderView { transport: Some(transport), generation, ..s }),
                    ..st.t
                },
                acts: st.acts.push(
                    ActionView::StartSendLoop {
                        transceiver: st.t.id,
                        generation,
                        last_source: None,
                    },
                ),
            }
        },
        None => st,
    };
    match a.t.receiver {
        Some(r) => {
            let x = receiver_moved(r, transport, a.t, a.acts);
            Step {
                t: TransceiverView {
                    receiver: Some(
                        match a.t.sender {
                            Some(s) => ReceiverView { feedback_ssrc: Some(s.ssrc), ..x.r },
                            None => x.r,
                        },
                    ),
                    ..a.t
                },
                acts: x.acts,
            }
        },
        None => a,
    }
}

/// Moves the sender and the receiver of a transceiver to a transport.
pub fn wire_transceiver(t: &mut RtpTransceiver, transport: u64, list: &mut Vec<Action>)
    ensures
        (Step { t: final(t)@, acts: actions(final(list)@) }) == wire_step(
            (Step { t: old(t)@, acts: actions(old(list)@) }),
            transport,
        ),
        old(t)@.wf() ==> final(t)@.wf(),
{
    let id: u64 = t.id();
    let mut feedback: Option<u32> = None;
    if let Some(s) = t.sender_mut() {
        feedback = Some(s.ssrc());
        if let Some(send_loop) = s.set_transport(transport) {
            push_action(list, Action::StartSendLoop { transceiver: id, send_loop });
        }
    }
    let owner = Some(t.owner());
    if let Some(r) = t.receiver_mut() {
        if let Some(v) = r.set_transport(transport, true, &owner) {
            push_routes(list, transport, v);
        }
        if let Some(ssrc) = feedback {
            r.set_feedback_ssrc(ssrc);
        }
    }
}

/// A transceiver is attached to a transport: it remembers it, the transport learns its header
/// extensions, and its sender and receiver move there.
pub open spec fn attach_step(st: Step, transport: u64) -> Step {
    let t = TransceiverView { transport: Some(transport), ..st.t };
    wire_step(extmap_step(Step { t, acts: st.acts }, t.extmap), transport)
}

/// Attaches a transceiver to a transport.
pub fn attach_transceiver(t: &mut RtpTransceiver, transport: u64, list: &mut Vec<Action>)
    ensures
        (Step { t: final(t)@, acts: actions(final(list)@) }) == attach_step(
            (Step { t: old(t)@, acts: actions(old(list)@) }),
            transport,
        ),
        old(t)@.wf() ==> final(t)@.wf(),
{
    t.set_rtp_transport(Some(transport));
    take_extmap(t, t.get_extmap(), list);
    wire_transceiver(t, transport, list);
}

/// A transceiver is to receive on a transport: it remembers it, and its receiver moves there.
pub open spec fn listen_step(st: Step, transport: u64) -> Step {
    let t = TransceiverView { transport: Some(transport), ..st.t };
    match t.receiver {
        Some(r) => {
            let x = receiver_moved(r, transport, t, st.acts);
            Step { t: TransceiverView { receiver: Some(x.r), ..t }, acts: x.acts }
        },
        None => Step { t, acts: st.acts },
    }
}

/// Lets a transceiver receive on a transport.
pub fn listen_transceiver(t: &mut RtpTransceiver, transport: u64, list: &mut Vec<Action>)
    ensures
        (Step { t: final(t)@, acts: actions(final(list)@) }) == listen_step(
            (Step { t: old(t)@, acts: actions(old(list)@) }),
            transport,
        ),
        old(t)@.wf() ==> final(t)@.wf(),
{
    t.set_rtp_transport(Some(transport));
    let owner = Some(t.owner());
    if let Some(r) = t.receiver_mut() {
        if let Some(v) = r.set_transport(transport, true, &owner) {
            push_routes(list, transport, v);
        }
    }
}

/// No remote description, whatever it says, changes the direction that we want.
pub proof fn remote_descriptions_keep_wanted_direction(
    st: Step,
    s: SectionView,
    info: StreamView,
    newly: bool,
    transport: Option<u64>,
)
    ensures
        reinvite_step(st, s).t.desired == st.t.desired,
        answer_step(st, s, transport).t.desired == st.t.desired,
        offer_step(st, s, info, newly).t.desired == st.t.desired,
{
}

/// Attaching a transceiver again to its transport asks for nothing but what the transport reads.
pub proof fn attaching_twice_is_idle(st: Step, transport: u64)
    ensures
        attach_step(st, transport).t.transport == Some(transport),
        attach_step(st, transport).t.sender matches Some(s) ==> s.transport == Some(transport),
        attach_step(st, transport).t.receiver matches Some(r) ==> r.transport == Some(transport),
        wire_step(attach_step(st, transport), transport).acts == attach_step(st, transport).acts,
{
}

/// What any description leaves of a transceiver: its identity, what we want, whether it has a
/// sender, and the stream and the names of that sender.
pub open spec fn is_same_transceiver(a: TransceiverView, b: TransceiverView) -> bool {
    &&& a.id == b.id
    &&& a.kind == b.kind
    &&& a.mid == b.mid
    &&& a.desired == b.desired
    &&& a.transport == b.transport
    &&& a.sender_ssrc == b.sender_ssrc
    &&& a.sender is None <==> b.sender is None
    &&& a.sender matches Some(s) ==> b.sender->0.ssrc == s.ssrc && b.sender->0.track_id
        == s.track_id && b.sender->0.stream_id == s.stream_id && b.sender->0.next_seq == s.next_seq
        && b.sender->0.transport == s.transport && b.sender->0.nacks == s.nacks
    &&& a.receiver is None <==> b.receiver is None
}

/// A transceiver has what a section says: its direction, its codecs, where it names some, its header
/// extensions.
pub open spec fn has_terms(t: TransceiverView, before: TransceiverView, s: SectionView) -> bool {
    &&& t.direction.spec_sends() <==> s.direction.spec_sends()
    &&& t.direction.spec_receives() <==> s.direction.spec_receives()
    &&& payload_map_of(s).dom() != Set::<u8>::empty() ==> t.payload_map == payload_map_of(s)
    &&& payload_map_of(s).dom() == Set::<u8>::empty() ==> t.payload_map == before.payload_map
    &&& t.receiver matches Some(r) ==> (r.shares_map && payload_map_of(s).dom()
        != Set::<u8>::empty() ==> r.payload_map == payload_map_of(s))
    &&& t.extmap == extmap_of(s)
}

proof fn layers_are_learned(st: ReceiverStep, l: Seq<Seq<char>>, k: int)
    requires
        0 <= k <= l.len(),
    ensures
        ({
            let x = layers_from(st, l, k);
            &&& x.r == (ReceiverView { simulcast: x.r.simulcast, ..st.r })
            &&& forall|i: int|
                0 <= i < st.r.simulcast.len() ==> i < x.r.simulcast.len()
                    && x.r.simulcast[i].0 == (#[trigger] st.r.simulcast[i]).0
            &&& x.r.simulcast.len() >= st.r.simulcast.len()
            &&& forall|i: int| k <= i < l.len() ==> knows_layer(x.r, #[trigger] l[i])
            &&& forall|i: int|
                st.r.simulcast.len() <= i < x.r.simulcast.len() ==> l.contains(
                    (#[trigger] x.r.simulcast[i]).0,
                )
        }),
    decreases l.len() - k,
{
    if k < l.len() {
        let next = ReceiverStep {
            r: st.r.with_layer(l[k]),
            acts: with_route(
                st.acts,
                match st.r.transport {
                    Some(t) => Some((t, RouteView::Rid(l[k]))),
                    None => None,
                },
            ),
        };
        let p = crate::receiver::with_rid(l[k]);
        crate::search::first_from_facts(st.r.simulcast, p, 0);
        layers_are_learned(next, l, k + 1);
        let x = layers_from(st, l, k);
        let n = next.r.simulcast;
        assert(forall|i: int|
            0 <= i < st.r.simulcast.len() ==> n[i].0 == (#[trigger] st.r.simulcast[i]).0);
        assert forall|i: int| 0 <= i < st.r.simulcast.len() implies i < x.r.simulcast.len()
            && x.r.simulcast[i].0 == (#[trigger] st.r.simulcast[i]).0 by {
            assert(n[i].0 == st.r.simulcast[i].0);
        }
        let at = match crate::search::first(st.r.simulcast, p) {
            Some(i) => i,
            None => st.r.simulcast.len() as int,
        };
        assert(n[at].0 == l[k]);
        assert(x.r.simulcast[at].0 == l[k]);
        assert(knows_layer(x.r, l[k]));
        assert forall|i: int| st.r.simulcast.len() <= i < x.r.simulcast.len() implies l.contains(
            (#[trigger] x.r.simulcast[i]).0,
        ) by {
            if i < n.len() {
                assert(x.r.simulcast[i].0 == n[i].0);
                assert(l[k] == n[i].0);
            }
        }
    }
}

/// A receiver has a simulcast layer.
pub open spec fn knows_layer(r: ReceiverView, name: Seq<char>) -> bool {
    exists|i: int| 0 <= i < r.simulcast.len() && (#[trigger] r.simulcast[i]).0 == name
}

/// An answer gives a transceiver the terms of its section, and its receiver the stream that the
/// section names; the application is told of the track once, and the transport of the stream.
pub proof fn answers_are_taken_over(st: Step, s: SectionView, transport: Option<u64>)
    ensures
        ({
            let x = answer_step(st, s, transport);
            &&& is_same_transceiver(st.t, x.t)
            &&& has_terms(x.t, st.t, s)
            &&& section_ssrc(s) matches Some(n) ==> {
                &&& x.t.receiver matches Some(r) ==> r.ssrc == n && r.track_event_sent
                &&& transport matches Some(y) ==> x.acts.last() == (ActionView::ExpectSsrc {
                    transport: y,
                    ssrc: n,
                })
                &&& st.t.receiver matches Some(r) ==> (!r.track_event_sent ==> x.acts.contains(
                    ActionView::Track { transceiver: st.t.id },
                ))
            }
            &&& section_ssrc(s) is None ==> (x.t.receiver matches Some(r) ==> r.ssrc
                == st.t.receiver->0.ssrc && r.track_event_sent == st.t.receiver->0.track_event_sent)
        }),
{
    let x = answer_step(st, s, transport);
    if let Some(n) = section_ssrc(s) {
        if let Some(r) = st.t.receiver {
            if !r.track_event_sent {
                let told = ActionView::Track { transceiver: st.t.id };
                let i = if transport is Some {
                    x.acts.len() - 2
                } else {
                    x.acts.len() - 1
                };
                assert(x.acts[i] == told);
            }
        }
    }
}

/// A re-offer, or its answer, gives a transceiver the terms of its section, and its receiver the
/// stream that the section names.
pub proof fn reinvites_are_taken_over(st: Step, s: SectionView)
    ensures
        ({
            let x = reinvite_step(st, s);
            &&& is_same_transceiver(st.t, x.t)
            &&& has_terms(x.t, st.t, s)
            &&& section_ssrc(s) matches Some(n) ==> (x.t.receiver matches Some(r) ==> r.ssrc == n)
            &&& section_ssrc(s) is None ==> (x.t.receiver matches Some(r) ==> r.ssrc
                == st.t.receiver->0.ssrc)
        }),
{
}

/// An offer gives a transceiver the terms of its section, and its receiver the stream, the
/// retransmissions and the simulcast layers that the section announces; the application is told of
/// the track of a transceiver that is newly matched.
pub proof fn offers_are_taken_over(st: Step, s: SectionView, info: StreamView, newly: bool)
    ensures
        ({
            let x = offer_step(st, s, info, newly);
            &&& is_same_transceiver(st.t, x.t)
            &&& has_terms(x.t, st.t, s)
            &&& info.ssrc matches Some(n) ==> {
                &&& x.t.receiver matches Some(r) ==> {
                    &&& r.ssrc == n
                    &&& info.rtx_ssrc matches Some(y) ==> r.rtx_ssrc == Some(y)
                    &&& info.rtx_ssrc is None ==> r.rtx_ssrc == st.t.receiver->0.rtx_ssrc
                    &&& apt_map(s.attributes).dom() != Set::<u8>::empty() ==> r.rtx_apt == apt_map(
                        s.attributes,
                    )
                    &&& newly ==> r.track_event_sent
                    &&& forall|i: int|
                        0 <= i < info.layers.len() ==> knows_layer(r, #[trigger] info.layers[i])
                }
                &&& newly ==> x.acts.last() == (ActionView::Track { transceiver: st.t.id })
            }
            &&& info.ssrc is None ==> (x.t.receiver matches Some(r) ==> r.ssrc
                == st.t.receiver->0.ssrc && r.simulcast == st.t.receiver->0.simulcast)
        }),
{
    let a = extmap_step(payload_step(st, s, false), extmap_of(s));
    if let (Some(n), Some(r)) = (info.ssrc, a.t.receiver) {
        layers_are_learned(
            rtx_step(
                ssrc_step(ReceiverStep { r, acts: a.acts }, n),
                info.rtx_ssrc,
                apt_map(s.attributes),
            ),
            info.layers,
            0,
        );
        let y = layers_from(
            rtx_step(
                ssrc_step(ReceiverStep { r, acts: a.acts }, n),
                info.rtx_ssrc,
                apt_map(s.attributes),
            ),
            info.layers,
            0,
        ).r;
        let z = offer_step(st, s, info, newly).t.receiver->0;
        assert(z.simulcast == y.simulcast);
        assert forall|i: int| 0 <= i < info.layers.len() implies knows_layer(
            z,
            #[trigger] info.layers[i],
        ) by {
            assert(knows_layer(y, info.layers[i]));
            let j = choose|j: int|
                0 <= j < y.simulcast.len() && (#[trigger] y.simulcast[j]).0 == info.layers[i];
            assert(z.simulcast[j].0 == info.layers[i]);
        }
    }
}

/// A transceiver that an offered section creates has the kind, the mid and the direction of the
/// section, wants both directions, and has a receiver of the stream, the retransmissions and the
/// layers that the section announces; the application is told of it where a stream is announced.
pub proof fn offers_create_what_they_announce(
    id: u64,
    s: SectionView,
    info: StreamView,
    nack: bool,
    transport: Option<u64>,
    acts: Seq<ActionView>,
)
    ensures
        ({
            let x = created_step(id, s, info, nack, transport, acts);
            let r = x.t.receiver->0;
            &&& x.t.id == id
            &&& x.t.kind == s.kind
            &&& x.t.mid == Some(s.mid)
            &&& x.t.transport == transport
            &&& x.t.direction.spec_sends() <==> s.direction.spec_sends()
            &&& x.t.direction.spec_receives() <==> s.direction.spec_receives()
            &&& x.t.desired == TransceiverDirection::SendRecv
            &&& x.t.sender is None && x.t.sender_ssrc is None
            &&& x.t.receiver is Some
            &&& r.kind == s.kind
            &&& r.transport == transport
            &&& r.ssrc == (match info.ssrc {
                Some(n) => n,
                None => 0,
            })
            &&& r.rtx_ssrc == info.rtx_ssrc
            &&& r.nacks.len() == (if nack {
                1nat
            } else {
                0nat
            })
            &&& forall|i: int|
                0 <= i < info.layers.len() ==> knows_layer(r, #[trigger] info.layers[i])
            &&& forall|i: int|
                0 <= i < r.simulcast.len() ==> info.layers.contains((#[trigger] r.simulcast[i]).0)
            &&& info.ssrc is Some ==> r.track_event_sent && x.acts.last() == (ActionView::Track {
                transceiver: id,
            })
            &&& info.ssrc is None ==> !r.track_event_sent
        }),
{
    let t = TransceiverView {
        desired: TransceiverDirection::SendRecv,
        mid: Some(s.mid),
        transport,
        ..fresh_transceiver(id, s.kind, transceiver_of(s.direction))
    };
    let r0 = fresh_receiver(
        shared_plan(
            s.kind,
            match info.ssrc {
                Some(n) => n,
                None => 0,
            },
            nack,
        ),
    );
    let a = rtx_step(ReceiverStep { r: r0, acts }, info.rtx_ssrc, apt_map(s.attributes));
    let b = match transport {
        Some(x) => receiver_moved(a.r, x, t, a.acts),
        None => a,
    };
    layers_are_learned(b, info.layers, 0);
}

/// A receiver that moves to a transport takes all of its routes there, in order, and nothing else
/// is asked for.
proof fn routes_are_asked_for(transport: u64, r: Seq<RouteView>, k: int, acc: Seq<ActionView>)
    requires
        0 <= k <= r.len(),
    ensures
        ({
            let x = routes_from(transport, r, k, acc);
            &&& x.len() == acc.len() + r.len() - k
            &&& forall|i: int| 0 <= i < acc.len() ==> #[trigger] x[i] == acc[i]
            &&& forall|i: int|
                acc.len() <= i < x.len() ==> #[trigger] x[i] == (ActionView::Route {
                    transport,
                    route: r[k + i - acc.len()],
                })
        }),
    decreases r.len() - k,
{
    if k < r.len() {
        let next = acc.push(ActionView::Route { transport, route: r[k] });
        routes_are_asked_for(transport, r, k + 1, next);
        let x = routes_from(transport, r, k, acc);
        assert forall|i: int| 0 <= i < acc.len() implies #[trigger] x[i] == acc[i] by {
            assert(x[i] == next[i]);
        }
        assert(x[acc.len() as int] == next[acc.len() as int]);
    }
}

/// A transceiver that is attached to a transport sends and receives there: a sender that comes from
/// elsewhere gets a new loop, a receiver that comes from elsewhere asks for its routes, and feedback
/// is sent in the name of the sender.
pub proof fn attached_media_moves(st: Step, transport: u64)
    ensures
        ({
            let x = attach_step(st, transport);
            &&& x.t.transport == Some(transport)
            &&& x.t.sender matches Some(s) ==> s.transport == Some(transport)
            &&& x.t.receiver matches Some(r) ==> r.transport == Some(transport)
            &&& x.t.receiver is Some && x.t.sender is Some ==> x.t.receiver->0.feedback_ssrc == Some(
                x.t.sender->0.ssrc,
            )
            &&& st.t.sender matches Some(s) ==> (s.transport != Some(transport)
                ==> x.acts.contains(
                ActionView::StartSendLoop {
                    transceiver: st.t.id,
                    generation: s.generation.wrapping_add(1),
                    last_source: None,
                },
            ) && x.t.sender->0.generation == s.generation.wrapping_add(1))
            &&& st.t.sender matches Some(s) ==> (s.transport == Some(transport)
                ==> x.t.sender->0.generation == s.generation)
            &&& st.t.receiver matches Some(r) ==> (r.transport != Some(transport)
                ==> forall|y: RouteView|
                x.t.receiver->0.initial_routes(Some(x.t.owner())).contains(y)
                    ==> #[trigger] x.acts.contains(ActionView::Route { transport, route: y }))
            &&& x.acts.len() >= st.acts.len()
            &&& forall|i: int| 0 <= i < st.acts.len() ==> #[trigger] x.acts[i] == st.acts[i]
        }),
{
    let t = TransceiverView { transport: Some(transport), ..st.t };
    let e = extmap_step(Step { t, acts: st.acts }, t.extmap);
    let a = match e.t.sender {
        Some(s) => if s.transport == Some(transport) {
            e
        } else {
            let generation = s.generation.wrapping_add(1);
            Step {
                t: TransceiverView {
                    sender: Some(SenderView { transport: Some(transport), generation, ..s }),
                    ..e.t
                },
                acts: e.acts.push(
                    ActionView::StartSendLoop {
                        transceiver: e.t.id,
                        generation,
                        last_source: None,
                    },
                ),
            }
        },
        None => e,
    };
    let x = attach_step(st, transport);
    let before = a.acts;
    routes_are_asked_for(transport, extension_routes(t.extmap), 0, st.acts);
    assert(forall|i: int| 0 <= i < st.acts.len() ==> #[trigger] before[i] == st.acts[i]);
    if let Some(s) = st.t.sender {
        if s.transport != Some(transport) {
            assert(before.last() == (ActionView::StartSendLoop {
                transceiver: st.t.id,
                generation: s.generation.wrapping_add(1),
                last_source: None,
            }));
        }
    }
    if let Some(r) = a.t.receiver {
        if r.transport != Some(transport) {
            let y = r.on_transport(transport, true);
            let routes = y.initial_routes(Some(a.t.owner()));
            routes_are_asked_for(transport, routes, 0, before);
            assert(x.acts == routes_from(transport, routes, 0, before));
            assert(x.t.receiver->0.initial_routes(Some(x.t.owner())) == routes);
            assert forall|z: RouteView| routes.contains(z) implies #[trigger] x.acts.contains(
                ActionView::Route { transport, route: z },
            ) by {
                let i = routes.index_of(z);
                assert(x.acts[before.len() + i] == (ActionView::Route { transport, route: z }));
            }
        } else {
            assert(x.acts == before);
        }
    } else {
        assert(x.acts == before);
    }
    if before.len() > 0 {
        assert(x.acts[before.len() - 1] == before.last());
    }
}

/// A transport reads the send time, the simulcast layer and the mid under the lowest identifiers
/// that header extensions give them.
pub proof fn transports_read_negotiated_extensions(m: Map<u8, Seq<char>>, id: u8)
    requires
        m.contains_key(id),
    ensures
        extension_routes(m).len() == 3,
        m[id] == "http://www.webrtc.org/experiments/rtp-hdrext/abs-send-time"@ && (forall|j: u8|
            j < id && #[trigger] m.contains_key(j) ==> m[j]
                != "http://www.webrtc.org/experiments/rtp-hdrext/abs-send-time"@)
            ==> extension_routes(m).contains(RouteView::AbsSendTimeExtension(Some(id))),
        crate::text::contains_text(m[id], "rtp-stream-id"@) && (forall|j: u8|
            j < id && #[trigger] m.contains_key(j) ==> !crate::text::contains_text(
                m[j],
                "rtp-stream-id"@,
            )) ==> extension_routes(m).contains(RouteView::RidExtension(Some(id))),
        m[id] == "urn:ietf:params:rtp-hdrext:sdes:mid"@ && (forall|j: u8|
            j < id && #[trigger] m.contains_key(j) ==> m[j]
                != "urn:ietf:params:rtp-hdrext:sdes:mid"@) ==> extension_routes(m).contains(
            RouteView::SdesMidExtension(Some(id)),
        ),
{
    let a = is_uri(abs_send_time_uri());
    let b = has_uri_part("rtp-stream-id"@);
    let c = is_uri(sdes_mid_uri());
    crate::codec::lowest_identifier_is_found(m, a, 0);
    crate::codec::lowest_identifier_is_found(m, b, 0);
    crate::codec::lowest_identifier_is_found(m, c, 0);
    let r = extension_routes(m);
    assert(r[0] == RouteView::AbsSendTimeExtension(id_from(m, a, 0)));
    assert(r[1] == RouteView::RidExtension(id_from(m, b, 0)));
    assert(r[2] == RouteView::SdesMidExtension(id_from(m, c, 0)));
    assert(a(m[id]) <==> m[id] == abs_send_time_uri());
    assert(b(m[id]) <==> crate::text::contains_text(m[id], "rtp-stream-id"@));
    assert(c(m[id]) <==> m[id] == sdes_mid_uri());
    if let Some(j) = id_from(m, a, 0) {
        assert(a(m[j]));
    }
    if let Some(j) = id_from(m, b, 0) {
        assert(b(m[j]));
    }
    if let Some(j) = id_from(m, c, 0) {
        assert(c(m[j]));
    }
}

/// An offered section tells the primary transport which identifiers it uses.
pub proof fn offers_tell_the_primary_transport(
    acts: Seq<ActionView>,
    info: StreamView,
    transport: u64,
)
    ensures
        ({
            let r = offer_extensions(acts, info, Some(transport));
            &&& info.rid_extension matches Some(id) ==> r.contains(
                ActionView::Route { transport, route: RouteView::RidExtension(Some(id)) },
            )
            &&& info.send_time_extension matches Some(id) ==> r.contains(
                ActionView::Route { transport, route: RouteView::AbsSendTimeExtension(Some(id)) },
            )
            &&& info.rid_extension is None && info.send_time_extension is None ==> r == acts
            &&& r.len() <= acts.len() + 2 && r.take(acts.len() as int) == acts
        }),
        offer_extensions(acts, info, None) == acts,
{
    let r = offer_extensions(acts, info, Some(transport));
    assert(r.take(acts.len() as int) =~= acts);
    if info.rid_extension is Some {
        assert(r[acts.len() as int] == (ActionView::Route {
            transport,
            route: RouteView::RidExtension(info.rid_extension),
        }));
    }
    if info.send_time_extension is Some {
        assert(r.last() == (ActionView::Route {
            transport,
            route: RouteView::AbsSendTimeExtension(info.send_time_extension),
        }));
    }
}

/// The codecs of a section reach the transceiver, a receiver that shares them and the transport
/// that it listens on, which takes exactly their payload types; a sender takes the codec that the
/// section leaves it. A section without codecs changes nothing.
pub proof fn codecs_are_taken_over(st: Step, s: SectionView, sync: bool, c: CodecView)
    ensures
        ({
            let m = payload_map_of(s);
            let x = payload_step(st, s, sync);
            &&& m.dom() == Set::<u8>::empty() ==> x == st
            &&& m.dom() != Set::<u8>::empty() ==> {
                &&& x.t.payload_map == m
                &&& st.t.receiver matches Some(r) ==> (x.t.receiver matches Some(n) && n.payload_map
                    == (if r.shares_map {
                    m
                } else {
                    r.payload_map
                }) && n.ssrc == r.ssrc && n.transport == r.transport)
                &&& st.t.sender matches Some(y) ==> (x.t.sender matches Some(z) && z.ssrc == y.ssrc
                    && z.next_seq == y.next_seq && (!sync ==> z.params == y.params) && (sync
                    && sender_codec(s.formats, m, y.params) == Some(c) ==> z.params.payload_type
                    == c.payload_type && (c.payload_type != y.params.payload_type ==> z.params
                    == c)) && (sync && sender_codec(s.formats, m, y.params) is None ==> z.params
                    == y.params))
                &&& st.t.transport matches Some(t) ==> (st.t.receiver is Some
                    && st.t.receiver->0.transport is Some ==> x.acts.len() == st.acts.len() + 1
                    && x.acts.last() == (ActionView::Route {
                    transport: t,
                    route: RouteView::PayloadTypes(types_from(Seq::empty(), m.dom(), 0)),
                }))
                &&& st.t.transport is None || st.t.receiver is None ==> x.acts == st.acts
            }
        }),
{
}

/// The payload types that a transport is given are those that were negotiated, each once.
pub proof fn payload_types_are_listed_once(m: Map<u8, CodecView>, t: u8)
    ensures
        types_from(Seq::empty(), m.dom(), 0).contains(t) <==> m.contains_key(t),
        types_from(Seq::empty(), m.dom(), 0).no_duplicates(),
{
    crate::receiver::types_are_added(Seq::empty(), m.dom(), 0, t);
}

} // verus!

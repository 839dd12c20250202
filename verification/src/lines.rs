//! Which lines a section never holds.

use crate::address::bundle_group;
use crate::address::has_bundle;
use crate::apt::merged_rtx_from;
use crate::apt::rtx_merged;
use crate::apt::stripped;
use crate::apt::with_rtx;
use crate::capability::audio_lines;
use crate::capability::configured;
use crate::capability::extension_lines;
use crate::capability::extension_step;
use crate::capability::feedback_from;
use crate::capability::populated;
use crate::capability::reinvite_audio;
use crate::capability::with_audio;
use crate::capability::with_audio_from;
use crate::capability::with_codecs;
use crate::capability::with_fmtp;
use crate::capability::with_video;
use crate::capability::with_video_from;
use crate::capability::ExtensionState;
use crate::capability::SectionTerms;
use crate::codec::CodecView;
use crate::config::AudioView;
use crate::config::ConfigView;
use crate::config::TransportMode;
use crate::config::VideoView;
use crate::describe::candidate_lines;
use crate::describe::described;
use crate::describe::ensure_mid;
use crate::describe::first_session;
use crate::describe::ice_lines;
use crate::describe::mids_from;
use crate::describe::plain_section;
use crate::describe::rtx_step;
use crate::describe::section_direction;
use crate::describe::sender_lines;
use crate::describe::sends_rtx;
use crate::describe::slot_step;
use crate::describe::slots_from;
use crate::describe::stream_lines;
use crate::describe::with_sender_lines;
use crate::describe::with_transport_lines;
use crate::describe::CandidateView;
use crate::describe::Draft;
use crate::describe::FreshView;
use crate::describe::InputView;
use crate::describe::LocalTransportView;
use crate::describe::MidState;
use crate::describe::RtxState;
use crate::describe::Slot;
use crate::describe::WriteContext;
use crate::describe::WriteState;
use crate::direction::TransceiverDirection;
use crate::sdp::attr;
use crate::sdp::flag;
use crate::sdp::without_keys;
use crate::sdp::AttributeView;
use crate::sdp::DescriptionView;
use crate::sdp::SdpType;
use crate::sdp::SectionView;
use crate::search::kept;
use crate::text::decimal;
use crate::text::starts_with;
use crate::transceiver::TransceiverView;
use vstd::prelude::*;

verus! {

/// No line has the key.
pub open spec fn lacks(a: Seq<AttributeView>, key: Seq<char>) -> bool {
    forall|i: int| 0 <= i < a.len() ==> (#[trigger] a[i]).key != key
}

/// A key that neither codecs nor header extensions nor senders use.
spec fn is_apart(key: Seq<char>) -> bool {
    &&& key != "rtcp-mux"@
    &&& key != "rtpmap"@
    &&& key != "fmtp"@
    &&& key != "rtcp-fb"@
    &&& key != "sctp-port"@
    &&& key != "extmap"@
    &&& key != "rtcp"@
    &&& key != "msid"@
    &&& key != "ssrc-group"@
    &&& key != "ssrc"@
}

/// A key that ICE does not use.
spec fn is_apart_from_ice(key: Seq<char>) -> bool {
    &&& key != "ice-ufrag"@
    &&& key != "ice-pwd"@
    &&& key != "ice-options"@
    &&& key != "candidate"@
    &&& key != "end-of-candidates"@
}

proof fn keys_are_apart()
    ensures
        is_apart("fingerprint"@) && is_apart_from_ice("fingerprint"@),
        is_apart("setup"@) && is_apart_from_ice("setup"@),
        is_apart("crypto"@) && is_apart_from_ice("crypto"@),
        is_apart("ice-ufrag"@),
        is_apart("ice-pwd"@),
        is_apart("candidate"@),
        "crypto"@ != "fingerprint"@,
        "crypto"@ != "setup"@,
        "crypto"@ != "ice-ufrag"@,
        "crypto"@ != "ice-pwd"@,
        "crypto"@ != "candidate"@,
{
    reveal_strlit("rtcp-mux");
    reveal_strlit("rtpmap");
    reveal_strlit("fmtp");
    reveal_strlit("rtcp-fb");
    reveal_strlit("sctp-port");
    reveal_strlit("extmap");
    reveal_strlit("rtcp");
    reveal_strlit("msid");
    reveal_strlit("ssrc-group");
    reveal_strlit("ssrc");
    reveal_strlit("ice-ufrag");
    reveal_strlit("ice-pwd");
    reveal_strlit("ice-options");
    reveal_strlit("candidate");
    reveal_strlit("end-of-candidates");
    reveal_strlit("fingerprint");
    reveal_strlit("setup");
    reveal_strlit("crypto");
    assert("rtcp-mux"@.len() == 8);
    assert("rtpmap"@.len() == 6 && "rtpmap"@[0] == 'r');
    assert("fmtp"@.len() == 4);
    assert("rtcp-fb"@.len() == 7 && "rtcp-fb"@[0] == 'r');
    assert("sctp-port"@.len() == 9 && "sctp-port"@[0] == 's');
    assert("extmap"@.len() == 6 && "extmap"@[0] == 'e');
    assert("rtcp"@.len() == 4);
    assert("msid"@.len() == 4);
    assert("ssrc-group"@.len() == 10);
    assert("ssrc"@.len() == 4);
    assert("ice-ufrag"@.len() == 9 && "ice-ufrag"@[0] == 'i');
    assert("ice-pwd"@.len() == 7 && "ice-pwd"@[0] == 'i');
    assert("ice-options"@.len() == 11 && "ice-options"@[0] == 'i');
    assert("candidate"@.len() == 9 && "candidate"@[0] == 'c');
    assert("end-of-candidates"@.len() == 17);
    assert("fingerprint"@.len() == 11 && "fingerprint"@[0] == 'f');
    assert("setup"@.len() == 5);
    assert("crypto"@.len() == 6 && "crypto"@[0] == 'c');
}

proof fn feedback_lacks(pt: u8, f: Seq<Seq<char>>, k: int, a: Seq<AttributeView>, key: Seq<char>)
    requires
        is_apart(key),
        lacks(a, key),
    ensures
        lacks(feedback_from(pt, f, k, a), key),
    decreases f.len() - k,
{
    if 0 <= k < f.len() {
        feedback_lacks(
            pt,
            f,
            k + 1,
            a.push(attr("rtcp-fb"@, crate::capability::typed(pt, f[k]))),
            key,
        );
    }
}

proof fn audio_lacks(c: Seq<AudioView>, k: int, s: SectionView, key: Seq<char>)
    requires
        is_apart(key),
        lacks(s.attributes, key),
    ensures
        lacks(with_audio_from(c, k, s).attributes, key),
    decreases c.len() - k,
{
    if 0 <= k < c.len() {
        let a = s.attributes.push(
            attr(
                "rtpmap"@,
                crate::capability::typed(
                    c[k].payload_type,
                    crate::capability::audio_encoding(c[k]),
                ),
            ),
        );
        let b = with_fmtp(c[k].payload_type, c[k].fmtp, a);
        assert(lacks(b, key));
        feedback_lacks(c[k].payload_type, c[k].rtcp_fbs, 0, b, key);
        audio_lacks(
            c,
            k + 1,
            SectionView {
                formats: s.formats.push(decimal(c[k].payload_type as nat)),
                attributes: audio_lines(c[k], s.attributes),
                ..s
            },
            key,
        );
    }
}

proof fn rtx_lacks(s: SectionView, primary: u8, rtx: u8, clock_rate: u32, key: Seq<char>)
    requires
        is_apart(key),
        lacks(s.attributes, key),
    ensures
        lacks(with_rtx(s, primary, rtx, clock_rate).attributes, key),
{
}

proof fn video_lacks(c: Seq<VideoView>, k: int, s: SectionView, key: Seq<char>)
    requires
        is_apart(key),
        lacks(s.attributes, key),
    ensures
        lacks(with_video_from(c, k, s).attributes, key),
    decreases c.len() - k,
{
    if 0 <= k < c.len() {
        let v = c[k];
        let a = s.attributes.push(
            attr(
                "rtpmap"@,
                crate::capability::typed(
                    v.payload_type,
                    crate::capability::encoding(v.codec_name, v.clock_rate),
                ),
            ),
        );
        let b = with_fmtp(v.payload_type, v.fmtp, a);
        assert(lacks(b, key));
        feedback_lacks(v.payload_type, v.rtcp_fbs, 0, b, key);
        let plain = SectionView {
            formats: s.formats.push(decimal(v.payload_type as nat)),
            attributes: feedback_from(v.payload_type, v.rtcp_fbs, 0, b),
            ..s
        };
        if let Some(rtx) = v.rtx_payload_type {
            rtx_lacks(plain, v.payload_type, rtx, v.clock_rate, key);
        }
        assert(lacks(with_video(v, s).attributes, key));
        video_lacks(c, k + 1, with_video(v, s), key);
    }
}

proof fn configured_lacks(s: SectionView, c: ConfigView, key: Seq<char>)
    requires
        is_apart(key),
        lacks(s.attributes, key),
    ensures
        lacks(configured(s, c).attributes, key),
{
    let muxed = SectionView {
        attributes: if c.offers_rtcp_mux() {
            s.attributes.push(flag("rtcp-mux"@))
        } else {
            s.attributes
        },
        ..s
    };
    assert(lacks(muxed.attributes, key));
    let m = SectionView { formats: Seq::empty(), ..muxed };
    audio_lacks(c.audio_codecs(), 0, m, key);
    video_lacks(c.video_codecs(), 0, m, key);
}

proof fn kept_lacks(a: Seq<AttributeView>, p: spec_fn(AttributeView) -> bool, key: Seq<char>)
    requires
        lacks(a, key),
    ensures
        lacks(kept(a, p), key),
{
    crate::search::kept_facts(a, p);
    let b = kept(a, p);
    assert forall|i: int| 0 <= i < b.len() implies (#[trigger] b[i]).key != key by {
        assert(b.contains(b[i]));
        assert(a.contains(b[i]));
        let j = choose|j: int| 0 <= j < a.len() && a[j] == b[i];
        assert(a[j].key != key);
    }
}

proof fn merged_lacks(
    f: Seq<Seq<char>>,
    offered: Map<u8, u8>,
    clocks: Map<u8, CodecView>,
    k: int,
    s: SectionView,
    key: Seq<char>,
)
    requires
        is_apart(key),
        lacks(s.attributes, key),
    ensures
        lacks(merged_rtx_from(f, offered, clocks, k, s).attributes, key),
    decreases f.len() - k,
{
    if 0 <= k < f.len() {
        if crate::apt::repaired(offered)(f[k]) {
            let pt = crate::codec::format_pt(f[k])->0;
            let rtx = crate::apt::rtx_from(offered, pt, 0)->0;
            let clock = crate::apt::clock_of(clocks, pt);
            rtx_lacks(s, pt, rtx, clock, key);
            merged_lacks(f, offered, clocks, k + 1, with_rtx(s, pt, rtx, clock), key);
        } else {
            merged_lacks(f, offered, clocks, k + 1, s, key);
        }
    }
}

proof fn codecs_lack(
    s: SectionView,
    sdp_type: SdpType,
    has_local: bool,
    remote: Option<DescriptionView>,
    c: ConfigView,
    key: Seq<char>,
)
    requires
        is_apart(key),
        lacks(s.attributes, key),
    ensures
        lacks(with_codecs(s, sdp_type, has_local, remote, c).attributes, key),
{
    configured_lacks(s, c, key);
    let a = configured(s, c);
    let found = reinvite_audio(a, sdp_type, has_local, remote, c.audio_codecs());
    if let Some(caps) = found {
        let cleared = without_keys(a.attributes, crate::capability::codec_keys());
        kept_lacks(
            a.attributes,
            crate::sdp::not_keyed(crate::capability::codec_keys()),
            key,
        );
        audio_lacks(
            caps,
            0,
            SectionView { formats: Seq::empty(), attributes: cleared, ..a },
            key,
        );
    }
    let b = match found {
        Some(caps) => with_audio(a, caps),
        None => a,
    };
    assert(lacks(b.attributes, key));
    kept_lacks(
        b.attributes,
        crate::apt::attribute_outside(crate::apt::rtx_types(b.attributes)),
        key,
    );
    let t = stripped(b);
    assert(lacks(t.attributes, key));
    if let Some(r) = crate::apt::answered_video(remote, t.mid) {
        merged_lacks(
            t.formats,
            crate::apt::apt_map(r.attributes),
            crate::codec::payload_map_of(r),
            0,
            t,
            key,
        );
    }
    assert(lacks(rtx_merged(t, remote).attributes, key));
}

proof fn extension_lacks(
    s: ExtensionState,
    remote: Option<Seq<char>>,
    offer: bool,
    preferred: u8,
    uri: Seq<char>,
    key: Seq<char>,
)
    requires
        is_apart(key),
        lacks(s.attributes, key),
    ensures
        lacks(extension_step(s, remote, offer, preferred, uri).attributes, key),
{
}

proof fn extensions_lack(
    s: SectionView,
    sdp_type: SdpType,
    remote: Option<DescriptionView>,
    c: ConfigView,
    key: Seq<char>,
)
    requires
        is_apart(key),
        lacks(s.attributes, key),
    ensures
        lacks(extension_lines(s, sdp_type, remote, c).attributes, key),
{
    assert forall|st: ExtensionState, r: Option<Seq<char>>, o: bool, p: u8, u: Seq<char>|
        lacks(st.attributes, key) implies lacks(
        (#[trigger] extension_step(st, r, o, p, u)).attributes,
        key,
    ) by {
        extension_lacks(st, r, o, p, u, key);
    }
}

proof fn populated_lacks(
    s: SectionView,
    terms: SectionTerms,
    remote: Option<DescriptionView>,
    c: ConfigView,
    fingerprint: Seq<char>,
    key: Seq<char>,
)
    requires
        is_apart(key),
        lacks(s.attributes, key),
        c.transport_mode == TransportMode::WebRtc ==> key != "fingerprint"@ && key != "setup"@,
    ensures
        lacks(populated(s, terms, remote, c, fingerprint).attributes, key),
{
    codecs_lack(s, terms.sdp_type, terms.has_local, remote, c, key);
    let a = with_codecs(s, terms.sdp_type, terms.has_local, remote, c);
    extensions_lack(a, terms.sdp_type, remote, c, key);
}

proof fn candidates_lack(
    c: Seq<CandidateView>,
    k: int,
    a: Seq<AttributeView>,
    key: Seq<char>,
)
    requires
        key != "candidate"@,
        lacks(a, key),
    ensures
        lacks(candidate_lines(c, k, a), key),
    decreases c.len() - k,
{
    if 0 <= k < c.len() {
        candidates_lack(c, k + 1, a.push(attr("candidate"@, c[k].line)), key);
    }
}

proof fn ice_lacks(t: LocalTransportView, trickle: bool, a: Seq<AttributeView>, key: Seq<char>)
    requires
        is_apart_from_ice(key),
        lacks(a, key),
    ensures
        lacks(ice_lines(t, trickle, a), key),
{
    let b = a.push(attr("ice-ufrag"@, t.ufrag)).push(attr("ice-pwd"@, t.pwd));
    let c = if trickle {
        b.push(attr("ice-options"@, "trickle"@))
    } else {
        b
    };
    assert(lacks(c, key));
    candidates_lack(t.candidates, 0, c, key);
}

proof fn sender_lacks(
    s: SectionView,
    t: TransceiverView,
    direction: TransceiverDirection,
    c: ConfigView,
    f: FreshView,
    rtx: Option<u32>,
    key: Seq<char>,
)
    requires
        is_apart(key),
        lacks(s.attributes, key),
    ensures
        lacks(with_sender_lines(s, t, direction, c, f, rtx).attributes, key),
{
    let a = s.attributes;
    let web = c.transport_mode == TransportMode::WebRtc;
    assert forall|ssrc: u32, cname: Seq<char>, stream: Seq<char>, track: Seq<char>| lacks(
        #[trigger] sender_lines(a, ssrc, cname, stream, track, c.transport_mode, rtx),
        key,
    ) by {
        let names = stream + " "@ + track;
        let b = if web {
            a.push(attr("msid"@, names))
        } else {
            a
        };
        assert(lacks(b, key));
        let g = match rtx {
            Some(x) => b.push(
                attr("ssrc-group"@, "FID "@ + decimal(ssrc as nat) + " "@ + decimal(x as nat)),
            ),
            None => b,
        };
        assert(lacks(g, key));
        let d = stream_lines(g, ssrc, cname, names, web);
        assert(lacks(d, key));
        if let Some(x) = rtx {
            assert(lacks(stream_lines(d, x, cname, names, web), key));
        }
    }
}

/// What a section holds beside its transport lines keeps a key out.
proof fn written_section_lacks(
    st: WriteState,
    slot: Slot,
    x: WriteContext,
    input: InputView,
    key: Seq<char>,
)
    requires
        is_apart(key),
        x.config.transport_mode == TransportMode::WebRtc ==> key != "fingerprint"@ && key
            != "setup"@,
        x.config.transport_mode == TransportMode::Srtp ==> key != "crypto"@,
        forall|d: Draft|
            lacks(d.section.attributes, key) ==> lacks(
                (#[trigger] with_transport_lines(
                    d,
                    x.config,
                    input.transport,
                    x.local_ip,
                )).section.attributes,
                key,
            ),
    ensures
        lacks(slot_step(st, slot, x, input).media.last().attributes, key),
{
    let i = slot.index as int;
    let m = ensure_mid(MidState { ts: st.ts, next: st.next_mid, acts: st.acts }, i);
    let t = m.ts[i];
    let mid = t.mid->0;
    let direction = section_direction(slot, t, x.sdp_type, x.remote, mid);
    let s0 = crate::sdp::fresh_section(t.kind, mid);
    let s1 = SectionView {
        direction: crate::direction::attribute_of(direction),
        protocol: crate::describe::protocol_of(x.config.transport_mode, s0),
        ..s0
    };
    let first = Draft { session: st.session, section: s1 };
    assert(lacks(first.section.attributes, key));
    let a = with_transport_lines(first, x.config, input.transport, x.local_ip);
    let terms = SectionTerms {
        sdp_type: x.sdp_type,
        has_local: x.has_local,
        dtls_role: x.role,
    };
    populated_lacks(a.section, terms, x.remote, x.config, x.fingerprint, key);
    let b = populated(a.section, terms, x.remote, x.config, x.fingerprint);
    kept_lacks(
        b.attributes,
        crate::sdp::not_keyed(seq!["rtcp-mux"@, "rtcp-mux"@, "rtcp-mux"@]),
        key,
    );
    let d = plain_section(st.session, slot, t, x, input.transport);
    assert(lacks(d.section.attributes, key));
    let sends = sends_rtx(d.section, direction);
    let r = if sends {
        rtx_step(RtxState { t, next_ssrc: st.next_ssrc }, d.section)
    } else {
        RtxState { t, next_ssrc: st.next_ssrc }
    };
    let rtx = if sends {
        r.t.sender_rtx_ssrc
    } else {
        None
    };
    sender_lacks(d.section, r.t, direction, x.config, input.fresh, rtx, key);
}

/// A direct connection offers no DTLS: no section that it writes has a fingerprint or a setup
/// line.
pub proof fn direct_sections_offer_no_dtls(
    st: WriteState,
    slot: Slot,
    x: WriteContext,
    input: InputView,
)
    requires
        x.config.is_direct(),
    ensures
        lacks(slot_step(st, slot, x, input).media.last().attributes, "fingerprint"@),
        lacks(slot_step(st, slot, x, input).media.last().attributes, "setup"@),
{
    keys_are_apart();
    assert forall|d: Draft, key: Seq<char>|
        is_apart_from_ice(key) && lacks(d.section.attributes, key) implies #[trigger] lacks(
        with_transport_lines(d, x.config, input.transport, x.local_ip).section.attributes,
        key,
    ) by {
        ice_lacks(input.transport, false, d.section.attributes, key);
    }
    written_section_lacks(st, slot, x, input, "fingerprint"@);
    written_section_lacks(st, slot, x, input, "setup"@);
}

/// Only a lite agent or WebRTC writes ICE lines: another direct connection writes neither
/// credentials nor candidates.
pub proof fn plain_sections_carry_no_ice(
    st: WriteState,
    slot: Slot,
    x: WriteContext,
    input: InputView,
)
    requires
        x.config.is_direct(),
        !(x.config.transport_mode == TransportMode::Rtp && x.config.enable_ice_lite),
    ensures
        lacks(slot_step(st, slot, x, input).media.last().attributes, "ice-ufrag"@),
        lacks(slot_step(st, slot, x, input).media.last().attributes, "ice-pwd"@),
        lacks(slot_step(st, slot, x, input).media.last().attributes, "candidate"@),
{
    keys_are_apart();
    written_section_lacks(st, slot, x, input, "ice-ufrag"@);
    written_section_lacks(st, slot, x, input, "ice-pwd"@);
    written_section_lacks(st, slot, x, input, "candidate"@);
}

/// Only SDES writes keys into a section.
pub proof fn keys_are_written_for_sdes_only(
    st: WriteState,
    slot: Slot,
    x: WriteContext,
    input: InputView,
)
    requires
        x.config.transport_mode != TransportMode::Srtp,
    ensures
        lacks(slot_step(st, slot, x, input).media.last().attributes, "crypto"@),
{
    keys_are_apart();
    assert forall|d: Draft| lacks(d.section.attributes, "crypto"@) implies lacks(
        (#[trigger] with_transport_lines(
            d,
            x.config,
            input.transport,
            x.local_ip,
        )).section.attributes,
        "crypto"@,
    ) by {
        ice_lacks(input.transport, true, d.section.attributes, "crypto"@);
        ice_lacks(input.transport, false, d.section.attributes, "crypto"@);
    }
    written_section_lacks(st, slot, x, input, "crypto"@);
}

proof fn group_key_is_apart()
    ensures
        "group"@ != "msid-semantic"@,
        "group"@ != "ice-lite"@,
{
    reveal_strlit("group");
    reveal_strlit("msid-semantic");
    reveal_strlit("ice-lite");
    assert("group"@.len() == 5);
    assert("msid-semantic"@.len() == 13);
    assert("ice-lite"@.len() == 8);
}

proof fn mids_come_after(m: Seq<SectionView>, k: int, text: Seq<char>)
    ensures
        starts_with(mids_from(m, k, text), text),
    decreases m.len() - k,
{
    if 0 <= k < m.len() {
        let next = text + " "@ + m[k].mid;
        mids_come_after(m, k + 1, next);
        let all = mids_from(m, k, text);
        assert(next.take(text.len() as int) =~= text);
        assert(all.take(text.len() as int) =~= all.take(next.len() as int).take(
            text.len() as int,
        ));
    } else {
        assert(text.take(text.len() as int) =~= text);
    }
}

proof fn sections_add_no_group(
    st: WriteState,
    slots: Seq<Slot>,
    x: WriteContext,
    ins: Seq<InputView>,
    k: int,
)
    requires
        0 <= k <= slots.len(),
        st.media.len() == k,
        lacks(st.session.attributes, "group"@),
    ensures
        lacks(slots_from(st, slots, x, ins, k).session.attributes, "group"@),
        slots_from(st, slots, x, ins, k).media.len() == slots.len(),
    decreases slots.len() - k,
{
    if k < slots.len() {
        group_key_is_apart();
        let next = slot_step(st, slots[k], x, ins[k]);
        assert(lacks(next.session.attributes, "group"@));
        sections_add_no_group(next, slots, x, ins, k + 1);
    }
}

/// A description forms a BUNDLE group exactly where its sections share a transport; so an answer
/// echoes the group that was offered, though it has a single section.
pub proof fn groups_are_written_as_planned(
    previous: Option<DescriptionView>,
    now: u64,
    st: WriteState,
    slots: Seq<Slot>,
    x: WriteContext,
    ins: Seq<InputView>,
    bundle: bool,
)
    requires
        st.session == first_session(previous, x.config, now, x.local_ip),
        st.media.len() == 0,
        slots.len() > 0,
    ensures
        has_bundle(described(st, slots, x, ins, bundle).0) <==> bundle,
{
    group_key_is_apart();
    assert(lacks(st.session.attributes, "group"@));
    sections_add_no_group(st, slots, x, ins, 0);
    let w = slots_from(st, slots, x, ins, 0);
    let d = described(st, slots, x, ins, bundle).0;
    let a = d.session.attributes;
    if bundle {
        let i = a.len() - 1;
        mids_come_after(w.media, 0, "BUNDLE"@);
        assert(bundle_group()(a[i]));
    } else {
        assert forall|i: int| 0 <= i < a.len() implies !bundle_group()(#[trigger] a[i]) by {
            assert(a[i].key != "group"@);
        }
    }
}

} // verus!

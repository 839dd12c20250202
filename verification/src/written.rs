//! What the lines of a section that is written say.

use crate::apt::merged_rtx_from;
use crate::apt::rtx_merged;
use crate::apt::stripped;
use crate::apt::with_rtx;
use crate::capability::audio_lines;
use crate::capability::configured;
use crate::capability::extension_lines;
use crate::capability::extension_step;
use crate::capability::feedback_from;
use crate::capability::populated;
use crate::capability::reinvite_audio;
use crate::capability::with_audio;
use crate::capability::with_audio_from;
use crate::capability::with_codecs;
use crate::capability::with_fmtp;
use crate::capability::with_video;
use crate::capability::with_video_from;
use crate::capability::ExtensionState;
use crate::capability::SectionTerms;
use crate::codec::CodecView;
use crate::config::AudioView;
use crate::config::ConfigView;
use crate::config::SdpCompatibilityMode;
use crate::config::TransportMode;
use crate::config::VideoView;
use crate::describe::candidate_lines;
use crate::describe::ensure_mid;
use crate::describe::ice_lines;
use crate::describe::plain_section;
use crate::describe::rtx_step;
use crate::describe::section_direction;
use crate::describe::sender_lines;
use crate::describe::sends_rtx;
use crate::describe::slot_step;
use crate::describe::stream_lines;
use crate::describe::with_address;
use crate::describe::with_sender_lines;
use crate::describe::with_transport_lines;
use crate::describe::CandidateView;
use crate::describe::Draft;
use crate::describe::FreshView;
use crate::describe::InputView;
use crate::describe::LocalTransportView;
use crate::describe::MidState;
use crate::describe::RtxState;
use crate::describe::Slot;
use crate::describe::WriteContext;
use crate::describe::WriteState;
use crate::direction::TransceiverDirection;
use crate::sdp::attr;
use crate::sdp::flag;
use crate::sdp::has_key;
use crate::sdp::keyed;
use crate::sdp::without_keys;
use crate::sdp::AttributeView;
use crate::sdp::DescriptionView;
use crate::sdp::MediaKind;
use crate::sdp::SdpType;
use crate::sdp::SectionView;
use crate::search::first;
use crate::search::kept;
use crate::search::kept_from;
use crate::text::decimal;
use crate::transceiver::TransceiverView;
use vstd::prelude::*;

verus! {

/// The values of the lines with a key, in order.
pub open spec fn values(a: Seq<AttributeView>, key: Seq<char>) -> Seq<Option<Seq<char>>>
    decreases a.len(),
{
    if a.len() == 0 {
        Seq::empty()
    } else {
        let rest = values(a.drop_last(), key);
        if a.last().key == key {
            rest.push(a.last().value)
        } else {
            rest
        }
    }
}

/// A line more is a value more under its key.
pub broadcast proof fn values_push(a: Seq<AttributeView>, x: AttributeView, key: Seq<char>)
    ensures
        #[trigger] values(a.push(x), key) == (if x.key == key {
            values(a, key).push(x.value)
        } else {
            values(a, key)
        }),
{
    assert(a.push(x).drop_last() =~= a);
}

/// The first line with a key has the first of the values, and there is none where there are no
/// values.
pub proof fn first_value_is_first(a: Seq<AttributeView>, key: Seq<char>)
    ensures
        first(a, keyed(key)) is Some <==> values(a, key).len() > 0,
        first(a, keyed(key)) matches Some(i) ==> 0 <= i < a.len() && a[i].key == key && a[i].value
            == values(a, key)[0],
        has_key(a, key) <==> values(a, key).len() > 0,
    decreases a.len(),
{
    crate::search::first_iff_any(a, keyed(key));
    crate::search::first_from_facts(a, keyed(key), 0);
    if a.len() > 0 {
        let b = a.drop_last();
        first_value_is_first(b, key);
        crate::search::first_from_facts(b, keyed(key), 0);
        let n = a.len() - 1;
        match (first(b, keyed(key)), first(a, keyed(key))) {
            (Some(i), Some(j)) => {
                assert(keyed(key)(a[i]));
                if j < i {
                    assert(keyed(key)(b[j]));
                }
                assert(i == j);
            },
            (Some(i), None) => {
                assert(keyed(key)(a[i]));
            },
            (None, Some(j)) => {
                if j < n {
                    assert(keyed(key)(b[j]));
                }
                assert(values(b, key).len() == 0);
            },
            (None, None) => {
                assert(!keyed(key)(a[n]));
            },
        }
    }
}

proof fn kept_from_keeps(
    a: Seq<AttributeView>,
    p: spec_fn(AttributeView) -> bool,
    k: int,
    acc: Seq<AttributeView>,
    key: Seq<char>,
)
    requires
        0 <= k <= a.len(),
        forall|x: AttributeView| x.key == key ==> #[trigger] p(x),
        values(acc, key) == values(a.take(k), key),
    ensures
        values(kept_from(a, p, k, acc), key) == values(a, key),
    decreases a.len() - k,
{
    broadcast use values_push;

    if k < a.len() {
        assert(a.take(k + 1) =~= a.take(k).push(a[k]));
        if p(a[k]) {
            kept_from_keeps(a, p, k + 1, acc.push(a[k]), key);
        } else {
            kept_from_keeps(a, p, k + 1, acc, key);
        }
    } else {
        assert(a.take(k) =~= a);
    }
}

/// Leaving out other lines keeps the values under a key.
pub proof fn kept_keeps(
    a: Seq<AttributeView>,
    p: spec_fn(AttributeView) -> bool,
    key: Seq<char>,
)
    requires
        forall|x: AttributeView| x.key == key ==> #[trigger] p(x),
    ensures
        values(kept(a, p), key) == values(a, key),
{
    assert(a.take(0) =~= Seq::<AttributeView>::empty());
    kept_from_keeps(a, p, 0, Seq::empty(), key);
}

spec fn is_no_codec_key(key: Seq<char>) -> bool {
    &&& key != "rtpmap"@
    &&& key != "fmtp"@
    &&& key != "rtcp-fb"@
    &&& key != "rtcp-mux"@
    &&& key != "sctp-port"@
}

spec fn is_no_dtls_key(key: Seq<char>) -> bool {
    key != "fingerprint"@ && key != "setup"@
}

spec fn is_no_sender_key(key: Seq<char>) -> bool {
    key != "msid"@ && key != "ssrc-group"@ && key != "ssrc"@
}

spec fn is_no_ice_key(key: Seq<char>) -> bool {
    &&& key != "ice-ufrag"@
    &&& key != "ice-pwd"@
    &&& key != "ice-options"@
    &&& key != "candidate"@
    &&& key != "end-of-candidates"@
}

spec fn is_no_other_key(key: Seq<char>) -> bool {
    key != "extmap"@ && key != "rtcp"@ && key != "crypto"@
}

proof fn keys_differ()
    ensures
        is_no_codec_key("ice-ufrag"@) && is_no_codec_key("ice-pwd"@) && is_no_codec_key(
            "ice-options"@,
        ) && is_no_codec_key("candidate"@) && is_no_codec_key("end-of-candidates"@),
        is_no_dtls_key("ice-ufrag"@) && is_no_dtls_key("ice-pwd"@) && is_no_dtls_key(
            "ice-options"@,
        ) && is_no_dtls_key("candidate"@) && is_no_dtls_key("end-of-candidates"@),
        is_no_sender_key("ice-ufrag"@) && is_no_sender_key("ice-pwd"@) && is_no_sender_key(
            "ice-options"@,
        ) && is_no_sender_key("candidate"@) && is_no_sender_key("end-of-candidates"@),
        is_no_other_key("ice-ufrag"@) && is_no_other_key("ice-pwd"@) && is_no_other_key(
            "ice-options"@,
        ) && is_no_other_key("candidate"@) && is_no_other_key("end-of-candidates"@),
        is_no_codec_key("fingerprint"@) && is_no_codec_key("setup"@),
        is_no_sender_key("fingerprint"@) && is_no_sender_key("setup"@),
        is_no_ice_key("fingerprint"@) && is_no_ice_key("setup"@),
        is_no_other_key("fingerprint"@) && is_no_other_key("setup"@),
        is_no_codec_key("msid"@) && is_no_codec_key("ssrc-group"@) && is_no_codec_key("ssrc"@),
        is_no_dtls_key("msid"@) && is_no_dtls_key("ssrc-group"@) && is_no_dtls_key("ssrc"@),
        is_no_ice_key("msid"@) && is_no_ice_key("ssrc-group"@) && is_no_ice_key("ssrc"@),
        is_no_other_key("msid"@) && is_no_other_key("ssrc-group"@) && is_no_other_key("ssrc"@),
        is_no_dtls_key("rtpmap"@) && is_no_dtls_key("fmtp"@) && is_no_dtls_key("rtcp-fb"@)
            && is_no_dtls_key("rtcp-mux"@) && is_no_dtls_key("sctp-port"@),
        is_no_sender_key("rtpmap"@) && is_no_sender_key("fmtp"@) && is_no_sender_key("rtcp-fb"@)
            && is_no_sender_key("rtcp-mux"@) && is_no_sender_key("sctp-port"@),
        is_no_ice_key("rtpmap"@) && is_no_ice_key("fmtp"@) && is_no_ice_key("rtcp-fb"@)
            && is_no_ice_key("rtcp-mux"@) && is_no_ice_key("sctp-port"@),
        is_no_other_key("rtpmap"@) && is_no_other_key("fmtp"@) && is_no_other_key("rtcp-fb"@)
            && is_no_other_key("rtcp-mux"@) && is_no_other_key("sctp-port"@),
        is_no_codec_key("rtcp"@) && is_no_dtls_key("rtcp"@) && is_no_sender_key("rtcp"@)
            && is_no_ice_key("rtcp"@),
        is_no_codec_key("crypto"@) && is_no_dtls_key("crypto"@) && is_no_sender_key("crypto"@)
            && is_no_ice_key("crypto"@),
        is_no_codec_key("extmap"@) && is_no_dtls_key("extmap"@) && is_no_sender_key("extmap"@)
            && is_no_ice_key("extmap"@),
        "ice-ufrag"@ != "ice-pwd"@,
        "ice-ufrag"@ != "ice-options"@,
        "ice-ufrag"@ != "candidate"@,
        "ice-ufrag"@ != "end-of-candidates"@,
        "ice-pwd"@ != "ice-options"@,
        "ice-pwd"@ != "candidate"@,
        "ice-pwd"@ != "end-of-candidates"@,
        "ice-options"@ != "candidate"@,
        "ice-options"@ != "end-of-candidates"@,
        "candidate"@ != "end-of-candidates"@,
        "fingerprint"@ != "setup"@,
        "msid"@ != "ssrc-group"@,
        "msid"@ != "ssrc"@,
        "ssrc"@ != "ssrc-group"@,
        "rtpmap"@ != "fmtp"@,
        "rtpmap"@ != "rtcp-fb"@,
        "rtpmap"@ != "rtcp-mux"@,
        "fmtp"@ != "rtcp-fb"@,
        "fmtp"@ != "rtcp-mux"@,
        "rtcp-fb"@ != "rtcp-mux"@,
        "rtcp"@ != "crypto"@,
        "rtcp"@ != "extmap"@,
        "crypto"@ != "extmap"@,
{
    reveal_strlit("rtcp-mux");
    reveal_strlit("rtpmap");
    reveal_strlit("fmtp");
    reveal_strlit("rtcp-fb");
    reveal_strlit("sctp-port");
    reveal_strlit("extmap");
    reveal_strlit("rtcp");
    reveal_strlit("msid");
    reveal_strlit("ssrc-group");
    reveal_strlit("ssrc");
    reveal_strlit("ice-ufrag");
    reveal_strlit("ice-pwd");
    reveal_strlit("ice-options");
    reveal_strlit("candidate");
    reveal_strlit("end-of-candidates");
    reveal_strlit("fingerprint");
    reveal_strlit("setup");
    reveal_strlit("crypto");
    assert("rtcp-mux"@.len() == 8);
    assert("rtpmap"@.len() == 6 && "rtpmap"@[0] == 'r');
    assert("fmtp"@.len() == 4 && "fmtp"@[0] == 'f');
    assert("rtcp-fb"@.len() == 7 && "rtcp-fb"@[0] == 'r');
    assert("sctp-port"@.len() == 9 && "sctp-port"@[0] == 's');
    assert("extmap"@.len() == 6 && "extmap"@[0] == 'e');
    assert("rtcp"@.len() == 4 && "rtcp"@[0] == 'r');
    assert("msid"@.len() == 4 && "msid"@[0] == 'm');
    assert("ssrc-group"@.len() == 10);
    assert("ssrc"@.len() == 4 && "ssrc"@[0] == 's');
    assert("ice-ufrag"@.len() == 9 && "ice-ufrag"@[0] == 'i');
    assert("ice-pwd"@.len() == 7 && "ice-pwd"@[0] == 'i');
    assert("ice-options"@.len() == 11 && "ice-options"@[0] == 'i');
    assert("candidate"@.len() == 9 && "candidate"@[0] == 'c');
    assert("end-of-candidates"@.len() == 17);
    assert("fingerprint"@.len() == 11 && "fingerprint"@[0] == 'f');
    assert("setup"@.len() == 5);
    assert("crypto"@.len() == 6 && "crypto"@[0] == 'c');
}

proof fn feedback_keeps(pt: u8, f: Seq<Seq<char>>, k: int, a: Seq<AttributeView>, key: Seq<char>)
    requires
        key != "rtcp-fb"@,
    ensures
        values(feedback_from(pt, f, k, a), key) == values(a, key),
    decreases f.len() - k,
{
    broadcast use values_push;

    if 0 <= k < f.len() {
        feedback_keeps(
            pt,
            f,
            k + 1,
            a.push(attr("rtcp-fb"@, crate::capability::typed(pt, f[k]))),
            key,
        );
    }
}

proof fn audio_keeps(c: Seq<AudioView>, k: int, s: SectionView, key: Seq<char>)
    requires
        is_no_codec_key(key),
    ensures
        values(with_audio_from(c, k, s).attributes, key) == values(s.attributes, key),
    decreases c.len() - k,
{
    broadcast use values_push;

    if 0 <= k < c.len() {
        let a = s.attributes.push(
            attr(
                "rtpmap"@,
                crate::capability::typed(
                    c[k].payload_type,
                    crate::capability::audio_encoding(c[k]),
                ),
            ),
        );
        let b = with_fmtp(c[k].payload_type, c[k].fmtp, a);
        feedback_keeps(c[k].payload_type, c[k].rtcp_fbs, 0, b, key);
        audio_keeps(
            c,
            k + 1,
            SectionView {
                formats: s.formats.push(decimal(c[k].payload_type as nat)),
                attributes: audio_lines(c[k], s.attributes),
                ..s
            },
            key,
        );
    }
}

proof fn rtx_keeps(s: SectionView, primary: u8, rtx: u8, clock_rate: u32, key: Seq<char>)
    requires
        is_no_codec_key(key),
    ensures
        values(with_rtx(s, primary, rtx, clock_rate).attributes, key) == values(s.attributes, key),
{
    broadcast use values_push;

}

proof fn video_keeps(c: Seq<VideoView>, k: int, s: SectionView, key: Seq<char>)
    requires
        is_no_codec_key(key),
    ensures
        values(with_video_from(c, k, s).attributes, key) == values(s.attributes, key),
    decreases c.len() - k,
{
    broadcast use values_push;

    if 0 <= k < c.len() {
        let v = c[k];
        let a = s.attributes.push(
            attr(
                "rtpmap"@,
                crate::capability::typed(
                    v.payload_type,
                    crate::capability::encoding(v.codec_name, v.clock_rate),
                ),
            ),
        );
        let b = with_fmtp(v.payload_type, v.fmtp, a);
        feedback_keeps(v.payload_type, v.rtcp_fbs, 0, b, key);
        let plain = SectionView {
            formats: s.formats.push(decimal(v.payload_type as nat)),
            attributes: feedback_from(v.payload_type, v.rtcp_fbs, 0, b),
            ..s
        };
        if let Some(rtx) = v.rtx_payload_type {
            rtx_keeps(plain, v.payload_type, rtx, v.clock_rate, key);
        }
        video_keeps(c, k + 1, with_video(v, s), key);
    }
}

proof fn merged_keeps(
    f: Seq<Seq<char>>,
    offered: Map<u8, u8>,
    clocks: Map<u8, CodecView>,
    k: int,
    s: SectionView,
    key: Seq<char>,
)
    requires
        is_no_codec_key(key),
    ensures
        values(merged_rtx_from(f, offered, clocks, k, s).attributes, key) == values(
            s.attributes,
            key,
        ),
    decreases f.len() - k,
{
    if 0 <= k < f.len() {
        if crate::apt::repaired(offered)(f[k]) {
            let pt = crate::codec::format_pt(f[k])->0;
            let rtx = crate::apt::rtx_from(offered, pt, 0)->0;
            let clock = crate::apt::clock_of(clocks, pt);
            rtx_keeps(s, pt, rtx, clock, key);
            merged_keeps(f, offered, clocks, k + 1, with_rtx(s, pt, rtx, clock), key);
        } else {
            merged_keeps(f, offered, clocks, k + 1, s, key);
        }
    }
}

proof fn codecs_keep(
    s: SectionView,
    sdp_type: SdpType,
    has_local: bool,
    remote: Option<DescriptionView>,
    c: ConfigView,
    key: Seq<char>,
)
    requires
        is_no_codec_key(key),
    ensures
        values(with_codecs(s, sdp_type, has_local, remote, c).attributes, key) == values(
            s.attributes,
            key,
        ),
{
    broadcast use values_push;

    let muxed = SectionView {
        attributes: if c.offers_rtcp_mux() {
            s.attributes.push(flag("rtcp-mux"@))
        } else {
            s.attributes
        },
        ..s
    };
    let m = SectionView { formats: Seq::empty(), ..muxed };
    audio_keeps(c.audio_codecs(), 0, m, key);
    video_keeps(c.video_codecs(), 0, m, key);
    let a = configured(s, c);
    assert(values(a.attributes, key) == values(s.attributes, key));
    let found = reinvite_audio(a, sdp_type, has_local, remote, c.audio_codecs());
    let keys = crate::capability::codec_keys();
    if let Some(caps) = found {
        let cleared = without_keys(a.attributes, keys);
        assert forall|x: AttributeView| x.key == key implies #[trigger] crate::sdp::not_keyed(keys)(
            x,
        ) by {
            if keys.contains(key) {
                let i = keys.index_of(key);
                assert(keys[i] == key);
            }
        }
        kept_keeps(a.attributes, crate::sdp::not_keyed(keys), key);
        audio_keeps(
            caps,
            0,
            SectionView { formats: Seq::empty(), attributes: cleared, ..a },
            key,
        );
    }
    let b = match found {
        Some(caps) => with_audio(a, caps),
        None => a,
    };
    let types = crate::apt::rtx_types(b.attributes);
    kept_keeps(b.attributes, crate::apt::attribute_outside(types), key);
    let t = stripped(b);
    if let Some(r) = crate::apt::answered_video(remote, t.mid) {
        merged_keeps(
            t.formats,
            crate::apt::apt_map(r.attributes),
            crate::codec::payload_map_of(r),
            0,
            t,
            key,
        );
    }
    assert(values(rtx_merged(t, remote).attributes, key) == values(s.attributes, key));
}

proof fn extensions_keep(
    s: SectionView,
    sdp_type: SdpType,
    remote: Option<DescriptionView>,
    c: ConfigView,
    key: Seq<char>,
)
    requires
        key != "extmap"@,
    ensures
        values(extension_lines(s, sdp_type, remote, c).attributes, key) == values(
            s.attributes,
            key,
        ),
{
    assert forall|st: ExtensionState, r: Option<Seq<char>>, o: bool, p: u8, u: Seq<char>| values(
        (#[trigger] extension_step(st, r, o, p, u)).attributes,
        key,
    ) == values(st.attributes, key) by {
        broadcast use values_push;

    }
}

proof fn populating_keeps(
    s: SectionView,
    terms: SectionTerms,
    remote: Option<DescriptionView>,
    c: ConfigView,
    fingerprint: Seq<char>,
    key: Seq<char>,
)
    requires
        is_no_codec_key(key),
        key != "extmap"@,
    ensures
        values(populated(s, terms, remote, c, fingerprint).attributes, key) == values(
            s.attributes,
            key,
        ) + (if c.transport_mode != TransportMode::WebRtc {
            seq![]
        } else if key == "fingerprint"@ {
            seq![Some("sha-256 "@ + fingerprint)]
        } else if key == "setup"@ {
            seq![
                Some(
                    crate::capability::setup_value(terms.sdp_type, terms.dtls_role),
                ),
            ]
        } else {
            seq![]
        }),
{
    broadcast use values_push;

    keys_differ();
    codecs_keep(s, terms.sdp_type, terms.has_local, remote, c, key);
    let a = with_codecs(s, terms.sdp_type, terms.has_local, remote, c);
    extensions_keep(a, terms.sdp_type, remote, c, key);
    let v = values(s.attributes, key);
    assert(values(populated(s, terms, remote, c, fingerprint).attributes, key) =~= v + (
    if c.transport_mode != TransportMode::WebRtc {
        seq![]
    } else if key == "fingerprint"@ {
        seq![Some("sha-256 "@ + fingerprint)]
    } else if key == "setup"@ {
        seq![Some(crate::capability::setup_value(terms.sdp_type, terms.dtls_role))]
    } else {
        seq![]
    }));
}

proof fn candidates_are_listed(c: Seq<CandidateView>, k: int, a: Seq<AttributeView>, key: Seq<char>)
    requires
        0 <= k <= c.len(),
    ensures
        values(candidate_lines(c, k, a), key) == values(a, key) + (if key == "candidate"@ {
            c.skip(k).map_values(|x: CandidateView| Some(x.line))
        } else {
            seq![]
        }),
    decreases c.len() - k,
{
    broadcast use values_push;

    let line = |x: CandidateView| Some(x.line);
    if k < c.len() {
        let next = a.push(attr("candidate"@, c[k].line));
        candidates_are_listed(c, k + 1, next, key);
        if key == "candidate"@ {
            assert(values(a, key).push(Some(c[k].line)) + c.skip(k + 1).map_values(line) =~= values(
                a,
                key,
            ) + c.skip(k).map_values(line));
        }
    } else if key == "candidate"@ {
        assert(values(a, key) + c.skip(k).map_values(line) =~= values(a, key));
    } else {
        assert(values(a, key) + seq![] =~= values(a, key));
    }
}

proof fn ice_keeps(t: LocalTransportView, trickle: bool, a: Seq<AttributeView>, key: Seq<char>)
    requires
        is_no_ice_key(key),
    ensures
        values(ice_lines(t, trickle, a), key) == values(a, key),
{
    broadcast use values_push;

    let b = a.push(attr("ice-ufrag"@, t.ufrag)).push(attr("ice-pwd"@, t.pwd));
    let c = if trickle {
        b.push(attr("ice-options"@, "trickle"@))
    } else {
        b
    };
    candidates_are_listed(t.candidates, 0, c, key);
    assert(values(candidate_lines(t.candidates, 0, c), key) =~= values(c, key));
}

/// The ICE lines of a section without any say who we are and where we can be reached: the username
/// fragment, the password and the candidates of the local transport, in order, each once.
proof fn ice_lines_say(t: LocalTransportView, trickle: bool, a: Seq<AttributeView>)
    requires
        values(a, "ice-ufrag"@).len() == 0,
        values(a, "ice-pwd"@).len() == 0,
        values(a, "ice-options"@).len() == 0,
        values(a, "candidate"@).len() == 0,
        values(a, "end-of-candidates"@).len() == 0,
    ensures
        values(ice_lines(t, trickle, a), "ice-ufrag"@) == seq![Some(t.ufrag)],
        values(ice_lines(t, trickle, a), "ice-pwd"@) == seq![Some(t.pwd)],
        values(ice_lines(t, trickle, a), "candidate"@) == t.candidates.map_values(
            |x: CandidateView| Some(x.line),
        ),
        values(ice_lines(t, trickle, a), "end-of-candidates"@) == (if t.complete {
            seq![None::<Seq<char>>]
        } else {
            seq![]
        }),
        values(ice_lines(t, trickle, a), "ice-options"@) == (if trickle {
            seq![Some("trickle"@)]
        } else {
            seq![]
        }),
{
    broadcast use values_push;

    keys_differ();
    let b = a.push(attr("ice-ufrag"@, t.ufrag)).push(attr("ice-pwd"@, t.pwd));
    let c = if trickle {
        b.push(attr("ice-options"@, "trickle"@))
    } else {
        b
    };
    candidates_are_listed(t.candidates, 0, c, "ice-ufrag"@);
    candidates_are_listed(t.candidates, 0, c, "ice-pwd"@);
    candidates_are_listed(t.candidates, 0, c, "ice-options"@);
    candidates_are_listed(t.candidates, 0, c, "candidate"@);
    candidates_are_listed(t.candidates, 0, c, "end-of-candidates"@);
    let l = ice_lines(t, trickle, a);
    assert(values(l, "ice-ufrag"@) =~= seq![Some(t.ufrag)]);
    assert(values(l, "ice-pwd"@) =~= seq![Some(t.pwd)]);
    assert(t.candidates.skip(0) =~= t.candidates);
    assert(values(l, "candidate"@) =~= t.candidates.map_values(|x: CandidateView| Some(x.line)));
    assert(values(l, "end-of-candidates"@) =~= if t.complete {
        seq![None::<Seq<char>>]
    } else {
        seq![]
    });
    assert(values(l, "ice-options"@) =~= if trickle {
        seq![Some("trickle"@)]
    } else {
        seq![]
    });
}

/// The lines that name a stream: its SSRC with the canonical name and, for WebRTC, with the stream
/// and the track; a retransmission stream has the same, and is grouped with the stream it repairs.
pub proof fn sender_lines_say(
    a: Seq<AttributeView>,
    ssrc: u32,
    cname: Seq<char>,
    stream_id: Seq<char>,
    track_id: Seq<char>,
    mode: TransportMode,
    rtx: Option<u32>,
    key: Seq<char>,
)
    ensures
        ({
            let l = sender_lines(a, ssrc, cname, stream_id, track_id, mode, rtx);
            let web = mode == TransportMode::WebRtc;
            let p = decimal(ssrc as nat);
            let r = decimal(rtx->0 as nat);
            let one = seq![Some(p + " cname:"@ + cname)] + (if web {
                seq![Some(p + " msid:"@ + (stream_id + " "@ + track_id))]
            } else {
                seq![]
            });
            let two = seq![Some(r + " cname:"@ + cname)] + (if web {
                seq![Some(r + " msid:"@ + (stream_id + " "@ + track_id))]
            } else {
                seq![]
            });
            &&& values(l, "ssrc"@) == values(a, "ssrc"@) + (if rtx is Some {
                one + two
            } else {
                one
            })
            &&& values(l, "msid"@) == values(a, "msid"@) + (if web {
                seq![Some(stream_id + " "@ + track_id)]
            } else {
                seq![]
            })
            &&& values(l, "ssrc-group"@) == values(a, "ssrc-group"@) + (if rtx is Some {
                seq![Some("FID "@ + p + " "@ + r)]
            } else {
                seq![]
            })
            &&& key != "msid"@ && key != "ssrc-group"@ && key != "ssrc"@ ==> values(l, key)
                == values(a, key)
        }),
{
    broadcast use values_push;

    keys_differ();
    let web = mode == TransportMode::WebRtc;
    let names = stream_id + " "@ + track_id;
    let l = sender_lines(a, ssrc, cname, stream_id, track_id, mode, rtx);
    let p = decimal(ssrc as nat);
    let r = decimal(rtx->0 as nat);
    let one = seq![Some(p + " cname:"@ + cname)] + (if web {
        seq![Some(p + " msid:"@ + names)]
    } else {
        seq![]
    });
    let two = seq![Some(r + " cname:"@ + cname)] + (if web {
        seq![Some(r + " msid:"@ + names)]
    } else {
        seq![]
    });
    assert(values(l, "ssrc"@) =~= values(a, "ssrc"@) + (if rtx is Some {
        one + two
    } else {
        one
    }));
    assert(values(l, "msid"@) =~= values(a, "msid"@) + (if web {
        seq![Some(names)]
    } else {
        seq![]
    }));
    assert(values(l, "ssrc-group"@) =~= values(a, "ssrc-group"@) + (if rtx is Some {
        seq![Some("FID "@ + p + " "@ + r)]
    } else {
        seq![]
    }));
}

/// The transceiver that a slot is written for, once it has a mid.
spec fn slot_transceiver(st: WriteState, slot: Slot) -> TransceiverView {
    let i = slot.index as int;
    ensure_mid(MidState { ts: st.ts, next: st.next_mid, acts: st.acts }, i).ts[i]
}

/// A section with its transport lines and nothing else.
spec fn transport_part(st: WriteState, slot: Slot, x: WriteContext, input: InputView) -> Draft {
    let t = slot_transceiver(st, slot);
    let mid = t.mid->0;
    let s0 = crate::sdp::fresh_section(t.kind, mid);
    let s1 = SectionView {
        direction: crate::direction::attribute_of(
            section_direction(slot, t, x.sdp_type, x.remote, mid),
        ),
        protocol: crate::describe::protocol_of(x.config.transport_mode, s0),
        ..s0
    };
    with_transport_lines(
        Draft { session: st.session, section: s1 },
        x.config,
        input.transport,
        x.local_ip,
    )
}

spec fn terms_of(x: WriteContext) -> SectionTerms {
    SectionTerms { sdp_type: x.sdp_type, has_local: x.has_local, dtls_role: x.role }
}

proof fn plain_section_keeps(
    st: WriteState,
    slot: Slot,
    x: WriteContext,
    input: InputView,
    key: Seq<char>,
)
    requires
        key != "rtcp-mux"@,
        key != "rtcp"@,
    ensures
        ({
            let t = slot_transceiver(st, slot);
            let a = transport_part(st, slot, x, input);
            values(
                plain_section(st.session, slot, t, x, input.transport).section.attributes,
                key,
            ) == values(
                populated(
                    a.section,
                    terms_of(x),
                    x.remote,
                    x.config,
                    x.fingerprint,
                ).attributes,
                key,
            )
        }),
{
    broadcast use values_push;

    let a = transport_part(st, slot, x, input);
    let b = populated(a.section, terms_of(x), x.remote, x.config, x.fingerprint);
    let keys = seq!["rtcp-mux"@, "rtcp-mux"@, "rtcp-mux"@];
    assert forall|y: AttributeView| y.key == key implies #[trigger] crate::sdp::not_keyed(keys)(
        y,
    ) by {
        if keys.contains(key) {
            let i = keys.index_of(key);
            assert(keys[i] == key);
        }
    }
    kept_keeps(b.attributes, crate::sdp::not_keyed(keys), key);
}

proof fn sending_keeps(
    s: SectionView,
    t: TransceiverView,
    direction: TransceiverDirection,
    c: ConfigView,
    f: FreshView,
    rtx: Option<u32>,
    key: Seq<char>,
)
    requires
        is_no_sender_key(key),
    ensures
        values(with_sender_lines(s, t, direction, c, f, rtx).attributes, key) == values(
            s.attributes,
            key,
        ),
{
    assert forall|ssrc: u32, cname: Seq<char>, stream: Seq<char>, track: Seq<char>| values(
        #[trigger] sender_lines(s.attributes, ssrc, cname, stream, track, c.transport_mode, rtx),
        key,
    ) == values(s.attributes, key) by {
        sender_lines_say(s.attributes, ssrc, cname, stream, track, c.transport_mode, rtx, key);
    }
}

proof fn section_keeps(
    st: WriteState,
    slot: Slot,
    x: WriteContext,
    input: InputView,
    key: Seq<char>,
)
    requires
        is_no_sender_key(key),
        key != "crypto"@,
    ensures
        values(slot_step(st, slot, x, input).media.last().attributes, key) == values(
            plain_section(
                st.session,
                slot,
                slot_transceiver(st, slot),
                x,
                input.transport,
            ).section.attributes,
            key,
        ),
{
    broadcast use values_push;

    let t = slot_transceiver(st, slot);
    let direction = section_direction(slot, t, x.sdp_type, x.remote, t.mid->0);
    let d = plain_section(st.session, slot, t, x, input.transport);
    let sends = sends_rtx(d.section, direction);
    let r = if sends {
        rtx_step(RtxState { t, next_ssrc: st.next_ssrc }, d.section)
    } else {
        RtxState { t, next_ssrc: st.next_ssrc }
    };
    let rtx = if sends {
        r.t.sender_rtx_ssrc
    } else {
        None
    };
    sending_keeps(d.section, r.t, direction, x.config, input.fresh, rtx, key);
}

proof fn transport_lines_pass(
    st: WriteState,
    slot: Slot,
    x: WriteContext,
    input: InputView,
    key: Seq<char>,
)
    requires
        is_no_codec_key(key),
        is_no_dtls_key(key),
        is_no_sender_key(key),
        is_no_other_key(key),
    ensures
        values(slot_step(st, slot, x, input).media.last().attributes, key) == values(
            transport_part(st, slot, x, input).section.attributes,
            key,
        ),
{
    let a = transport_part(st, slot, x, input);
    populating_keeps(a.section, terms_of(x), x.remote, x.config, x.fingerprint, key);
    plain_section_keeps(st, slot, x, input, key);
    section_keeps(st, slot, x, input, key);
    assert(values(a.section.attributes, key) + seq![] =~= values(a.section.attributes, key));
}

/// Where ICE runs, every section but a fax one says under which credentials and at which addresses
/// we can be checked: those of its local transport, in order, and nothing else.
pub proof fn sections_say_how_to_reach_us(
    st: WriteState,
    slot: Slot,
    x: WriteContext,
    input: InputView,
)
    requires
        x.config.transport_mode == TransportMode::WebRtc || (x.config.transport_mode
            == TransportMode::Rtp && x.config.enable_ice_lite && st.ts[slot.index as int].kind
            != MediaKind::Image),
        slot.index < st.ts.len(),
    ensures
        ({
            let a = slot_step(st, slot, x, input).media.last().attributes;
            &&& values(a, "ice-ufrag"@) == seq![Some(input.transport.ufrag)]
            &&& values(a, "ice-pwd"@) == seq![Some(input.transport.pwd)]
            &&& values(a, "candidate"@) == input.transport.candidates.map_values(
                |c: CandidateView| Some(c.line),
            )
            &&& values(a, "end-of-candidates"@) == (if input.transport.complete {
                seq![None::<Seq<char>>]
            } else {
                seq![]
            })
            &&& values(a, "ice-options"@) == (if x.config.transport_mode == TransportMode::WebRtc {
                seq![Some("trickle"@)]
            } else {
                seq![]
            })
        }),
{
    keys_differ();
    transport_lines_pass(st, slot, x, input, "ice-ufrag"@);
    transport_lines_pass(st, slot, x, input, "ice-pwd"@);
    transport_lines_pass(st, slot, x, input, "candidate"@);
    transport_lines_pass(st, slot, x, input, "end-of-candidates"@);
    transport_lines_pass(st, slot, x, input, "ice-options"@);
    let none = Seq::<AttributeView>::empty();
    ice_lines_say(input.transport, true, none);
    ice_lines_say(input.transport, false, none);
}

/// With WebRTC every section states the fingerprint of our certificate and our DTLS role: an offer
/// leaves the choice, an answer is active unless we were told to be passive. No other section
/// states either.
pub proof fn sections_say_who_we_are(
    st: WriteState,
    slot: Slot,
    x: WriteContext,
    input: InputView,
)
    ensures
        ({
            let a = slot_step(st, slot, x, input).media.last().attributes;
            &&& x.config.transport_mode == TransportMode::WebRtc ==> values(a, "fingerprint"@)
                == seq![Some("sha-256 "@ + x.fingerprint)]
            &&& x.config.transport_mode == TransportMode::WebRtc && x.sdp_type == SdpType::Offer
                ==> values(a, "setup"@) == seq![Some("actpass"@)]
            &&& x.config.transport_mode == TransportMode::WebRtc && x.sdp_type == SdpType::Answer
                && x.role == Some(false) ==> values(a, "setup"@) == seq![Some("passive"@)]
            &&& x.config.transport_mode == TransportMode::WebRtc && x.sdp_type == SdpType::Answer
                && x.role != Some(false) ==> values(a, "setup"@) == seq![Some("active"@)]
            &&& x.config.transport_mode != TransportMode::WebRtc ==> values(
                a,
                "fingerprint"@,
            ).len() == 0 && values(a, "setup"@).len() == 0
        }),
{
    broadcast use values_push;

    keys_differ();
    let p = transport_part(st, slot, x, input).section;
    let none = Seq::<AttributeView>::empty();
    ice_keeps(input.transport, true, none, "fingerprint"@);
    ice_keeps(input.transport, false, none, "fingerprint"@);
    ice_keeps(input.transport, true, none, "setup"@);
    ice_keeps(input.transport, false, none, "setup"@);
    assert(values(p.attributes, "fingerprint"@).len() == 0);
    assert(values(p.attributes, "setup"@).len() == 0);
    populating_keeps(p, terms_of(x), x.remote, x.config, x.fingerprint, "fingerprint"@);
    populating_keeps(p, terms_of(x), x.remote, x.config, x.fingerprint, "setup"@);
    plain_section_keeps(st, slot, x, input, "fingerprint"@);
    plain_section_keeps(st, slot, x, input, "setup"@);
    section_keeps(st, slot, x, input, "fingerprint"@);
    section_keeps(st, slot, x, input, "setup"@);
    let a = slot_step(st, slot, x, input).media.last().attributes;
    let web = x.config.transport_mode == TransportMode::WebRtc;
    assert(values(a, "fingerprint"@) =~= if web {
        seq![Some("sha-256 "@ + x.fingerprint)]
    } else {
        seq![]
    });
    assert(values(a, "setup"@) =~= if web {
        seq![Some(crate::capability::setup_value(x.sdp_type, x.role))]
    } else {
        seq![]
    });
}

/// A section that sends names its stream: that of the sender or, until there is one, the one that
/// is reserved. A section that does not send names none.
pub proof fn sections_name_what_they_send(
    st: WriteState,
    slot: Slot,
    x: WriteContext,
    input: InputView,
    cname: Seq<char>,
    stream_id: Seq<char>,
    track_id: Seq<char>,
    ssrc: u32,
)
    requires
        slot.index < st.ts.len(),
        match st.ts[slot.index as int].sender {
            Some(s) => s.ssrc == ssrc && s.cname == cname && s.stream_id == stream_id && s.track_id
                == track_id,
            None => st.ts[slot.index as int].sender_ssrc == Some(ssrc)
                && st.ts[slot.index as int].sender_stream_id == Some(stream_id)
                && st.ts[slot.index as int].sender_track_id == Some(track_id) && cname == (
            match x.config.cname {
                Some(c) => c,
                None => input.fresh.cname,
            }),
        },
    ensures
        ({
            let s = slot_step(st, slot, x, input).media.last();
            let after = slot_step(st, slot, x, input).ts[slot.index as int];
            let web = x.config.transport_mode == TransportMode::WebRtc;
            let p = decimal(ssrc as nat);
            let names = stream_id + " "@ + track_id;
            &&& !s.direction.spec_sends() ==> values(s.attributes, "ssrc"@).len() == 0 && values(
                s.attributes,
                "msid"@,
            ).len() == 0 && values(s.attributes, "ssrc-group"@).len() == 0
            &&& s.direction.spec_sends() ==> {
                let v = values(s.attributes, "ssrc"@);
                let g = values(s.attributes, "ssrc-group"@);
                &&& v.len() > 0 && v[0] == Some(p + " cname:"@ + cname)
                &&& web ==> v.len() > 1 && v[1] == Some(p + " msid:"@ + names)
                &&& values(s.attributes, "msid"@) == (if web {
                    seq![Some(names)]
                } else {
                    seq![]
                })
                &&& s.kind != MediaKind::Video ==> g.len() == 0 && v.len() == (if web {
                    2nat
                } else {
                    1nat
                })
                &&& g.len() > 0 ==> after.sender_rtx_ssrc is Some && g == seq![
                    Some(
                        "FID "@ + p + " "@ + decimal(after.sender_rtx_ssrc->0 as nat),
                    ),
                ] && v.len() == (if web {
                    4nat
                } else {
                    2nat
                }) && v[if web {
                    2
                } else {
                    1
                }] == Some(decimal(after.sender_rtx_ssrc->0 as nat) + " cname:"@ + cname)
            }
        }),
{
    broadcast use values_push;

    keys_differ();
    let i = slot.index as int;
    let t = slot_transceiver(st, slot);
    let direction = section_direction(slot, t, x.sdp_type, x.remote, t.mid->0);
    let d = plain_section(st.session, slot, t, x, input.transport);
    let sends = sends_rtx(d.section, direction);
    let r = if sends {
        rtx_step(RtxState { t, next_ssrc: st.next_ssrc }, d.section)
    } else {
        RtxState { t, next_ssrc: st.next_ssrc }
    };
    let rtx = if sends {
        r.t.sender_rtx_ssrc
    } else {
        None
    };
    let p = transport_part(st, slot, x, input).section;
    let none = Seq::<AttributeView>::empty();
    assert forall|key: Seq<char>|
        key == "ssrc"@ || key == "msid"@ || key == "ssrc-group"@ implies #[trigger] values(
        d.section.attributes,
        key,
    ).len() == 0 by {
        ice_keeps(input.transport, true, none, key);
        ice_keeps(input.transport, false, none, key);
        assert(values(p.attributes, key).len() == 0);
        populating_keeps(p, terms_of(x), x.remote, x.config, x.fingerprint, key);
        plain_section_keeps(st, slot, x, input, key);
    }
    let a = d.section.attributes;
    sender_lines_say(a, ssrc, cname, stream_id, track_id, x.config.transport_mode, rtx, "ssrc"@);
    let s = slot_step(st, slot, x, input).media.last();
    crate::describe::written_direction(st, slot, x, input);
    assert(values(a, "ssrc"@).len() == 0 && values(a, "msid"@).len() == 0 && values(
        a,
        "ssrc-group"@,
    ).len() == 0);
    if direction.spec_sends() {
        let l = sender_lines(
            a,
            ssrc,
            cname,
            stream_id,
            track_id,
            x.config.transport_mode,
            rtx,
        );
        assert(values(s.attributes, "ssrc"@) == values(l, "ssrc"@));
        assert(values(s.attributes, "msid"@) == values(l, "msid"@));
        assert(values(s.attributes, "ssrc-group"@) == values(l, "ssrc-group"@));
        assert(values(l, "msid"@) =~= if x.config.transport_mode == TransportMode::WebRtc {
            seq![Some(stream_id + " "@ + track_id)]
        } else {
            seq![]
        });
        if rtx is Some {
            assert(values(l, "ssrc-group"@) =~= seq![
                Some("FID "@ + decimal(ssrc as nat) + " "@ + decimal(rtx->0 as nat)),
            ]);
        }
    }
}

/// What an rtpmap line says of an audio codec: `<type> <name>/<rate>`, with `/<channels>` unless
/// there is one.
pub open spec fn audio_rtpmap(c: AudioView) -> Seq<char> {
    let plain = c.codec_name + "/"@ + decimal(c.clock_rate as nat);
    decimal(c.payload_type as nat) + " "@ + (if c.channels == 1 {
        plain
    } else {
        plain + "/"@ + decimal(c.channels as nat)
    })
}

proof fn audio_is_listed(c: Seq<AudioView>, k: int, s: SectionView)
    requires
        0 <= k <= c.len(),
    ensures
        with_audio_from(c, k, s).formats == s.formats + c.skip(k).map_values(
            |x: AudioView| decimal(x.payload_type as nat),
        ),
        values(with_audio_from(c, k, s).attributes, "rtpmap"@) == values(
            s.attributes,
            "rtpmap"@,
        ) + c.skip(k).map_values(|x: AudioView| Some(audio_rtpmap(x))),
    decreases c.len() - k,
{
    broadcast use values_push;

    keys_differ();
    let f = |x: AudioView| decimal(x.payload_type as nat);
    let g = |x: AudioView| Some(audio_rtpmap(x));
    let v = values(s.attributes, "rtpmap"@);
    if k < c.len() {
        let x = c[k];
        let a = s.attributes.push(
            attr(
                "rtpmap"@,
                crate::capability::typed(x.payload_type, crate::capability::audio_encoding(x)),
            ),
        );
        let b = with_fmtp(x.payload_type, x.fmtp, a);
        feedback_keeps(x.payload_type, x.rtcp_fbs, 0, b, "rtpmap"@);
        let next = SectionView {
            formats: s.formats.push(decimal(x.payload_type as nat)),
            attributes: audio_lines(x, s.attributes),
            ..s
        };
        audio_is_listed(c, k + 1, next);
        assert(crate::capability::typed(x.payload_type, crate::capability::audio_encoding(x))
            == audio_rtpmap(x));
        assert(next.formats + c.skip(k + 1).map_values(f) =~= s.formats + c.skip(k).map_values(f));
        assert(v.push(Some(audio_rtpmap(x))) + c.skip(k + 1).map_values(g) =~= v + c.skip(
            k,
        ).map_values(g));
    } else {
        assert(s.formats + c.skip(k).map_values(f) =~= s.formats);
        assert(v + c.skip(k).map_values(g) =~= v);
    }
}

proof fn kept_from_drops(
    a: Seq<AttributeView>,
    p: spec_fn(AttributeView) -> bool,
    k: int,
    acc: Seq<AttributeView>,
    key: Seq<char>,
)
    requires
        0 <= k <= a.len(),
        forall|x: AttributeView| x.key == key ==> !#[trigger] p(x),
        values(acc, key).len() == 0,
    ensures
        values(kept_from(a, p, k, acc), key).len() == 0,
    decreases a.len() - k,
{
    broadcast use values_push;

    if k < a.len() {
        if p(a[k]) {
            kept_from_drops(a, p, k + 1, acc.push(a[k]), key);
        } else {
            kept_from_drops(a, p, k + 1, acc, key);
        }
    }
}

/// The audio codecs that a section is written with: those of the offer that we share, in the answer
/// to a re-offer that leaves some; else ours.
pub open spec fn audio_written(s: SectionView, terms: SectionTerms, x: WriteContext) -> Seq<AudioView> {
    match reinvite_audio(s, terms.sdp_type, terms.has_local, x.remote, x.config.audio_codecs()) {
        Some(c) => c,
        None => x.config.audio_codecs(),
    }
}

proof fn audio_section_lists(s: SectionView, x: WriteContext)
    requires
        s.kind == MediaKind::Audio,
        values(s.attributes, "rtpmap"@).len() == 0,
    ensures
        ({
            let c = audio_written(s, terms_of(x), x);
            let r = with_codecs(s, x.sdp_type, x.has_local, x.remote, x.config);
            &&& r.formats == c.map_values(|y: AudioView| decimal(y.payload_type as nat))
            &&& values(r.attributes, "rtpmap"@) == c.map_values(
                |y: AudioView| Some(audio_rtpmap(y)),
            )
        }),
{
    broadcast use values_push;

    keys_differ();
    let f = |y: AudioView| decimal(y.payload_type as nat);
    let g = |y: AudioView| Some(audio_rtpmap(y));
    let own = x.config.audio_codecs();
    let muxed = SectionView {
        attributes: if x.config.offers_rtcp_mux() {
            s.attributes.push(flag("rtcp-mux"@))
        } else {
            s.attributes
        },
        ..s
    };
    let m = SectionView { formats: Seq::empty(), ..muxed };
    audio_is_listed(own, 0, m);
    crate::capability::audio_section_keeps_frame(s, x.config);
    let a = configured(s, x.config);
    assert(own.skip(0) =~= own);
    assert(a.formats =~= own.map_values(f));
    assert(values(a.attributes, "rtpmap"@) =~= own.map_values(g));
    let keys = crate::capability::codec_keys();
    if let Some(caps) = reinvite_audio(a, x.sdp_type, x.has_local, x.remote, own) {
        assert(keys[0] == "rtpmap"@);
        assert(keys.contains("rtpmap"@));
        kept_from_drops(
            a.attributes,
            crate::sdp::not_keyed(keys),
            0,
            Seq::empty(),
            "rtpmap"@,
        );
        let cleared = without_keys(a.attributes, keys);
        let blank = SectionView { formats: Seq::empty(), attributes: cleared, ..a };
        audio_is_listed(caps, 0, blank);
        assert(caps.skip(0) =~= caps);
        assert(with_audio(a, caps).formats =~= caps.map_values(f));
        assert(values(with_audio(a, caps).attributes, "rtpmap"@) =~= caps.map_values(g));
    }
}

proof fn extensions_keep_formats(
    s: SectionView,
    terms: SectionTerms,
    x: WriteContext,
)
    ensures
        populated(s, terms, x.remote, x.config, x.fingerprint).formats == with_codecs(
            s,
            terms.sdp_type,
            terms.has_local,
            x.remote,
            x.config,
        ).formats,
{
}

/// An audio section lists its codecs: a format for each, in order, and for each the line that names
/// it with its clock rate and its channels. These are ours; in the answer to a re-offer they are
/// those of the audio section that it answers, as far as they are ours.
pub proof fn audio_sections_list_their_codecs(
    st: WriteState,
    slot: Slot,
    x: WriteContext,
    input: InputView,
) -> (c: Seq<AudioView>)
    requires
        slot.index < st.ts.len(),
        st.ts[slot.index as int].kind == MediaKind::Audio,
    ensures
        ({
            let s = slot_step(st, slot, x, input).media.last();
            let ours = x.config.audio_codecs();
            &&& s.formats == c.map_values(|y: AudioView| decimal(y.payload_type as nat))
            &&& values(s.attributes, "rtpmap"@) == c.map_values(
                |y: AudioView| Some(audio_rtpmap(y)),
            )
            &&& x.sdp_type != SdpType::Answer || !x.has_local ==> c == ours
            &&& x.sdp_type == SdpType::Answer && x.has_local ==> (x.remote matches Some(d)
                ==> forall|k: int|
                0 <= k < d.media.len() && is_answered(d, s.mid, k) && (
                #[trigger] crate::capability::audio_answer(d.media[k], ours)).len() > 0 ==> c
                    == crate::capability::audio_answer(d.media[k], ours))
        }),
{
    keys_differ();
    let p = transport_part(st, slot, x, input).section;
    let none = Seq::<AttributeView>::empty();
    ice_keeps(input.transport, true, none, "rtpmap"@);
    ice_keeps(input.transport, false, none, "rtpmap"@);
    assert(values(none, "rtpmap"@).len() == 0);
    assert(values(p.attributes, "rtpmap"@).len() == 0);
    audio_section_lists(p, x);
    let c = audio_written(p, terms_of(x), x);
    let b = with_codecs(p, x.sdp_type, x.has_local, x.remote, x.config);
    extensions_keep(b, x.sdp_type, x.remote, x.config, "rtpmap"@);
    let q = populated(p, terms_of(x), x.remote, x.config, x.fingerprint);
    assert(values(q.attributes, "rtpmap"@) == values(b.attributes, "rtpmap"@)) by {
        broadcast use values_push;

    }
    plain_section_keeps(st, slot, x, input, "rtpmap"@);
    section_keeps(st, slot, x, input, "rtpmap"@);
    extensions_keep_formats(p, terms_of(x), x);
    let s = slot_step(st, slot, x, input).media.last();
    assert(s.formats == b.formats);
    crate::capability::populating_keeps_frame(
        p,
        terms_of(x),
        x.remote,
        x.config,
        x.fingerprint,
    );
    assert(s.mid == p.mid);
    if let Some(d) = x.remote {
        let by_mid = crate::capability::of_kind_with_mid(MediaKind::Audio, p.mid);
        let by_kind = crate::sdp::of_kind(MediaKind::Audio);
        crate::search::first_from_facts(d.media, by_mid, 0);
        crate::search::first_from_facts(d.media, by_kind, 0);
        assert forall|k: int| 0 <= k < d.media.len() && is_answered(d, s.mid, k) implies k
            == crate::capability::answered_audio_section(d, p.mid)->0 by {
            assert(by_kind(d.media[k]));
            if let Some(j) = first(d.media, by_mid) {
                assert(by_mid(d.media[j]));
                assert(by_kind(d.media[j]));
            }
        }
    }
    c
}

/// The audio section of a description that one of ours with a mid answers: the first one with that
/// mid; where there is none, or ours has no mid, the first one.
pub open spec fn is_answered(d: DescriptionView, mid: Seq<char>, k: int) -> bool {
    let named = mid.len() > 0 && exists|j: int|
        0 <= j < d.media.len() && (#[trigger] d.media[j]).kind == MediaKind::Audio && d.media[j].mid
            == mid;
    &&& d.media[k].kind == MediaKind::Audio
    &&& named ==> d.media[k].mid == mid
    &&& forall|j: int|
        0 <= j < k && (#[trigger] d.media[j]).kind == MediaKind::Audio ==> named && d.media[j].mid
            != mid
}

/// Some line with a key has a value.
pub open spec fn has_line(a: Seq<AttributeView>, key: Seq<char>, value: Seq<char>) -> bool {
    values(a, key).contains(Some(value))
}

proof fn pushed_line_is_there(a: Seq<AttributeView>, x: AttributeView, key: Seq<char>)
    ensures
        forall|v: Seq<char>| has_line(a, key, v) ==> #[trigger] has_line(a.push(x), key, v),
        x.key == key && x.value is Some ==> has_line(a.push(x), key, x.value->0),
        forall|v: Seq<char>| #[trigger]
            has_line(a.push(x), key, v) ==> has_line(a, key, v) || (x.key == key && x.value == Some(
                v,
            )),
{
    broadcast use values_push;

    let before = values(a, key);
    let after = values(a.push(x), key);
    assert forall|v: Seq<char>| has_line(a, key, v) implies #[trigger] has_line(
        a.push(x),
        key,
        v,
    ) by {
        let i = before.index_of(Some(v));
        assert(after[i] == Some(v));
    }
    if x.key == key && x.value is Some {
        assert(after[before.len() as int] == x.value);
    }
    assert forall|v: Seq<char>| #[trigger] has_line(a.push(x), key, v) implies has_line(a, key, v)
        || (x.key == key && x.value == Some(v)) by {
        let i = after.index_of(Some(v));
        if i < before.len() {
            assert(before[i] == Some(v));
        }
    }
}

proof fn feedback_is_listed(
    pt: u8,
    f: Seq<Seq<char>>,
    k: int,
    a: Seq<AttributeView>,
    key: Seq<char>,
    v: Seq<char>,
    j: int,
)
    requires
        0 <= k <= f.len(),
    ensures
        has_line(a, key, v) ==> has_line(feedback_from(pt, f, k, a), key, v),
        k <= j < f.len() ==> has_line(
            feedback_from(pt, f, k, a),
            "rtcp-fb"@,
            decimal(pt as nat) + " "@ + f[j],
        ),
    decreases f.len() - k,
{
    if k < f.len() {
        let x = attr("rtcp-fb"@, crate::capability::typed(pt, f[k]));
        pushed_line_is_there(a, x, key);
        pushed_line_is_there(a, x, "rtcp-fb"@);
        feedback_is_listed(pt, f, k + 1, a.push(x), key, v, j);
        feedback_is_listed(
            pt,
            f,
            k + 1,
            a.push(x),
            "rtcp-fb"@,
            decimal(pt as nat) + " "@ + f[k],
            j,
        );
    }
}

/// The lines of one codec: its rtpmap line, its parameters and its feedback, all under its payload
/// type, behind the lines that were there.
proof fn codec_is_described(
    pt: u8,
    encoding: Seq<char>,
    fmtp: Option<Seq<char>>,
    fbs: Seq<Seq<char>>,
    a: Seq<AttributeView>,
    key: Seq<char>,
    v: Seq<char>,
    j: int,
)
    ensures
        ({
            let l = feedback_from(
                pt,
                fbs,
                0,
                with_fmtp(
                    pt,
                    fmtp,
                    a.push(attr("rtpmap"@, crate::capability::typed(pt, encoding))),
                ),
            );
            let p = decimal(pt as nat);
            &&& has_line(l, "rtpmap"@, p + " "@ + encoding)
            &&& fmtp matches Some(f) ==> has_line(l, "fmtp"@, p + " "@ + f)
            &&& 0 <= j < fbs.len() ==> has_line(l, "rtcp-fb"@, p + " "@ + fbs[j])
            &&& has_line(a, key, v) ==> has_line(l, key, v)
        }),
{
    let p = decimal(pt as nat);
    let x = attr("rtpmap"@, crate::capability::typed(pt, encoding));
    let b = a.push(x);
    pushed_line_is_there(a, x, "rtpmap"@);
    pushed_line_is_there(a, x, key);
    let c = with_fmtp(pt, fmtp, b);
    if let Some(f) = fmtp {
        let y = attr("fmtp"@, crate::capability::typed(pt, f));
        pushed_line_is_there(b, y, "fmtp"@);
        pushed_line_is_there(b, y, "rtpmap"@);
        pushed_line_is_there(b, y, key);
        feedback_is_listed(pt, fbs, 0, c, "fmtp"@, p + " "@ + f, j);
    }
    feedback_is_listed(pt, fbs, 0, c, "rtpmap"@, p + " "@ + encoding, j);
    feedback_is_listed(pt, fbs, 0, c, key, v, j);
}

proof fn format_is_pushed(f: Seq<Seq<char>>, x: Seq<char>, y: Seq<char>)
    ensures
        f.push(x).contains(x),
        f.contains(y) ==> f.push(x).contains(y),
{
    assert(f.push(x)[f.len() as int] == x);
    if f.contains(y) {
        assert(f.push(x)[f.index_of(y)] == y);
    }
}

proof fn audio_is_described(
    c: Seq<AudioView>,
    k: int,
    s: SectionView,
    i: int,
    j: int,
    key: Seq<char>,
    v: Seq<char>,
)
    requires
        0 <= k <= c.len(),
    ensures
        ({
            let a = with_audio_from(c, k, s).attributes;
            &&& has_line(s.attributes, key, v) ==> has_line(a, key, v)
            &&& k <= i < c.len() ==> {
                let p = decimal(c[i].payload_type as nat);
                &&& c[i].fmtp matches Some(f) ==> has_line(a, "fmtp"@, p + " "@ + f)
                &&& 0 <= j < c[i].rtcp_fbs.len() ==> has_line(
                    a,
                    "rtcp-fb"@,
                    p + " "@ + c[i].rtcp_fbs[j],
                )
            }
        }),
    decreases c.len() - k,
{
    if k < c.len() {
        let x = c[k];
        let e = crate::capability::audio_encoding(x);
        let next = SectionView {
            formats: s.formats.push(decimal(x.payload_type as nat)),
            attributes: audio_lines(x, s.attributes),
            ..s
        };
        codec_is_described(x.payload_type, e, x.fmtp, x.rtcp_fbs, s.attributes, key, v, j);
        audio_is_described(c, k + 1, next, i, j, key, v);
        let p = decimal(x.payload_type as nat);
        if let Some(f) = x.fmtp {
            audio_is_described(c, k + 1, next, i, j, "fmtp"@, p + " "@ + f);
        }
        if 0 <= j < x.rtcp_fbs.len() {
            audio_is_described(c, k + 1, next, i, j, "rtcp-fb"@, p + " "@ + x.rtcp_fbs[j]);
        }
    }
}

/// The lines of a video codec, and of its retransmission type, stand in a section.
pub open spec fn describes_video(s: SectionView, c: VideoView, j: int) -> bool {
    let p = decimal(c.payload_type as nat);
    let rate = decimal(c.clock_rate as nat);
    &&& s.formats.contains(p)
    &&& has_line(s.attributes, "rtpmap"@, p + " "@ + (c.codec_name + "/"@ + rate))
    &&& c.fmtp matches Some(f) ==> has_line(s.attributes, "fmtp"@, p + " "@ + f)
    &&& 0 <= j < c.rtcp_fbs.len() ==> has_line(
        s.attributes,
        "rtcp-fb"@,
        p + " "@ + c.rtcp_fbs[j],
    )
    &&& c.rtx_payload_type matches Some(r) ==> s.formats.contains(decimal(r as nat)) && has_line(
        s.attributes,
        "rtpmap"@,
        decimal(r as nat) + " rtx/"@ + rate,
    ) && has_line(s.attributes, "fmtp"@, decimal(r as nat) + " apt="@ + p)
}

proof fn one_video_is_described(c: VideoView, s: SectionView, j: int, key: Seq<char>, v: Seq<char>, f: Seq<char>)
    ensures
        describes_video(with_video(c, s), c, j),
        has_line(s.attributes, key, v) ==> has_line(with_video(c, s).attributes, key, v),
        s.formats.contains(f) ==> with_video(c, s).formats.contains(f),
{
    let p = decimal(c.payload_type as nat);
    let rate = decimal(c.clock_rate as nat);
    let e = crate::capability::encoding(c.codec_name, c.clock_rate);
    codec_is_described(c.payload_type, e, c.fmtp, c.rtcp_fbs, s.attributes, key, v, j);
    format_is_pushed(s.formats, p, f);
    let plain = SectionView {
        formats: s.formats.push(p),
        attributes: feedback_from(
            c.payload_type,
            c.rtcp_fbs,
            0,
            with_fmtp(
                c.payload_type,
                c.fmtp,
                s.attributes.push(attr("rtpmap"@, crate::capability::typed(c.payload_type, e))),
            ),
        ),
        ..s
    };
    if let Some(r) = c.rtx_payload_type {
        let x = attr("rtpmap"@, decimal(r as nat) + " rtx/"@ + rate);
        let y = attr("fmtp"@, decimal(r as nat) + " apt="@ + p);
        let b = plain.attributes.push(x);
        assert forall|k: Seq<char>, w: Seq<char>| has_line(plain.attributes, k, w) implies has_line(
            #[trigger] b.push(y),
            k,
            w,
        ) by {
            pushed_line_is_there(plain.attributes, x, k);
            pushed_line_is_there(b, y, k);
            assert(has_line(b, k, w));
        }
        pushed_line_is_there(plain.attributes, x, "rtpmap"@);
        pushed_line_is_there(b, y, "rtpmap"@);
        pushed_line_is_there(b, y, "fmtp"@);
        format_is_pushed(plain.formats, decimal(r as nat), p);
        format_is_pushed(plain.formats, decimal(r as nat), f);
        let l = with_video(c, s).attributes;
        assert(l == b.push(y));
        assert(has_line(l, "rtpmap"@, p + " "@ + e));
        if let Some(g) = c.fmtp {
            assert(has_line(l, "fmtp"@, p + " "@ + g));
        }
        if 0 <= j < c.rtcp_fbs.len() {
            assert(has_line(l, "rtcp-fb"@, p + " "@ + c.rtcp_fbs[j]));
        }
        if has_line(s.attributes, key, v) {
            assert(has_line(l, key, v));
        }
        assert(has_line(l, "rtpmap"@, decimal(r as nat) + " rtx/"@ + rate));
    }
}

proof fn videos_are_described(c: Seq<VideoView>, k: int, s: SectionView, i: int, j: int, x: VideoView)
    requires
        0 <= k <= c.len(),
    ensures
        k <= i < c.len() ==> describes_video(with_video_from(c, k, s), c[i], j),
        describes_video(s, x, j) ==> describes_video(with_video_from(c, k, s), x, j),
    decreases c.len() - k,
{
    if k < c.len() {
        let t = with_video(c[k], s);
        assert forall|key: Seq<char>, v: Seq<char>| has_line(s.attributes, key, v) implies #[trigger] has_line(
            t.attributes,
            key,
            v,
        ) by {
            one_video_is_described(c[k], s, j, key, v, v);
        }
        assert forall|f: Seq<char>| s.formats.contains(f) implies #[trigger] t.formats.contains(f) by {
            one_video_is_described(c[k], s, j, f, f, f);
        }
        let none = Seq::<char>::empty();
        one_video_is_described(c[k], s, j, none, none, none);
        videos_are_described(c, k + 1, t, i, j, x);
        videos_are_described(c, k + 1, t, i, j, c[k]);
    }
}

proof fn other_lines_pass(
    st: WriteState,
    slot: Slot,
    x: WriteContext,
    input: InputView,
    key: Seq<char>,
)
    requires
        key == "rtpmap"@ || key == "fmtp"@ || key == "rtcp-fb"@ || key == "sctp-port"@,
    ensures
        ({
            let p = transport_part(st, slot, x, input).section;
            let s = slot_step(st, slot, x, input).media.last();
            let b = with_codecs(p, x.sdp_type, x.has_local, x.remote, x.config);
            &&& values(s.attributes, key) == values(b.attributes, key)
            &&& s.formats == b.formats
            &&& values(p.attributes, key).len() == 0
        }),
{
    keys_differ();
    let p = transport_part(st, slot, x, input).section;
    let none = Seq::<AttributeView>::empty();
    ice_keeps(input.transport, true, none, key);
    ice_keeps(input.transport, false, none, key);
    assert(values(none, key).len() == 0);
    let b = with_codecs(p, x.sdp_type, x.has_local, x.remote, x.config);
    extensions_keep(b, x.sdp_type, x.remote, x.config, key);
    let q = populated(p, terms_of(x), x.remote, x.config, x.fingerprint);
    assert(values(q.attributes, key) == values(b.attributes, key)) by {
        broadcast use values_push;

    }
    reveal_strlit("sctp-port");
    reveal_strlit("rtcp");
    reveal_strlit("rtcp-mux");
    assert("sctp-port"@.len() == 9 && "rtcp"@.len() == 4 && "rtcp-mux"@.len() == 8);
    plain_section_keeps(st, slot, x, input, key);
    section_keeps(st, slot, x, input, key);
    extensions_keep_formats(p, terms_of(x), x);
}

/// A video section of an offer describes each of our codecs: its format, its rtpmap line, its
/// parameters, its feedback and, where it has one, its retransmission type.
pub proof fn video_offers_describe_our_codecs(
    st: WriteState,
    slot: Slot,
    x: WriteContext,
    input: InputView,
    i: int,
    j: int,
)
    requires
        slot.index < st.ts.len(),
        st.ts[slot.index as int].kind == MediaKind::Video,
        x.sdp_type == SdpType::Offer,
        0 <= i < x.config.video_codecs().len(),
    ensures
        describes_video(
            slot_step(st, slot, x, input).media.last(),
            x.config.video_codecs()[i],
            j,
        ),
{
    let p = transport_part(st, slot, x, input).section;
    let muxed = SectionView {
        attributes: if x.config.offers_rtcp_mux() {
            p.attributes.push(flag("rtcp-mux"@))
        } else {
            p.attributes
        },
        ..p
    };
    let m = SectionView { formats: Seq::empty(), ..muxed };
    videos_are_described(x.config.video_codecs(), 0, m, i, j, x.config.video_codecs()[i]);
    other_lines_pass(st, slot, x, input, "rtpmap"@);
    other_lines_pass(st, slot, x, input, "fmtp"@);
    other_lines_pass(st, slot, x, input, "rtcp-fb"@);
}

/// An audio section with our codecs states the parameters and the feedback of each.
pub proof fn audio_sections_describe_our_codecs(
    st: WriteState,
    slot: Slot,
    x: WriteContext,
    input: InputView,
    i: int,
    j: int,
)
    requires
        slot.index < st.ts.len(),
        st.ts[slot.index as int].kind == MediaKind::Audio,
        x.sdp_type != SdpType::Answer || !x.has_local,
        0 <= i < x.config.audio_codecs().len(),
    ensures
        ({
            let a = slot_step(st, slot, x, input).media.last().attributes;
            let c = x.config.audio_codecs()[i];
            let p = decimal(c.payload_type as nat);
            &&& c.fmtp matches Some(f) ==> has_line(a, "fmtp"@, p + " "@ + f)
            &&& 0 <= j < c.rtcp_fbs.len() ==> has_line(
                a,
                "rtcp-fb"@,
                p + " "@ + c.rtcp_fbs[j],
            )
        }),
{
    let p = transport_part(st, slot, x, input).section;
    let muxed = SectionView {
        attributes: if x.config.offers_rtcp_mux() {
            p.attributes.push(flag("rtcp-mux"@))
        } else {
            p.attributes
        },
        ..p
    };
    let m = SectionView { formats: Seq::empty(), ..muxed };
    let none = Seq::<char>::empty();
    audio_is_described(x.config.audio_codecs(), 0, m, i, j, none, none);
    other_lines_pass(st, slot, x, input, "fmtp"@);
    other_lines_pass(st, slot, x, input, "rtcp-fb"@);
}

/// A data section names the protocol of data channels and the SCTP port that is configured, 5000
/// where none is.
pub proof fn data_sections_name_the_port(
    st: WriteState,
    slot: Slot,
    x: WriteContext,
    input: InputView,
)
    requires
        slot.index < st.ts.len(),
        st.ts[slot.index as int].kind == MediaKind::Application,
    ensures
        ({
            let s = slot_step(st, slot, x, input).media.last();
            let port = match x.config.media_capabilities {
                Some(c) => match c.application {
                    Some(a) => a.sctp_port,
                    None => 5000,
                },
                None => 5000,
            };
            &&& s.formats == seq!["webrtc-datachannel"@]
            &&& values(s.attributes, "sctp-port"@) == seq![Some(decimal(port as nat))]
        }),
{
    broadcast use values_push;

    other_lines_pass(st, slot, x, input, "sctp-port"@);
    let p = transport_part(st, slot, x, input).section;
    let s = slot_step(st, slot, x, input).media.last();
    let none = values(p.attributes, "sctp-port"@);
    assert(none.push(Some(decimal(x.config.sctp_port() as nat))) =~= seq![
        Some(decimal(x.config.sctp_port() as nat)),
    ]);
}

/// Two sections agree on where they are reached.
spec fn same_place(a: SectionView, b: SectionView) -> bool {
    a.port == b.port && a.protocol == b.protocol && a.connection == b.connection
}

proof fn audio_keeps_place(c: Seq<AudioView>, k: int, s: SectionView)
    ensures
        same_place(with_audio_from(c, k, s), s),
    decreases c.len() - k,
{
    if 0 <= k < c.len() {
        audio_keeps_place(
            c,
            k + 1,
            SectionView {
                formats: s.formats.push(decimal(c[k].payload_type as nat)),
                attributes: audio_lines(c[k], s.attributes),
                ..s
            },
        );
    }
}

proof fn video_keeps_place(c: Seq<VideoView>, k: int, s: SectionView)
    ensures
        same_place(with_video_from(c, k, s), s),
    decreases c.len() - k,
{
    if 0 <= k < c.len() {
        video_keeps_place(c, k + 1, with_video(c[k], s));
    }
}

proof fn merging_keeps_place(
    f: Seq<Seq<char>>,
    offered: Map<u8, u8>,
    clocks: Map<u8, CodecView>,
    k: int,
    s: SectionView,
)
    ensures
        same_place(merged_rtx_from(f, offered, clocks, k, s), s),
    decreases f.len() - k,
{
    if 0 <= k < f.len() {
        if crate::apt::repaired(offered)(f[k]) {
            let pt = crate::codec::format_pt(f[k])->0;
            let rtx = crate::apt::rtx_from(offered, pt, 0)->0;
            let clock = crate::apt::clock_of(clocks, pt);
            merging_keeps_place(f, offered, clocks, k + 1, with_rtx(s, pt, rtx, clock));
        } else {
            merging_keeps_place(f, offered, clocks, k + 1, s);
        }
    }
}

proof fn codecs_keep_place(
    s: SectionView,
    sdp_type: SdpType,
    has_local: bool,
    remote: Option<DescriptionView>,
    c: ConfigView,
)
    ensures
        same_place(with_codecs(s, sdp_type, has_local, remote, c), s),
{
    let muxed = SectionView {
        attributes: if c.offers_rtcp_mux() {
            s.attributes.push(flag("rtcp-mux"@))
        } else {
            s.attributes
        },
        ..s
    };
    let m = SectionView { formats: Seq::empty(), ..muxed };
    audio_keeps_place(c.audio_codecs(), 0, m);
    video_keeps_place(c.video_codecs(), 0, m);
    let a = configured(s, c);
    let found = reinvite_audio(a, sdp_type, has_local, remote, c.audio_codecs());
    if let Some(caps) = found {
        let cleared = without_keys(a.attributes, crate::capability::codec_keys());
        audio_keeps_place(
            caps,
            0,
            SectionView { formats: Seq::empty(), attributes: cleared, ..a },
        );
    }
    let b = match found {
        Some(caps) => with_audio(a, caps),
        None => a,
    };
    let t = stripped(b);
    if let Some(r) = crate::apt::answered_video(remote, t.mid) {
        merging_keeps_place(
            t.formats,
            crate::apt::apt_map(r.attributes),
            crate::codec::payload_map_of(r),
            0,
            t,
        );
    }
}

proof fn place_is_written(st: WriteState, slot: Slot, x: WriteContext, input: InputView)
    ensures
        same_place(
            slot_step(st, slot, x, input).media.last(),
            transport_part(st, slot, x, input).section,
        ),
        slot_step(st, slot, x, input).session == transport_part(st, slot, x, input).session,
{
    let p = transport_part(st, slot, x, input).section;
    codecs_keep_place(p, x.sdp_type, x.has_local, x.remote, x.config);
}

/// A candidate is the one to send media to: the first for RTP that other hosts reach, else the
/// first for RTP.
pub open spec fn is_for_media(c: Seq<CandidateView>, k: int) -> bool {
    &&& 0 <= k < c.len()
    &&& c[k].component == 1
    &&& c[k].loopback ==> forall|j: int|
        0 <= j < c.len() && (#[trigger] c[j]).component == 1 ==> c[j].loopback
    &&& forall|j: int| 0 <= j < k && (#[trigger] c[j]).component == 1 ==> c[j].loopback
        && !c[k].loopback
}

/// Without ICE a section says where we take media: at the port of the candidate for media, and at
/// its host, in a connection line of its own or of the session.
pub proof fn direct_sections_say_where_we_are(
    st: WriteState,
    slot: Slot,
    x: WriteContext,
    input: InputView,
    k: int,
)
    requires
        slot.index < st.ts.len(),
        x.config.transport_mode == TransportMode::Rtp || x.config.transport_mode
            == TransportMode::Srtp,
        st.ts[slot.index as int].kind != MediaKind::Image,
        is_for_media(input.transport.candidates, k),
    ensures
        ({
            let s = slot_step(st, slot, x, input).media.last();
            let session = slot_step(st, slot, x, input).session;
            let c = input.transport.candidates[k];
            &&& s.port == c.port
            &&& (match s.connection {
                Some(l) => Some(l),
                None => session.connection,
            }) == Some("IN IP4 "@ + c.ip)
            &&& st.session.connection matches Some(l) ==> session.connection == Some(l)
        }),
{
    place_is_written(st, slot, x, input);
    let c = input.transport.candidates;
    let near = crate::describe::reachable();
    let any = crate::describe::for_rtp();
    crate::search::first_from_facts(c, near, 0);
    crate::search::first_from_facts(c, any, 0);
    match first(c, near) {
        Some(i) => {
            assert(near(c[i]));
            if i < k {
                assert(c[i].component == 1 && !c[i].loopback);
            } else if k < i {
                assert(!near(c[k]));
                assert(c[i].loopback);
            }
            assert(i == k);
        },
        None => {
            assert(!near(c[k]));
            assert(c[k].loopback);
            assert(any(c[k]));
            let i = first(c, any)->0;
            if i < k {
                assert(any(c[i]));
                assert(c[i].component == 1);
            }
            assert(i == k);
        },
    }
    assert(crate::describe::chosen_candidate(c) == Some(k));
}

/// A section names its protocol: plain RTP, SRTP with keys in the description, or DTLS; data and
/// fax have their own.
pub proof fn sections_name_their_protocol(
    st: WriteState,
    slot: Slot,
    x: WriteContext,
    input: InputView,
)
    requires
        slot.index < st.ts.len(),
    ensures
        ({
            let s = slot_step(st, slot, x, input).media.last();
            let kind = st.ts[slot.index as int].kind;
            let media = kind == MediaKind::Audio || kind == MediaKind::Video;
            &&& media && x.config.transport_mode == TransportMode::Rtp ==> s.protocol
                == "RTP/AVP"@
            &&& media && x.config.transport_mode == TransportMode::Srtp ==> s.protocol
                == "RTP/SAVP"@
            &&& media && x.config.transport_mode == TransportMode::WebRtc ==> s.protocol
                == "UDP/TLS/RTP/SAVPF"@
            &&& kind == MediaKind::Application ==> s.protocol == "UDP/DTLS/SCTP"@
            &&& kind == MediaKind::Image ==> s.protocol == "udptl"@
            &&& x.config.transport_mode == TransportMode::WebRtc ==> s.connection == Some(
                "IN IP4 "@ + "0.0.0.0"@,
            ) && s.port == 9
            &&& kind == MediaKind::Image && x.config.transport_mode != TransportMode::WebRtc
                ==> s.port == input.transport.fax_port && s.connection == Some(
                "IN IP4 "@ + (match x.config.external_ip {
                    Some(ip) => ip,
                    None => match x.local_ip {
                        Some(ip) => ip,
                        None => "127.0.0.1"@,
                    },
                }),
            )
        }),
{
    place_is_written(st, slot, x, input);
}

/// A media section of an offer shares a port between RTP and RTCP exactly where that is required
/// and the other side is no legacy peer; in an answer, moreover only where it was offered. Where it
/// does not, on plain RTP, it names the port of RTCP.
pub proof fn sections_say_where_rtcp_goes(
    st: WriteState,
    slot: Slot,
    x: WriteContext,
    input: InputView,
)
    requires
        slot.index < st.ts.len(),
        st.ts[slot.index as int].kind == MediaKind::Audio || st.ts[slot.index as int].kind
            == MediaKind::Video,
    ensures
        ({
            let a = slot_step(st, slot, x, input).media.last().attributes;
            let muxes = x.config.rtcp_mux_policy is Require && x.config.sdp_compatibility
                != SdpCompatibilityMode::LegacySip && (x.sdp_type != SdpType::Answer
                || slot.muxed);
            &&& values(a, "rtcp-mux"@) == (if muxes {
                seq![None::<Seq<char>>]
            } else {
                seq![]
            })
            &&& values(a, "rtcp"@) == (if x.config.transport_mode == TransportMode::Rtp && !muxes
                && input.transport.rtcp_port is Some {
                seq![Some(decimal(input.transport.rtcp_port->0 as nat))]
            } else {
                seq![]
            })
        }),
{
    broadcast use values_push;

    keys_differ();
    let mux = "rtcp-mux"@;
    let p = transport_part(st, slot, x, input).section;
    let none = Seq::<AttributeView>::empty();
    ice_keeps(input.transport, true, none, mux);
    ice_keeps(input.transport, false, none, mux);
    ice_keeps(input.transport, true, none, "rtcp"@);
    ice_keeps(input.transport, false, none, "rtcp"@);
    assert(values(none, mux).len() == 0);
    assert(values(none, "rtcp"@).len() == 0);
    assert(values(p.attributes, mux).len() == 0);
    assert(values(p.attributes, "rtcp"@).len() == 0);
    mux_is_listed(p, x);
    let b = with_codecs(p, x.sdp_type, x.has_local, x.remote, x.config);
    extensions_keep(b, x.sdp_type, x.remote, x.config, mux);
    let q = populated(p, terms_of(x), x.remote, x.config, x.fingerprint);
    assert(values(q.attributes, mux) == values(b.attributes, mux));
    populating_keeps(p, terms_of(x), x.remote, x.config, x.fingerprint, "rtcp"@);
    let keys = seq![mux, mux, mux];
    assert(keys[0] == mux);
    assert(keys.contains(mux));
    kept_from_drops(q.attributes, crate::sdp::not_keyed(keys), 0, Seq::empty(), mux);
    assert forall|y: AttributeView| y.key == "rtcp"@ implies #[trigger] crate::sdp::not_keyed(keys)(
        y,
    ) by {
        if keys.contains("rtcp"@) {
            let i = keys.index_of("rtcp"@);
            assert(keys[i] == "rtcp"@);
        }
    }
    kept_keeps(q.attributes, crate::sdp::not_keyed(keys), "rtcp"@);
    let c = if x.sdp_type == SdpType::Answer && !slot.muxed {
        without_keys(q.attributes, keys)
    } else {
        q.attributes
    };
    first_value_is_first(c, mux);
    section_keeps(st, slot, x, input, mux);
    section_keeps(st, slot, x, input, "rtcp"@);
    let a = slot_step(st, slot, x, input).media.last().attributes;
    let muxes = x.config.offers_rtcp_mux() && (x.sdp_type != SdpType::Answer || slot.muxed);
    assert(values(c, mux) =~= if muxes {
        seq![None::<Seq<char>>]
    } else {
        seq![]
    });
    assert(values(a, mux) == values(c, mux));
    assert(values(a, "rtcp"@) =~= if x.config.transport_mode == TransportMode::Rtp && !muxes
        && input.transport.rtcp_port is Some {
        seq![Some(decimal(input.transport.rtcp_port->0 as nat))]
    } else {
        seq![]
    });
}

proof fn mux_is_listed(s: SectionView, x: WriteContext)
    requires
        s.kind == MediaKind::Audio || s.kind == MediaKind::Video,
        values(s.attributes, "rtcp-mux"@).len() == 0,
    ensures
        values(
            with_codecs(s, x.sdp_type, x.has_local, x.remote, x.config).attributes,
            "rtcp-mux"@,
        ) == (if x.config.offers_rtcp_mux() {
            seq![None::<Seq<char>>]
        } else {
            seq![]
        }),
{
    broadcast use values_push;

    keys_differ();
    let key = "rtcp-mux"@;
    let c = x.config;
    let muxed = SectionView {
        attributes: if c.offers_rtcp_mux() {
            s.attributes.push(flag("rtcp-mux"@))
        } else {
            s.attributes
        },
        ..s
    };
    let want = if c.offers_rtcp_mux() {
        seq![None::<Seq<char>>]
    } else {
        seq![]
    };
    assert(values(muxed.attributes, key) =~= want);
    let m = SectionView { formats: Seq::empty(), ..muxed };
    mux_passes_audio(c.audio_codecs(), 0, m);
    mux_passes_video(c.video_codecs(), 0, m);
    let a = configured(s, c);
    let found = reinvite_audio(a, x.sdp_type, x.has_local, x.remote, c.audio_codecs());
    let keys = crate::capability::codec_keys();
    if let Some(caps) = found {
        let cleared = without_keys(a.attributes, keys);
        assert forall|y: AttributeView| y.key == key implies #[trigger] crate::sdp::not_keyed(keys)(
            y,
        ) by {
            if keys.contains(key) {
                let i = keys.index_of(key);
                assert(keys[i] == key);
            }
        }
        kept_keeps(a.attributes, crate::sdp::not_keyed(keys), key);
        mux_passes_audio(
            caps,
            0,
            SectionView { formats: Seq::empty(), attributes: cleared, ..a },
        );
    }
    let b = match found {
        Some(caps) => with_audio(a, caps),
        None => a,
    };
    kept_keeps(
        b.attributes,
        crate::apt::attribute_outside(crate::apt::rtx_types(b.attributes)),
        key,
    );
    let t = stripped(b);
    if let Some(r) = crate::apt::answered_video(x.remote, t.mid) {
        mux_passes_merging(
            t.formats,
            crate::apt::apt_map(r.attributes),
            crate::codec::payload_map_of(r),
            0,
            t,
        );
    }
}

proof fn mux_passes_audio(c: Seq<AudioView>, k: int, s: SectionView)
    ensures
        values(with_audio_from(c, k, s).attributes, "rtcp-mux"@) == values(
            s.attributes,
            "rtcp-mux"@,
        ),
    decreases c.len() - k,
{
    broadcast use values_push;

    keys_differ();
    if 0 <= k < c.len() {
        let a = s.attributes.push(
            attr(
                "rtpmap"@,
                crate::capability::typed(
                    c[k].payload_type,
                    crate::capability::audio_encoding(c[k]),
                ),
            ),
        );
        let b = with_fmtp(c[k].payload_type, c[k].fmtp, a);
        feedback_keeps(c[k].payload_type, c[k].rtcp_fbs, 0, b, "rtcp-mux"@);
        mux_passes_audio(
            c,
            k + 1,
            SectionView {
                formats: s.formats.push(decimal(c[k].payload_type as nat)),
                attributes: audio_lines(c[k], s.attributes),
                ..s
            },
        );
    }
}

proof fn mux_passes_video(c: Seq<VideoView>, k: int, s: SectionView)
    ensures
        values(with_video_from(c, k, s).attributes, "rtcp-mux"@) == values(
            s.attributes,
            "rtcp-mux"@,
        ),
    decreases c.len() - k,
{
    broadcast use values_push;

    keys_differ();
    if 0 <= k < c.len() {
        let v = c[k];
        let a = s.attributes.push(
            attr(
                "rtpmap"@,
                crate::capability::typed(
                    v.payload_type,
                    crate::capability::encoding(v.codec_name, v.clock_rate),
                ),
            ),
        );
        let b = with_fmtp(v.payload_type, v.fmtp, a);
        feedback_keeps(v.payload_type, v.rtcp_fbs, 0, b, "rtcp-mux"@);
        mux_passes_video(c, k + 1, with_video(v, s));
    }
}

proof fn mux_passes_merging(
    f: Seq<Seq<char>>,
    offered: Map<u8, u8>,
    clocks: Map<u8, CodecView>,
    k: int,
    s: SectionView,
)
    ensures
        values(merged_rtx_from(f, offered, clocks, k, s).attributes, "rtcp-mux"@) == values(
            s.attributes,
            "rtcp-mux"@,
        ),
    decreases f.len() - k,
{
    broadcast use values_push;

    keys_differ();
    if 0 <= k < f.len() {
        if crate::apt::repaired(offered)(f[k]) {
            let pt = crate::codec::format_pt(f[k])->0;
            let rtx = crate::apt::rtx_from(offered, pt, 0)->0;
            let clock = crate::apt::clock_of(clocks, pt);
            mux_passes_merging(f, offered, clocks, k + 1, with_rtx(s, pt, rtx, clock));
        } else {
            mux_passes_merging(f, offered, clocks, k + 1, s);
        }
    }
}

/// Where writing stands when the section of slot `j` is written, as far as that section needs it.
pub proof fn sections_come_from_their_slots(
    st: WriteState,
    slots: Seq<Slot>,
    x: WriteContext,
    ins: Seq<InputView>,
    k: int,
    j: int,
) -> (at: WriteState)
    requires
        0 <= k <= slots.len(),
        st.media.len() == k,
        0 <= j < slots.len(),
        forall|i: int| 0 <= i < slots.len() ==> (#[trigger] slots[i]).index < st.ts.len(),
    ensures
        ({
            let w = crate::describe::slots_from(st, slots, x, ins, k);
            let a = st.ts[slots[j].index as int];
            let b = at.ts[slots[j].index as int];
            let s = slot_step(at, slots[j], x, ins[j]);
            &&& w.media.len() == slots.len()
            &&& j < k ==> w.media[j] == st.media[j]
            &&& st.session.connection is Some ==> w.session.connection == st.session.connection
            &&& j >= k ==> {
                &&& at.ts.len() == st.ts.len()
                &&& w.media[j] == s.media.last()
                &&& s.session.connection is Some ==> w.session.connection == s.session.connection
                &&& b.kind == a.kind
                &&& b.desired == a.desired
                &&& a.mid is Some ==> b.mid == a.mid
                &&& b.sender_ssrc == a.sender_ssrc
                &&& b.sender_stream_id == a.sender_stream_id
                &&& b.sender_track_id == a.sender_track_id
                &&& b.sender is None <==> a.sender is None
                &&& a.sender matches Some(y) ==> b.sender->0.ssrc == y.ssrc && b.sender->0.cname
                    == y.cname && b.sender->0.stream_id == y.stream_id && b.sender->0.track_id
                    == y.track_id
            }
        }),
    decreases slots.len() - k,
{
    if k < slots.len() {
        let next = slot_step(st, slots[k], x, ins[k]);
        let i = slots[j].index as int;
        assert(next.ts.len() == st.ts.len());
        let a = st.ts[i];
        let b = next.ts[i];
        assert(b.kind == a.kind && b.desired == a.desired && (a.mid is Some ==> b.mid == a.mid)
            && b.sender_ssrc == a.sender_ssrc && b.sender_stream_id == a.sender_stream_id
            && b.sender_track_id == a.sender_track_id);
        assert(b.sender is None <==> a.sender is None);
        assert(a.sender matches Some(y) ==> b.sender->0.ssrc == y.ssrc && b.sender->0.cname
            == y.cname && b.sender->0.stream_id == y.stream_id && b.sender->0.track_id
            == y.track_id);
        let at = sections_come_from_their_slots(next, slots, x, ins, k + 1, j);
        if j == k {
            st
        } else {
            at
        }
    } else {
        st
    }
}

} // verus!

//! What a media section says of codecs, header extensions and DTLS.

use crate::apt::extmap_key_is_apart;
use crate::apt::kept_without_extmaps;
use crate::apt::leading_pt;
use crate::apt::merge_remote_rtx_into_answer;
use crate::apt::merging_adds_no_extmap;
use crate::apt::rtx_merged;
use crate::apt::strip_rtx_from_section;
use crate::apt::stripped;
use crate::apt::with_rtx;
use crate::apt::without_extmaps;
use crate::apt::append_rtx_to_section;
use crate::codec::codecs;
use crate::codec::extract_payload_map;
use crate::codec::format_pt;
use crate::codec::payload_map_of;
use crate::codec::CodecView;
use crate::config::audio_views;
use crate::config::video_views;
use crate::config::AudioCapability;
use crate::config::AudioView;
use crate::config::ConfigView;
use crate::config::RtcConfiguration;
use crate::config::SdpCompatibilityMode;
use crate::config::TransportMode;
use crate::config::VideoCapability;
use crate::config::VideoView;
use crate::sdp::attr;
use crate::sdp::attrs;
use crate::sdp::description_opt;
use crate::sdp::drop_keys;
use crate::sdp::find_section_of_kind;
use crate::sdp::find_section_with_mid;
use crate::sdp::flag;
use crate::sdp::of_kind;
use crate::sdp::push_attr;
use crate::sdp::push_flag;
use crate::sdp::with_mid;
use crate::sdp::without_keys;
use crate::sdp::Attribute;
use crate::sdp::AttributeView;
use crate::sdp::DescriptionView;
use crate::sdp::MediaKind;
use crate::sdp::MediaSection;
use crate::sdp::SdpType;
use crate::sdp::SectionView;
use crate::sdp::SessionDescription;
use crate::search::first;
use crate::search::first_from;
use crate::text::clone_text_opt;
use crate::text::clone_texts;
use crate::text::contains_text;
use crate::text::decimal;
use crate::text::decimal_text;
use crate::text::equal_ignoring_case;
use crate::text::has_part;
use crate::text::joined;
use crate::text::number;
use crate::text::parse_u8;
use crate::text::rest_after;
use crate::text::same_ignoring_case;
use crate::text::same_text;
use crate::text::split_words;
use crate::text::text_after;
use crate::text::text_opt;
use crate::text::texts;
use crate::text::words;
use crate::transceiver::abs_send_time_uri;
use crate::transceiver::sdes_mid_uri;
use std::collections::HashSet;
use vstd::prelude::*;

verus! {

broadcast use vstd::std_specs::hash::group_hash_axioms;

/// `<pt> <text>`.
pub open spec fn typed(pt: u8, text: Seq<char>) -> Seq<char> {
    decimal(pt as nat) + " "@ + text
}

fn typed_text(pt: u8, text: &str) -> (r: String)
    ensures
        r@ == typed(pt, text@),
{
    joined(joined(decimal_text(pt as u64).as_str(), " ").as_str(), text)
}

/// `<name>/<clock rate>`.
pub open spec fn encoding(name: Seq<char>, clock_rate: u32) -> Seq<char> {
    name + "/"@ + decimal(clock_rate as nat)
}

fn encoding_text(name: &str, clock_rate: u32) -> (r: String)
    ensures
        r@ == encoding(name@, clock_rate),
{
    joined(joined(name, "/").as_str(), decimal_text(clock_rate as u64).as_str())
}

/// The encoding of an audio codec; a single channel is left out.
pub open spec fn audio_encoding(c: AudioView) -> Seq<char> {
    if c.channels == 1 {
        encoding(c.codec_name, c.clock_rate)
    } else {
        encoding(c.codec_name, c.clock_rate) + "/"@ + decimal(c.channels as nat)
    }
}

/// `acc` with the feedback lines of a payload type from index `k` on.
pub open spec fn feedback_from(
    pt: u8,
    fbs: Seq<Seq<char>>,
    k: int,
    acc: Seq<AttributeView>,
) -> Seq<AttributeView>
    decreases fbs.len() - k,
{
    if k < 0 || k >= fbs.len() {
        acc
    } else {
        feedback_from(pt, fbs, k + 1, acc.push(attr("rtcp-fb"@, typed(pt, fbs[k]))))
    }
}

fn push_feedback(list: &mut Vec<Attribute>, pt: u8, fbs: &Vec<String>)
    ensures
        attrs(final(list)@) == feedback_from(pt, texts(fbs@), 0, attrs(old(list)@)),
{
    let ghost start = attrs(list@);
    let mut i: usize = 0;
    while i < fbs.len()
        invariant
            i <= fbs@.len(),
            feedback_from(pt, texts(fbs@), 0, start) == feedback_from(
                pt,
                texts(fbs@),
                i as int,
                attrs(list@),
            ),
        decreases fbs@.len() - i,
    {
        assert(texts(fbs@)[i as int] == fbs@[i as int]@);
        push_attr(list, "rtcp-fb", typed_text(pt, fbs[i].as_str()));
        i += 1;
    }
}

/// `acc` with the parameter line of a payload type, if there is one.
pub open spec fn with_fmtp(
    pt: u8,
    fmtp: Option<Seq<char>>,
    acc: Seq<AttributeView>,
) -> Seq<AttributeView> {
    match fmtp {
        Some(f) => acc.push(attr("fmtp"@, typed(pt, f))),
        None => acc,
    }
}

fn push_fmtp(list: &mut Vec<Attribute>, pt: u8, fmtp: &Option<String>)
    ensures
        attrs(final(list)@) == with_fmtp(pt, text_opt(*fmtp), attrs(old(list)@)),
{
    if let Some(f) = fmtp {
        push_attr(list, "fmtp", typed_text(pt, f.as_str()));
    }
}

/// `acc` with the lines of an audio codec.
pub open spec fn audio_lines(c: AudioView, acc: Seq<AttributeView>) -> Seq<AttributeView> {
    feedback_from(
        c.payload_type,
        c.rtcp_fbs,
        0,
        with_fmtp(
            c.payload_type,
            c.fmtp,
            acc.push(attr("rtpmap"@, typed(c.payload_type, audio_encoding(c)))),
        ),
    )
}

/// A section with the audio codecs from index `k` on.
pub open spec fn with_audio_from(c: Seq<AudioView>, k: int, s: SectionView) -> SectionView
    decreases c.len() - k,
{
    if k < 0 || k >= c.len() {
        s
    } else {
        with_audio_from(
            c,
            k + 1,
            SectionView {
                formats: s.formats.push(decimal(c[k].payload_type as nat)),
                attributes: audio_lines(c[k], s.attributes),
                ..s
            },
        )
    }
}

fn push_audio(section: &mut MediaSection, caps: &Vec<AudioCapability>)
    ensures
        final(section)@ == with_audio_from(audio_views(caps@), 0, old(section)@),
{
    let ghost s0 = section@;
    let ghost c = audio_views(caps@);
    let mut i: usize = 0;
    while i < caps.len()
        invariant
            i <= caps@.len(),
            c == audio_views(caps@),
            with_audio_from(c, 0, s0) == with_audio_from(c, i as int, section@),
        decreases caps@.len() - i,
    {
        assert(c[i as int] == caps@[i as int]@);
        let cap = &caps[i];
        let pt: u8 = cap.payload_type;
        let mut name = encoding_text(cap.codec_name.as_str(), cap.clock_rate);
        if cap.channels != 1 {
            name = joined(
                joined(name.as_str(), "/").as_str(),
                decimal_text(cap.channels as u64).as_str(),
            );
        }
        assert(name@ == audio_encoding(cap@));
        let ghost before = section@;
        let ghost f0 = section.formats@;
        section.formats.push(decimal_text(pt as u64));
        assert(texts(section.formats@) =~= texts(f0).push(decimal(pt as nat)));
        push_attr(&mut section.attributes, "rtpmap", typed_text(pt, name.as_str()));
        push_fmtp(&mut section.attributes, pt, &cap.fmtp);
        push_feedback(&mut section.attributes, pt, &cap.rtcp_fbs);
        assert(section@ =~= (SectionView {
            formats: before.formats.push(decimal(pt as nat)),
            attributes: audio_lines(cap@, before.attributes),
            ..before
        }));
        i += 1;
    }
}

/// A section with a video codec, and its retransmission type where it has one.
pub open spec fn with_video(c: VideoView, s: SectionView) -> SectionView {
    let plain = SectionView {
        formats: s.formats.push(decimal(c.payload_type as nat)),
        attributes: feedback_from(
            c.payload_type,
            c.rtcp_fbs,
            0,
            with_fmtp(
                c.payload_type,
                c.fmtp,
                s.attributes.push(
                    attr(
                        "rtpmap"@,
                        typed(c.payload_type, encoding(c.codec_name, c.clock_rate)),
                    ),
                ),
            ),
        ),
        ..s
    };
    match c.rtx_payload_type {
        Some(rtx) => with_rtx(plain, c.payload_type, rtx, c.clock_rate),
        None => plain,
    }
}

/// A section with the video codecs from index `k` on.
pub open spec fn with_video_from(c: Seq<VideoView>, k: int, s: SectionView) -> SectionView
    decreases c.len() - k,
{
    if k < 0 || k >= c.len() {
        s
    } else {
        with_video_from(c, k + 1, with_video(c[k], s))
    }
}

fn push_video(section: &mut MediaSection, caps: &Vec<VideoCapability>)
    ensures
        final(section)@ == with_video_from(video_views(caps@), 0, old(section)@),
{
    let ghost s0 = section@;
    let ghost c = video_views(caps@);
    let mut i: usize = 0;
    while i < caps.len()
        invariant
            i <= caps@.len(),
            c == video_views(caps@),
            with_video_from(c, 0, s0) == with_video_from(c, i as int, section@),
        decreases caps@.len() - i,
    {
        assert(c[i as int] == caps@[i as int]@);
        let cap = &caps[i];
        let pt: u8 = cap.payload_type;
        let name = encoding_text(cap.codec_name.as_str(), cap.clock_rate);
        let ghost before = section@;
        let ghost f0 = section.formats@;
        section.formats.push(decimal_text(pt as u64));
        assert(texts(section.formats@) =~= texts(f0).push(decimal(pt as nat)));
        push_attr(&mut section.attributes, "rtpmap", typed_text(pt, name.as_str()));
        push_fmtp(&mut section.attributes, pt, &cap.fmtp);
        push_feedback(&mut section.attributes, pt, &cap.rtcp_fbs);
        if let Some(rtx) = cap.rtx_payload_type {
            append_rtx_to_section(section, pt, rtx, cap.clock_rate);
        }
        assert(section@ =~= with_video(cap@, before));
        i += 1;
    }
}

/// A section with what the configuration offers for its kind.
pub open spec fn configured(s: SectionView, c: ConfigView) -> SectionView {
    let muxed = SectionView {
        attributes: if c.offers_rtcp_mux() {
            s.attributes.push(flag("rtcp-mux"@))
        } else {
            s.attributes
        },
        ..s
    };
    match s.kind {
        MediaKind::Audio => with_audio_from(
            c.audio_codecs(),
            0,
            SectionView { formats: Seq::empty(), ..muxed },
        ),
        MediaKind::Video => with_video_from(
            c.video_codecs(),
            0,
            SectionView { formats: Seq::empty(), ..muxed },
        ),
        MediaKind::Application => SectionView {
            formats: seq!["webrtc-datachannel"@],
            attributes: s.attributes.push(attr("sctp-port"@, decimal(c.sctp_port() as nat))),
            ..s
        },
        MediaKind::Image => SectionView { formats: seq!["t38"@], ..s },
    }
}

/// Writes what the configuration offers for the kind of a section.
pub fn apply_config(section: &mut MediaSection, config: &RtcConfiguration)
    ensures
        final(section)@ == configured(old(section)@, config@),
{
    let ghost s0 = section@;
    match section.kind {
        MediaKind::Audio => {
            if config.offers_rtcp_mux() {
                push_flag(&mut section.attributes, "rtcp-mux");
            }
            section.formats = Vec::new();
            assert(section@.formats =~= Seq::<Seq<char>>::empty());
            let caps = config.configured_audio_capabilities();
            push_audio(section, &caps);
        },
        MediaKind::Video => {
            if config.offers_rtcp_mux() {
                push_flag(&mut section.attributes, "rtcp-mux");
            }
            section.formats = Vec::new();
            assert(section@.formats =~= Seq::<Seq<char>>::empty());
            let caps = config.configured_video_capabilities();
            push_video(section, &caps);
        },
        MediaKind::Application => {
            let mut formats: Vec<String> = Vec::new();
            formats.push("webrtc-datachannel".to_owned());
            assert(texts(formats@) =~= seq!["webrtc-datachannel"@]);
            section.formats = formats;
            push_attr(
                &mut section.attributes,
                "sctp-port",
                decimal_text(config.sctp_port() as u64),
            );
        },
        MediaKind::Image => {
            let mut formats: Vec<String> = Vec::new();
            formats.push("t38".to_owned());
            assert(texts(formats@) =~= seq!["t38"@]);
            section.formats = formats;
        },
    }
    assert(section@ =~= configured(s0, config@));
}

/// The keys of the lines that describe codecs.
pub open spec fn codec_keys() -> Seq<Seq<char>> {
    seq!["rtpmap"@, "fmtp"@, "rtcp-fb"@]
}

/// A section with the given audio codecs in place of its own.
pub open spec fn with_audio(s: SectionView, caps: Seq<AudioView>) -> SectionView {
    with_audio_from(
        caps,
        0,
        SectionView {
            formats: Seq::empty(),
            attributes: without_keys(s.attributes, codec_keys()),
            ..s
        },
    )
}

/// Writes the given audio codecs in place of a section's own.
pub fn apply_audio_capabilities(section: &mut MediaSection, caps: &Vec<AudioCapability>)
    ensures
        final(section)@ == with_audio(old(section)@, audio_views(caps@)),
{
    let ghost s0 = section@;
    section.formats = Vec::new();
    section.attributes = drop_keys(&section.attributes, "rtpmap", "fmtp", "rtcp-fb");
    assert(section@ =~= (SectionView {
        formats: Seq::empty(),
        attributes: without_keys(s0.attributes, codec_keys()),
        ..s0
    }));
    push_audio(section, caps);
}

/// The parameters that an fmtp line gives for a payload type.
pub open spec fn fmtp_for(pt: u8) -> spec_fn(AttributeView) -> bool {
    |a: AttributeView|
        a.key == "fmtp"@ && (a.value matches Some(v) && leading_pt(v) == Some(pt))
}

/// The parameters of a payload type: the rest of its first fmtp line.
pub open spec fn fmtp_of(a: Seq<AttributeView>, pt: u8) -> Option<Seq<char>> {
    match first(a, fmtp_for(pt)) {
        Some(i) => rest_after(a[i].value->0, ' '),
        None => None,
    }
}

fn find_fmtp(v: &Vec<Attribute>, pt: u8) -> (r: Option<String>)
    ensures
        text_opt(r) == fmtp_of(attrs(v@), pt),
{
    let ghost a = attrs(v@);
    let mut i: usize = 0;
    while i < v.len()
        invariant
            i <= v@.len(),
            a == attrs(v@),
            first(a, fmtp_for(pt)) == first_from(a, fmtp_for(pt), i as int),
        decreases v@.len() - i,
    {
        assert(a[i as int] == v@[i as int]@);
        if same_text(v[i].key.as_str(), "fmtp") {
            if let Some(value) = &v[i].value {
                let w = split_words(value.as_str());
                assert(texts(w@).len() == w@.len());
                if w.len() > 0 {
                    assert(texts(w@)[0] == w@[0]@);
                    if let Some(n) = parse_u8(w[0].as_str()) {
                        if n == pt {
                            return text_after(value.as_str(), ' ');
                        }
                    }
                }
            }
        }
        i += 1;
    }
    None
}

/// The audio codec under a payload type, as another side offers it; its feedback is not read.
pub open spec fn offered_audio(s: SectionView, pt: u8) -> AudioView {
    let c = payload_map_of(s)[pt];
    AudioView {
        payload_type: pt,
        codec_name: c.name,
        clock_rate: c.clock_rate,
        channels: if c.channels == 0 {
            1
        } else {
            c.channels
        },
        fmtp: fmtp_of(s.attributes, pt),
        rtcp_fbs: Seq::empty(),
    }
}

/// `acc` with the audio codecs of the formats from index `k` on.
pub open spec fn audio_offer_from(s: SectionView, k: int, acc: Seq<AudioView>) -> Seq<AudioView>
    decreases s.formats.len() - k,
{
    if k < 0 || k >= s.formats.len() {
        acc
    } else {
        match format_pt(s.formats[k]) {
            Some(pt) => if payload_map_of(s).contains_key(pt) {
                audio_offer_from(s, k + 1, acc.push(offered_audio(s, pt)))
            } else {
                audio_offer_from(s, k + 1, acc)
            },
            None => audio_offer_from(s, k + 1, acc),
        }
    }
}

/// The audio codecs that a section offers, in the order of its formats.
pub open spec fn audio_offer(s: SectionView) -> Seq<AudioView> {
    audio_offer_from(s, 0, Seq::empty())
}

/// The audio codecs that a section offers.
pub fn to_audio_capabilities(section: &MediaSection) -> (r: Vec<AudioCapability>)
    ensures
        audio_views(r@) == audio_offer(section@),
{
    let m = extract_payload_map(section);
    let mut out: Vec<AudioCapability> = Vec::new();
    assert(audio_views(out@) =~= Seq::<AudioView>::empty());
    let mut i: usize = 0;
    while i < section.formats.len()
        invariant
            i <= section.formats@.len(),
            codecs(m@) == payload_map_of(section@),
            audio_offer(section@) == audio_offer_from(section@, i as int, audio_views(out@)),
        decreases section.formats@.len() - i,
    {
        assert(section@.formats[i as int] == section.formats@[i as int]@);
        if let Some(pt) = parse_u8(section.formats[i].as_str()) {
            if let Some(p) = m.get(&pt) {
                let cap = AudioCapability {
                    payload_type: pt,
                    codec_name: p.name.clone(),
                    clock_rate: p.clock_rate,
                    channels: if p.channels == 0 {
                        1
                    } else {
                        p.channels
                    },
                    fmtp: find_fmtp(&section.attributes, pt),
                    rtcp_fbs: Vec::new(),
                };
                assert(cap@ =~= offered_audio(section@, pt));
                let ghost before = out@;
                out.push(cap);
                assert(audio_views(out@) =~= audio_views(before).push(cap@));
            }
        }
        i += 1;
    }
    out
}

/// Local codecs that are the same as an offered one.
pub open spec fn same_audio_codec(remote: AudioView) -> spec_fn(AudioView) -> bool {
    |local: AudioView|
        same_ignoring_case(local.codec_name, remote.codec_name) && local.clock_rate
            == remote.clock_rate && local.channels == remote.channels
}

/// Whether a local audio codec is the same as an offered one: name, clock rate and channels.
pub fn audio_capability_matches(local: &AudioCapability, remote: &AudioCapability) -> (r: bool)
    ensures
        r == same_audio_codec(remote@)(local@),
{
    equal_ignoring_case(local.codec_name.as_str(), remote.codec_name.as_str())
        && local.clock_rate == remote.clock_rate && local.channels == remote.channels
}

/// A local codec as it answers an offered one: under the offered payload type and name; telephone
/// events take the offered parameters, where there are any.
pub open spec fn answered_audio(local: AudioView, remote: AudioView) -> AudioView {
    AudioView {
        payload_type: remote.payload_type,
        codec_name: remote.codec_name,
        clock_rate: remote.clock_rate,
        channels: remote.channels,
        fmtp: if same_ignoring_case(remote.codec_name, "telephone-event"@) && remote.fmtp is Some {
            remote.fmtp
        } else {
            local.fmtp
        },
        rtcp_fbs: local.rtcp_fbs,
    }
}

/// `acc` with the answers to the offered codecs from index `k` on that we have too.
pub open spec fn audio_answer_from(
    remote: Seq<AudioView>,
    local: Seq<AudioView>,
    k: int,
    acc: Seq<AudioView>,
) -> Seq<AudioView>
    decreases remote.len() - k,
{
    if k < 0 || k >= remote.len() {
        acc
    } else {
        match first(local, same_audio_codec(remote[k])) {
            Some(i) => audio_answer_from(
                remote,
                local,
                k + 1,
                acc.push(answered_audio(local[i], remote[k])),
            ),
            None => audio_answer_from(remote, local, k + 1, acc),
        }
    }
}

/// The codecs that answer an offer: those offered that we have too, as they are offered.
pub open spec fn audio_answer(s: SectionView, local: Seq<AudioView>) -> Seq<AudioView> {
    audio_answer_from(audio_offer(s), local, 0, Seq::empty())
}

fn find_local_audio(local: &Vec<AudioCapability>, remote: &AudioCapability) -> (r: Option<usize>)
    ensures
        match r {
            Some(i) => first(audio_views(local@), same_audio_codec(remote@)) == Some(i as int) && i
                < local@.len(),
            None => first(audio_views(local@), same_audio_codec(remote@)) is None,
        },
{
    let ghost l = audio_views(local@);
    let mut i: usize = 0;
    while i < local.len()
        invariant
            i <= local@.len(),
            l == audio_views(local@),
            first(l, same_audio_codec(remote@)) == first_from(
                l,
                same_audio_codec(remote@),
                i as int,
            ),
        decreases local@.len() - i,
    {
        assert(l[i as int] == local@[i as int]@);
        if audio_capability_matches(&local[i], remote) {
            return Some(i);
        }
        i += 1;
    }
    None
}

/// The codecs that answer an offer.
pub fn derive_answer_audio_capabilities(
    remote_section: &MediaSection,
    local_caps: &Vec<AudioCapability>,
) -> (r: Vec<AudioCapability>)
    ensures
        audio_views(r@) == audio_answer(remote_section@, audio_views(local_caps@)),
{
    let offered = to_audio_capabilities(remote_section);
    let ghost o = audio_views(offered@);
    let ghost l = audio_views(local_caps@);
    let mut out: Vec<AudioCapability> = Vec::new();
    assert(audio_views(out@) =~= Seq::<AudioView>::empty());
    let mut i: usize = 0;
    while i < offered.len()
        invariant
            i <= offered@.len(),
            o == audio_views(offered@),
            l == audio_views(local_caps@),
            audio_answer_from(o, l, 0, Seq::empty()) == audio_answer_from(
                o,
                l,
                i as int,
                audio_views(out@),
            ),
        decreases offered@.len() - i,
    {
        assert(o[i as int] == offered@[i as int]@);
        let remote = &offered[i];
        if let Some(j) = find_local_audio(local_caps, remote) {
            assert(l[j as int] == local_caps@[j as int]@);
            let local = &local_caps[j];
            let fmtp = if equal_ignoring_case(remote.codec_name.as_str(), "telephone-event")
                && remote.fmtp.is_some() {
                clone_text_opt(&remote.fmtp)
            } else {
                clone_text_opt(&local.fmtp)
            };
            let cap = AudioCapability {
                payload_type: remote.payload_type,
                codec_name: remote.codec_name.clone(),
                clock_rate: remote.clock_rate,
                channels: remote.channels,
                fmtp,
                rtcp_fbs: clone_texts(&local.rtcp_fbs),
            };
            let ghost before = out@;
            out.push(cap);
            assert(cap@ == answered_audio(l[j as int], o[i as int]));
            assert(audio_views(out@) =~= audio_views(before).push(cap@));
        }
        i += 1;
    }
    out
}

/// Sections of a kind with a mid.
pub open spec fn of_kind_with_mid(kind: MediaKind, mid: Seq<char>) -> spec_fn(SectionView) -> bool {
    |s: SectionView| s.kind == kind && s.mid == mid
}

/// The offered section that a local audio section answers: by its mid where it has one, else by
/// its kind.
pub open spec fn answered_audio_section(d: DescriptionView, mid: Seq<char>) -> Option<int> {
    if mid.len() == 0 {
        first(d.media, of_kind(MediaKind::Audio))
    } else {
        match first(d.media, of_kind_with_mid(MediaKind::Audio, mid)) {
            Some(i) => Some(i),
            None => first(d.media, of_kind(MediaKind::Audio)),
        }
    }
}

/// The codecs of an answer to a re-offer: those that the new offer leaves.
pub open spec fn reinvite_audio(
    s: SectionView,
    sdp_type: SdpType,
    has_local: bool,
    remote: Option<DescriptionView>,
    local_caps: Seq<AudioView>,
) -> Option<Seq<AudioView>> {
    if s.kind != MediaKind::Audio || sdp_type != SdpType::Answer || !has_local {
        None
    } else {
        match remote {
            Some(d) => match answered_audio_section(d, s.mid) {
                Some(i) => if audio_answer(d.media[i], local_caps).len() == 0 {
                    None
                } else {
                    Some(audio_answer(d.media[i], local_caps))
                },
                None => None,
            },
            None => None,
        }
    }
}

fn find_audio_section(v: &Vec<MediaSection>, mid: &str) -> (r: Option<usize>)
    ensures
        match r {
            Some(i) => first(sections_of(v), of_kind_with_mid(MediaKind::Audio, mid@)) == Some(
                i as int,
            ) && i < v@.len(),
            None => first(sections_of(v), of_kind_with_mid(MediaKind::Audio, mid@)) is None,
        },
{
    let ghost s = sections_of(v);
    let mut i: usize = 0;
    while i < v.len()
        invariant
            i <= v@.len(),
            s == sections_of(v),
            first(s, of_kind_with_mid(MediaKind::Audio, mid@)) == first_from(
                s,
                of_kind_with_mid(MediaKind::Audio, mid@),
                i as int,
            ),
        decreases v@.len() - i,
    {
        assert(s[i as int] == v@[i as int]@);
        if v[i].kind == MediaKind::Audio && same_text(v[i].mid.as_str(), mid) {
            return Some(i);
        }
        i += 1;
    }
    None
}

/// The model of a list of sections.
pub open spec fn sections_of(v: &Vec<MediaSection>) -> Seq<SectionView> {
    crate::sdp::sections(v@)
}

/// The codecs of an answer to a re-offer.
pub fn reinvite_answer_audio_capabilities(
    section: &MediaSection,
    sdp_type: SdpType,
    has_local: bool,
    remote: &Option<SessionDescription>,
    config: &RtcConfiguration,
) -> (r: Option<Vec<AudioCapability>>)
    ensures
        match reinvite_audio(
            section@,
            sdp_type,
            has_local,
            description_opt(*remote),
            config@.audio_codecs(),
        ) {
            Some(c) => r matches Some(v) && audio_views(v@) == c,
            None => r is None,
        },
{
    if section.kind != MediaKind::Audio || sdp_type != SdpType::Answer || !has_local {
        return None;
    }
    let desc = match remote {
        Some(d) => d,
        None => {
            return None;
        },
    };
    let mid = section.mid.as_str();
    let found: Option<usize> = if mid.is_empty() {
        find_section_of_kind(&desc.media_sections, MediaKind::Audio)
    } else {
        match find_audio_section(&desc.media_sections, mid) {
            Some(i) => Some(i),
            None => find_section_of_kind(&desc.media_sections, MediaKind::Audio),
        }
    };
    let index: usize = match found {
        Some(i) => i,
        None => {
            return None;
        },
    };
    assert(desc@.media[index as int] == desc.media_sections@[index as int]@);
    let local = config.configured_audio_capabilities();
    let caps = derive_answer_audio_capabilities(&desc.media_sections[index], &local);
    assert(audio_views(caps@).len() == caps@.len());
    if caps.len() == 0 {
        None
    } else {
        Some(caps)
    }
}

/// The identifier that the extmap lines from index `k` on give an extension: the first word of
/// the first line that names it. A line without a value ends the search.
pub open spec fn extension_in(a: Seq<AttributeView>, uri: Seq<char>, k: int) -> Option<Seq<char>>
    decreases a.len() - k,
{
    if k < 0 || k >= a.len() {
        None
    } else if a[k].key != "extmap"@ {
        extension_in(a, uri, k + 1)
    } else {
        match a[k].value {
            None => None,
            Some(v) => if contains_text(v, uri) && words(v).len() > 0 {
                Some(words(v)[0])
            } else {
                extension_in(a, uri, k + 1)
            },
        }
    }
}

/// The identifier that the other side gives an extension in the section with a mid.
pub open spec fn remote_extension(
    remote: Option<DescriptionView>,
    mid: Seq<char>,
    uri: Seq<char>,
) -> Option<Seq<char>> {
    match remote {
        Some(d) => match first(d.media, with_mid(mid)) {
            Some(i) => extension_in(d.media[i].attributes, uri, 0),
            None => None,
        },
        None => None,
    }
}

/// The identifier that the other side gives an extension.
pub fn get_remote_extmap_id(remote: &Option<SessionDescription>, mid: &str, uri: &str) -> (r:
    Option<String>)
    ensures
        text_opt(r) == remote_extension(description_opt(*remote), mid@, uri@),
{
    let desc = match remote {
        Some(d) => d,
        None => {
            return None;
        },
    };
    let index: usize = match find_section_with_mid(&desc.media_sections, mid) {
        Some(i) => i,
        None => {
            return None;
        },
    };
    let v = &desc.media_sections[index].attributes;
    let ghost a = attrs(v@);
    assert(desc@.media[index as int] == desc.media_sections@[index as int]@);
    let mut i: usize = 0;
    while i < v.len()
        invariant
            i <= v@.len(),
            a == attrs(v@),
            remote_extension(description_opt(*remote), mid@, uri@) == extension_in(
                a,
                uri@,
                i as int,
            ),
        decreases v@.len() - i,
    {
        assert(a[i as int] == v@[i as int]@);
        if same_text(v[i].key.as_str(), "extmap") {
            match &v[i].value {
                None => {
                    return None;
                },
                Some(value) => {
                    if has_part(value.as_str(), uri) {
                        let w = split_words(value.as_str());
                        assert(texts(w@).len() == w@.len());
                        if w.len() > 0 {
                            assert(texts(w@)[0] == w@[0]@);
                            return Some(w[0].clone());
                        }
                    }
                },
            }
        }
        i += 1;
    }
    None
}

/// `s` with the identifiers of the extmap lines from index `k` on.
pub open spec fn extension_ids_from(a: Seq<AttributeView>, k: int, s: Set<u8>) -> Set<u8>
    decreases a.len() - k,
{
    if k < 0 || k >= a.len() {
        s
    } else {
        match extension_id(a[k]) {
            Some(id) => extension_ids_from(a, k + 1, s.insert(id)),
            None => extension_ids_from(a, k + 1, s),
        }
    }
}

/// The identifier that an extmap line gives.
pub open spec fn extension_id(a: AttributeView) -> Option<u8> {
    match a.value {
        Some(v) => if a.key == "extmap"@ {
            leading_pt(v)
        } else {
            None
        },
        None => None,
    }
}

/// The identifiers that the other side uses in the section with a mid.
pub open spec fn remote_extension_ids(remote: Option<DescriptionView>, mid: Seq<char>) -> Set<u8> {
    match remote {
        Some(d) => match first(d.media, with_mid(mid)) {
            Some(i) => extension_ids_from(d.media[i].attributes, 0, Set::empty()),
            None => Set::empty(),
        },
        None => Set::empty(),
    }
}

/// The identifiers that the other side uses in the section with a mid.
pub fn get_remote_extmap_ids(remote: &Option<SessionDescription>, mid: &str) -> (r: HashSet<u8>)
    ensures
        r@ == remote_extension_ids(description_opt(*remote), mid@),
{
    let mut ids: HashSet<u8> = HashSet::new();
    assert(ids@ =~= Set::<u8>::empty());
    let desc = match remote {
        Some(d) => d,
        None => {
            return ids;
        },
    };
    let index: usize = match find_section_with_mid(&desc.media_sections, mid) {
        Some(i) => i,
        None => {
            return ids;
        },
    };
    let v = &desc.media_sections[index].attributes;
    let ghost a = attrs(v@);
    assert(desc@.media[index as int] == desc.media_sections@[index as int]@);
    let mut i: usize = 0;
    while i < v.len()
        invariant
            i <= v@.len(),
            a == attrs(v@),
            remote_extension_ids(description_opt(*remote), mid@) == extension_ids_from(
                a,
                i as int,
                ids@,
            ),
        decreases v@.len() - i,
    {
        assert(a[i as int] == v@[i as int]@);
        if same_text(v[i].key.as_str(), "extmap") {
            if let Some(value) = &v[i].value {
                let w = split_words(value.as_str());
                assert(texts(w@).len() == w@.len());
                if w.len() > 0 {
                    assert(texts(w@)[0] == w@[0]@);
                    if let Some(id) = parse_u8(w[0].as_str()) {
                        ids.insert(id);
                    }
                }
            }
        }
        i += 1;
    }
    ids
}

/// The lowest free one-byte extension identifier at or above `k`.
pub open spec fn free_id_from(used: Set<u8>, k: int) -> Option<u8>
    decreases 15 - k,
{
    if k < 1 || k > 14 {
        None
    } else if !used.contains(k as u8) {
        Some(k as u8)
    } else {
        free_id_from(used, k + 1)
    }
}

/// The identifier that is claimed: the preferred one if it is free, else the lowest free one, and
/// the preferred one after all where none is free.
pub open spec fn claimed(used: Set<u8>, preferred: u8) -> u8 {
    if !used.contains(preferred) {
        preferred
    } else {
        match free_id_from(used, 1) {
            Some(id) => id,
            None => preferred,
        }
    }
}

/// Claims an extension identifier (RFC 8285) and marks it as used.
pub fn claim_free_extmap_id(used: &mut HashSet<u8>, preferred: u8) -> (r: u8)
    ensures
        r == claimed(old(used)@, preferred),
        final(used)@ == old(used)@.insert(r),
{
    let mut id: u8 = preferred;
    if used.contains(&preferred) {
        let ghost u = used@;
        let mut found = false;
        let mut k: u8 = 1;
        while k <= 14 && !found
            invariant
                1 <= k <= 15,
                u == used@,
                found ==> free_id_from(u, 1) == Some(id),
                !found ==> id == preferred && free_id_from(u, 1) == free_id_from(u, k as int),
            decreases 15 - k + (if found {
                0int
            } else {
                1int
            }),
        {
            if !used.contains(&k) {
                id = k;
                found = true;
            } else {
                k += 1;
            }
        }
    }
    used.insert(id);
    id
}

proof fn free_id_facts(used: Set<u8>, k: int)
    requires
        1 <= k,
    ensures
        free_id_from(used, k) matches Some(id) ==> k <= id <= 14 && !used.contains(id),
        free_id_from(used, k) is None ==> forall|id: u8| k <= id <= 14 ==> #[trigger]
            used.contains(id),
    decreases 15 - k,
{
    if k <= 14 && used.contains(k as u8) {
        free_id_facts(used, k + 1);
        assert(free_id_from(used, k) is None ==> forall|id: u8|
            k <= id <= 14 ==> #[trigger] used.contains(id)) by {
            if free_id_from(used, k) is None {
                assert forall|id: u8| k <= id <= 14 implies #[trigger] used.contains(id) by {
                    if id == k {
                    }
                }
            }
        }
    }
}

/// A claimed identifier is fresh as long as some one-byte identifier is free.
pub proof fn claimed_id_is_fresh(used: Set<u8>, preferred: u8, free: u8)
    requires
        1 <= preferred <= 14,
        1 <= free <= 14,
        !used.contains(free),
    ensures
        1 <= claimed(used, preferred) <= 14,
        !used.contains(claimed(used, preferred)),
{
    free_id_facts(used, 1);
}

/// What the negotiation knows when it writes a section.
pub struct SectionTerms {
    pub sdp_type: SdpType,
    /// There is a local description already.
    pub has_local: bool,
    /// The DTLS role: true for the client.
    pub dtls_role: Option<bool>,
}

/// An extmap line.
pub open spec fn extmap_line(id: Seq<char>, uri: Seq<char>) -> AttributeView {
    attr("extmap"@, id + " "@ + uri)
}

fn push_extmap(list: &mut Vec<Attribute>, id: &str, uri: &str)
    ensures
        attrs(final(list)@) == attrs(old(list)@).push(extmap_line(id@, uri@)),
{
    push_attr(list, "extmap", joined(joined(id, " ").as_str(), uri));
}

/// The state of writing extension lines: the lines and the identifiers in use.
#[verifier::ext_equal]
pub struct ExtensionState {
    pub attributes: Seq<AttributeView>,
    pub used: Set<u8>,
}

/// An extension is written under the identifier of the other side, else, where `offer` holds,
/// under one that is claimed, else not at all.
pub open spec fn extension_step(
    s: ExtensionState,
    remote: Option<Seq<char>>,
    offer: bool,
    preferred: u8,
    uri: Seq<char>,
) -> ExtensionState {
    match remote {
        Some(id) => ExtensionState { attributes: s.attributes.push(extmap_line(id, uri)), ..s },
        None => if offer {
            let id = claimed(s.used, preferred);
            ExtensionState {
                attributes: s.attributes.push(extmap_line(decimal(id as nat), uri)),
                used: s.used.insert(id),
            }
        } else {
            s
        },
    }
}

fn write_extension(
    list: &mut Vec<Attribute>,
    used: &mut HashSet<u8>,
    remote: Option<String>,
    offer: bool,
    preferred: u8,
    uri: &str,
)
    ensures
        (ExtensionState { attributes: attrs(final(list)@), used: final(used)@ })
            == extension_step(
            (ExtensionState { attributes: attrs(old(list)@), used: old(used)@ }),
            text_opt(remote),
            offer,
            preferred,
            uri@,
        ),
{
    match remote {
        Some(id) => {
            push_extmap(list, id.as_str(), uri);
        },
        None => {
            if offer {
                let id = claim_free_extmap_id(used, preferred);
                push_extmap(list, decimal_text(id as u64).as_str(), uri);
            }
        },
    }
}

/// The extension that names a simulcast layer.
pub open spec fn rid_uri() -> Seq<char> {
    "urn:ietf:params:rtp-hdrext:sdes:rtp-stream-id"@
}

/// The extension that names the simulcast layer that a retransmission repairs.
pub open spec fn repaired_rid_uri() -> Seq<char> {
    "urn:ietf:params:rtp-hdrext:sdes:repaired-rtp-stream-id"@
}

/// The extension lines of a section: for video the simulcast layers, then the absolute send time,
/// then, but for legacy peers, the mid.
pub open spec fn extension_lines(
    s: SectionView,
    sdp_type: SdpType,
    remote: Option<DescriptionView>,
    c: ConfigView,
) -> ExtensionState {
    let offer = sdp_type == SdpType::Offer && c.transport_mode != TransportMode::Rtp;
    let s0 = ExtensionState {
        attributes: s.attributes,
        used: remote_extension_ids(remote, s.mid),
    };
    let s1 = if s.kind == MediaKind::Video {
        extension_step(
            extension_step(s0, remote_extension(remote, s.mid, rid_uri()), offer, 1, rid_uri()),
            remote_extension(remote, s.mid, repaired_rid_uri()),
            offer,
            2,
            repaired_rid_uri(),
        )
    } else {
        s0
    };
    let s2 = extension_step(
        s1,
        remote_extension(remote, s.mid, abs_send_time_uri()),
        offer,
        3,
        abs_send_time_uri(),
    );
    if c.sdp_compatibility == SdpCompatibilityMode::LegacySip {
        s2
    } else {
        extension_step(
            s2,
            remote_extension(remote, s.mid, sdes_mid_uri()),
            offer,
            4,
            sdes_mid_uri(),
        )
    }
}

/// The DTLS role that a description states.
pub open spec fn setup_value(sdp_type: SdpType, dtls_role: Option<bool>) -> Seq<char> {
    if sdp_type == SdpType::Answer {
        if dtls_role == Some(false) {
            "passive"@
        } else {
            "active"@
        }
    } else {
        "actpass"@
    }
}

/// The lines that offer DTLS under a fingerprint.
pub open spec fn with_dtls(
    a: Seq<AttributeView>,
    fingerprint: Seq<char>,
    setup: Seq<char>,
) -> Seq<AttributeView> {
    a.push(attr("fingerprint"@, "sha-256 "@ + fingerprint)).push(attr("setup"@, setup))
}

/// The codecs of a section: as configured, for the answer to a re-offer as that leaves them, for
/// a video answer with the retransmission types that were offered and no others.
pub open spec fn with_codecs(
    s: SectionView,
    sdp_type: SdpType,
    has_local: bool,
    remote: Option<DescriptionView>,
    c: ConfigView,
) -> SectionView {
    let a = configured(s, c);
    let b = match reinvite_audio(a, sdp_type, has_local, remote, c.audio_codecs()) {
        Some(caps) => with_audio(a, caps),
        None => a,
    };
    if sdp_type == SdpType::Answer && s.kind == MediaKind::Video {
        rtx_merged(stripped(b), remote)
    } else {
        b
    }
}

/// A section with its codecs, its header extensions and, for WebRTC, the DTLS lines.
pub open spec fn populated(
    s: SectionView,
    terms: SectionTerms,
    remote: Option<DescriptionView>,
    c: ConfigView,
    fingerprint: Seq<char>,
) -> SectionView {
    let a = with_codecs(s, terms.sdp_type, terms.has_local, remote, c);
    let b = SectionView {
        attributes: extension_lines(a, terms.sdp_type, remote, c).attributes,
        ..a
    };
    if c.transport_mode == TransportMode::WebRtc {
        SectionView {
            attributes: with_dtls(
                b.attributes,
                fingerprint,
                setup_value(terms.sdp_type, terms.dtls_role),
            ),
            ..b
        }
    } else {
        b
    }
}

proof fn audio_keeps_frame(c: Seq<AudioView>, k: int, s: SectionView)
    ensures
        with_audio_from(c, k, s).kind == s.kind,
        with_audio_from(c, k, s).mid == s.mid,
        with_audio_from(c, k, s).direction == s.direction,
    decreases c.len() - k,
{
    if 0 <= k < c.len() {
        audio_keeps_frame(
            c,
            k + 1,
            SectionView {
                formats: s.formats.push(decimal(c[k].payload_type as nat)),
                attributes: audio_lines(c[k], s.attributes),
                ..s
            },
        );
    }
}

proof fn video_keeps_frame(c: Seq<VideoView>, k: int, s: SectionView)
    ensures
        with_video_from(c, k, s).kind == s.kind,
        with_video_from(c, k, s).mid == s.mid,
        with_video_from(c, k, s).direction == s.direction,
    decreases c.len() - k,
{
    if 0 <= k < c.len() {
        video_keeps_frame(c, k + 1, with_video(c[k], s));
    }
}

proof fn configured_keeps_frame(s: SectionView, c: ConfigView)
    ensures
        configured(s, c).kind == s.kind,
        configured(s, c).mid == s.mid,
        configured(s, c).direction == s.direction,
{
    let muxed = SectionView {
        attributes: if c.offers_rtcp_mux() {
            s.attributes.push(flag("rtcp-mux"@))
        } else {
            s.attributes
        },
        ..s
    };
    let m = SectionView { formats: Seq::empty(), ..muxed };
    audio_keeps_frame(c.audio_codecs(), 0, m);
    video_keeps_frame(c.video_codecs(), 0, m);
}

/// Writing codecs, header extensions and DTLS lines leaves the kind, the mid and the direction of a
/// section.
pub proof fn populating_keeps_frame(
    s: SectionView,
    terms: SectionTerms,
    remote: Option<DescriptionView>,
    c: ConfigView,
    fingerprint: Seq<char>,
)
    ensures
        populated(s, terms, remote, c, fingerprint).kind == s.kind,
        populated(s, terms, remote, c, fingerprint).mid == s.mid,
        populated(s, terms, remote, c, fingerprint).direction == s.direction,
{
    configured_keeps_frame(s, c);
    let a = configured(s, c);
    let found = reinvite_audio(a, terms.sdp_type, terms.has_local, remote, c.audio_codecs());
    if let Some(caps) = found {
        audio_keeps_frame(
            caps,
            0,
            SectionView {
                formats: Seq::empty(),
                attributes: without_keys(a.attributes, codec_keys()),
                ..a
            },
        );
    }
    let b = match found {
        Some(caps) => with_audio(a, caps),
        None => a,
    };
    crate::apt::merging_keeps_frame(stripped(b), remote);
}

/// Writes the codecs, the header extensions and the DTLS lines of a section.
pub fn populate_media_capabilities(
    section: &mut MediaSection,
    terms: &SectionTerms,
    remote: &Option<SessionDescription>,
    config: &RtcConfiguration,
    fingerprint: &str,
)
    ensures
        final(section)@ == populated(
            old(section)@,
            *terms,
            description_opt(*remote),
            config@,
            fingerprint@,
        ),
{
    let ghost s0 = section@;
    let ghost rd = description_opt(*remote);
    let kind = section.kind;
    apply_config(section, config);
    proof {
        configured_keeps_frame(s0, config@);
    }
    let ghost a = section@;
    if let Some(caps) = reinvite_answer_audio_capabilities(
        section,
        terms.sdp_type,
        terms.has_local,
        remote,
        config,
    ) {
        apply_audio_capabilities(section, &caps);
    }
    if terms.sdp_type == SdpType::Answer && kind == MediaKind::Video {
        strip_rtx_from_section(section);
        merge_remote_rtx_into_answer(section, remote);
    }
    let ghost w = with_codecs(s0, terms.sdp_type, terms.has_local, rd, config@);
    assert(section@ == w);
    let offer = terms.sdp_type == SdpType::Offer && config.transport_mode != TransportMode::Rtp;
    let mid = section.mid.clone();
    let mut used = get_remote_extmap_ids(remote, mid.as_str());
    if section.kind == MediaKind::Video {
        let rid = get_remote_extmap_id(
            remote,
            mid.as_str(),
            "urn:ietf:params:rtp-hdrext:sdes:rtp-stream-id",
        );
        let repaired = get_remote_extmap_id(
            remote,
            mid.as_str(),
            "urn:ietf:params:rtp-hdrext:sdes:repaired-rtp-stream-id",
        );
        write_extension(
            &mut section.attributes,
            &mut used,
            rid,
            offer,
            1,
            "urn:ietf:params:rtp-hdrext:sdes:rtp-stream-id",
        );
        write_extension(
            &mut section.attributes,
            &mut used,
            repaired,
            offer,
            2,
            "urn:ietf:params:rtp-hdrext:sdes:repaired-rtp-stream-id",
        );
    }
    let send_time = get_remote_extmap_id(
        remote,
        mid.as_str(),
        "http://www.webrtc.org/experiments/rtp-hdrext/abs-send-time",
    );
    write_extension(
        &mut section.attributes,
        &mut used,
        send_time,
        offer,
        3,
        "http://www.webrtc.org/experiments/rtp-hdrext/abs-send-time",
    );
    if config.sdp_compatibility != SdpCompatibilityMode::LegacySip {
        let mid_id = get_remote_extmap_id(
            remote,
            mid.as_str(),
            "urn:ietf:params:rtp-hdrext:sdes:mid",
        );
        write_extension(
            &mut section.attributes,
            &mut used,
            mid_id,
            offer,
            4,
            "urn:ietf:params:rtp-hdrext:sdes:mid",
        );
    }
    assert(attrs(section.attributes@) == extension_lines(
        w,
        terms.sdp_type,
        rd,
        config@,
    ).attributes);
    if config.transport_mode == TransportMode::WebRtc {
        let setup = if terms.sdp_type == SdpType::Answer {
            match terms.dtls_role {
                Some(false) => "passive",
                _ => "active",
            }
        } else {
            "actpass"
        };
        push_attr(&mut section.attributes, "fingerprint", joined("sha-256 ", fingerprint));
        push_attr(&mut section.attributes, "setup", setup.to_owned());
    }
    assert(section@ =~= populated(s0, *terms, rd, config@, fingerprint@));
}

/// No two extmap lines give the same identifier.
pub open spec fn distinct_extensions(a: Seq<AttributeView>) -> bool {
    forall|i: int, j: int|
        0 <= i < j < a.len() && extension_id(#[trigger] a[i]) is Some ==> extension_id(
            #[trigger] a[j],
        ) != extension_id(a[i])
}

/// Where the other side gives both extensions an identifier, it gives them two.
pub open spec fn told_apart(
    remote: Option<DescriptionView>,
    mid: Seq<char>,
    one: Seq<char>,
    other: Seq<char>,
) -> bool {
    match (remote_extension(remote, mid, one), remote_extension(remote, mid, other)) {
        (Some(a), Some(b)) => format_pt(a) is Some ==> format_pt(a) != format_pt(b),
        _ => true,
    }
}

/// Each extmap line of `a` gives an identifier in use, and one of the other side's only if it was
/// taken over.
spec fn lines_fit(a: Seq<AttributeView>, used: Set<u8>, base: Set<u8>, taken: Set<u8>) -> bool {
    forall|i: int|
        0 <= i < a.len() ==> match #[trigger] extension_id(a[i]) {
            Some(n) => used.contains(n) && (taken.contains(n) || !base.contains(n)),
            None => true,
        }
}

proof fn extension_ids_grow(a: Seq<AttributeView>, k: int, s: Set<u8>)
    ensures
        s.subset_of(extension_ids_from(a, k, s)),
    decreases a.len() - k,
{
    if 0 <= k < a.len() {
        let t = match extension_id(a[k]) {
            Some(id) => s.insert(id),
            None => s,
        };
        extension_ids_grow(a, k + 1, t);
    }
}

proof fn found_id_is_used(a: Seq<AttributeView>, uri: Seq<char>, k: int, s: Set<u8>)
    requires
        extension_in(a, uri, k) is Some,
    ensures
        extension_in(a, uri, k)->0.len() > 0,
        forall|i: int|
            0 <= i < extension_in(a, uri, k)->0.len() ==> !crate::text::is_space(
                #[trigger] extension_in(a, uri, k)->0[i],
            ),
        format_pt(extension_in(a, uri, k)->0) matches Some(n) ==> extension_ids_from(
            a,
            k,
            s,
        ).contains(n),
    decreases a.len() - k,
{
    let t = match extension_id(a[k]) {
        Some(id) => s.insert(id),
        None => s,
    };
    let v = a[k].value;
    if a[k].key == "extmap"@ && v is Some && contains_text(v->0, uri) && words(v->0).len() > 0 {
        crate::text::first_word_is_solid(v->0);
        extension_ids_grow(a, k + 1, t);
        if let Some(n) = format_pt(words(v->0)[0]) {
            assert(t.contains(n));
        }
    } else {
        found_id_is_used(a, uri, k + 1, t);
    }
}

proof fn line_gives_id(id: Seq<char>, uri: Seq<char>)
    requires
        id.len() > 0,
        forall|i: int| 0 <= i < id.len() ==> !crate::text::is_space(#[trigger] id[i]),
    ensures
        extension_id(extmap_line(id, uri)) == format_pt(id),
{
    crate::text::leading_word(id, uri);
}

/// The identifiers taken over, with that of one more extension.
spec fn with_taken(taken: Set<u8>, remote: Option<Seq<char>>) -> Set<u8> {
    match remote {
        Some(id) => match format_pt(id) {
            Some(n) => taken.insert(n),
            None => taken,
        },
        None => taken,
    }
}

proof fn step_keeps_distinct(
    s: ExtensionState,
    remote: Option<DescriptionView>,
    mid: Seq<char>,
    uri: Seq<char>,
    offer: bool,
    preferred: u8,
    taken: Set<u8>,
    free: u8,
)
    requires
        distinct_extensions(s.attributes),
        lines_fit(s.attributes, s.used, remote_extension_ids(remote, mid), taken),
        remote_extension_ids(remote, mid).subset_of(s.used),
        1 <= preferred <= 14,
        1 <= free <= 14,
        !s.used.contains(free),
        remote_extension(remote, mid, uri) matches Some(id) ==> (format_pt(id) matches Some(n)
            ==> !taken.contains(n)),
    ensures
        ({
            let found = remote_extension(remote, mid, uri);
            let t = extension_step(s, found, offer, preferred, uri);
            &&& distinct_extensions(t.attributes)
            &&& lines_fit(
                t.attributes,
                t.used,
                remote_extension_ids(remote, mid),
                with_taken(taken, found),
            )
            &&& remote_extension_ids(remote, mid).subset_of(t.used)
            &&& (t.used == s.used || exists|n: u8| #[trigger] s.used.insert(n) == t.used)
        }),
{
    let base = remote_extension_ids(remote, mid);
    let found = remote_extension(remote, mid, uri);
    let t = extension_step(s, found, offer, preferred, uri);
    let now = with_taken(taken, found);
    let l = s.attributes.len() as int;
    match found {
        Some(id) => {
            let d = remote->0;
            let a = d.media[first(d.media, with_mid(mid))->0].attributes;
            found_id_is_used(a, uri, 0, Set::empty());
            line_gives_id(id, uri);
            let line = extmap_line(id, uri);
            assert(t.attributes[l] == line);
            assert forall|i: int, j: int|
                0 <= i < j < t.attributes.len() && extension_id(
                    #[trigger] t.attributes[i],
                ) is Some implies extension_id(#[trigger] t.attributes[j]) != extension_id(
                t.attributes[i],
            ) by {
                assert(t.attributes[i] == s.attributes[i]);
                if j < l {
                    assert(t.attributes[j] == s.attributes[j]);
                } else {
                    assert(extension_id(s.attributes[i]) is Some);
                }
            }
            assert forall|i: int| 0 <= i < t.attributes.len() implies match #[trigger] extension_id(
                t.attributes[i],
            ) {
                Some(n) => t.used.contains(n) && (now.contains(n) || !base.contains(n)),
                None => true,
            } by {
                if i < l {
                    assert(t.attributes[i] == s.attributes[i]);
                    assert(extension_id(s.attributes[i]) == extension_id(t.attributes[i]));
                }
            }
        },
        None => {
            if offer {
                let n = claimed(s.used, preferred);
                claimed_id_is_fresh(s.used, preferred, free);
                crate::text::decimal_is_solid(n as nat);
                line_gives_id(decimal(n as nat), uri);
                crate::text::number_of_decimal(n as nat, 255);
                let line = extmap_line(decimal(n as nat), uri);
                assert(extension_id(line) == Some(n));
                assert(t.attributes[l] == line);
                assert(t.used == s.used.insert(n));
                assert forall|i: int, j: int|
                    0 <= i < j < t.attributes.len() && extension_id(
                        #[trigger] t.attributes[i],
                    ) is Some implies extension_id(#[trigger] t.attributes[j]) != extension_id(
                    t.attributes[i],
                ) by {
                    assert(t.attributes[i] == s.attributes[i]);
                    if j < l {
                        assert(t.attributes[j] == s.attributes[j]);
                    } else {
                        assert(extension_id(s.attributes[i]) is Some);
                    }
                }
                assert forall|i: int|
                    0 <= i < t.attributes.len() implies match #[trigger] extension_id(
                    t.attributes[i],
                ) {
                    Some(n) => t.used.contains(n) && (now.contains(n) || !base.contains(n)),
                    None => true,
                } by {
                    if i < l {
                        assert(t.attributes[i] == s.attributes[i]);
                        assert(extension_id(s.attributes[i]) == extension_id(t.attributes[i]));
                    }
                }
            }
        },
    }
}

proof fn feedback_adds_no_extmap(
    pt: u8,
    fbs: Seq<Seq<char>>,
    k: int,
    acc: Seq<AttributeView>,
)
    requires
        without_extmaps(acc),
    ensures
        without_extmaps(feedback_from(pt, fbs, k, acc)),
    decreases fbs.len() - k,
{
    extmap_key_is_apart();
    if 0 <= k < fbs.len() {
        feedback_adds_no_extmap(pt, fbs, k + 1, acc.push(attr("rtcp-fb"@, typed(pt, fbs[k]))));
    }
}

proof fn audio_adds_no_extmap(c: Seq<AudioView>, k: int, s: SectionView)
    requires
        without_extmaps(s.attributes),
    ensures
        without_extmaps(with_audio_from(c, k, s).attributes),
    decreases c.len() - k,
{
    extmap_key_is_apart();
    if 0 <= k < c.len() {
        let x = c[k];
        let a = with_fmtp(
            x.payload_type,
            x.fmtp,
            s.attributes.push(attr("rtpmap"@, typed(x.payload_type, audio_encoding(x)))),
        );
        feedback_adds_no_extmap(x.payload_type, x.rtcp_fbs, 0, a);
        audio_adds_no_extmap(
            c,
            k + 1,
            SectionView {
                formats: s.formats.push(decimal(x.payload_type as nat)),
                attributes: audio_lines(x, s.attributes),
                ..s
            },
        );
    }
}

proof fn video_adds_no_extmap(c: Seq<VideoView>, k: int, s: SectionView)
    requires
        without_extmaps(s.attributes),
    ensures
        without_extmaps(with_video_from(c, k, s).attributes),
    decreases c.len() - k,
{
    extmap_key_is_apart();
    if 0 <= k < c.len() {
        let x = c[k];
        let a = with_fmtp(
            x.payload_type,
            x.fmtp,
            s.attributes.push(
                attr("rtpmap"@, typed(x.payload_type, encoding(x.codec_name, x.clock_rate))),
            ),
        );
        feedback_adds_no_extmap(x.payload_type, x.rtcp_fbs, 0, a);
        video_adds_no_extmap(c, k + 1, with_video(x, s));
    }
}

proof fn codecs_add_no_extmap(
    s: SectionView,
    sdp_type: SdpType,
    has_local: bool,
    remote: Option<DescriptionView>,
    c: ConfigView,
)
    requires
        without_extmaps(s.attributes),
    ensures
        without_extmaps(with_codecs(s, sdp_type, has_local, remote, c).attributes),
{
    extmap_key_is_apart();
    let muxed = SectionView {
        attributes: if c.offers_rtcp_mux() {
            s.attributes.push(flag("rtcp-mux"@))
        } else {
            s.attributes
        },
        ..s
    };
    let m = SectionView { formats: Seq::empty(), ..muxed };
    audio_adds_no_extmap(c.audio_codecs(), 0, m);
    video_adds_no_extmap(c.video_codecs(), 0, m);
    let a = configured(s, c);
    let found = reinvite_audio(a, sdp_type, has_local, remote, c.audio_codecs());
    let b = match found {
        Some(caps) => with_audio(a, caps),
        None => a,
    };
    if let Some(caps) = found {
        kept_without_extmaps(a.attributes, crate::sdp::not_keyed(codec_keys()));
        audio_adds_no_extmap(
            caps,
            0,
            SectionView {
                formats: Seq::empty(),
                attributes: without_keys(a.attributes, codec_keys()),
                ..a
            },
        );
    }
    merging_adds_no_extmap(b, remote);
}

/// The other side tells its header extensions apart in the section with a mid, and leaves the
/// one-byte identifiers in `free` to us.
pub open spec fn leaves_ids(remote: Option<DescriptionView>, mid: Seq<char>, free: Seq<u8>) -> bool {
    &&& told_apart(remote, mid, rid_uri(), repaired_rid_uri())
    &&& told_apart(remote, mid, rid_uri(), abs_send_time_uri())
    &&& told_apart(remote, mid, rid_uri(), sdes_mid_uri())
    &&& told_apart(remote, mid, repaired_rid_uri(), abs_send_time_uri())
    &&& told_apart(remote, mid, repaired_rid_uri(), sdes_mid_uri())
    &&& told_apart(remote, mid, abs_send_time_uri(), sdes_mid_uri())
    &&& free.no_duplicates()
    &&& forall|i: int|
        0 <= i < free.len() ==> 1 <= #[trigger] free[i] <= 14 && !remote_extension_ids(
            remote,
            mid,
        ).contains(free[i])
}

/// No section that is populated gives one identifier to two header extensions, as long as the other
/// side does not either and leaves four of the one-byte identifiers free.
pub proof fn extension_ids_are_distinct(
    s: SectionView,
    terms: SectionTerms,
    remote: Option<DescriptionView>,
    c: ConfigView,
    fingerprint: Seq<char>,
    free: Seq<u8>,
)
    requires
        without_extmaps(s.attributes),
        leaves_ids(remote, s.mid, free),
        free.len() == 4,
    ensures
        distinct_extensions(populated(s, terms, remote, c, fingerprint).attributes),
{
    let a = with_codecs(s, terms.sdp_type, terms.has_local, remote, c);
    codecs_add_no_extmap(s, terms.sdp_type, terms.has_local, remote, c);
    populating_keeps_frame(s, terms, remote, c, fingerprint);
    extension_lines_are_distinct(a, terms.sdp_type, remote, c, free);
    extmap_key_is_apart();
    let b = extension_lines(a, terms.sdp_type, remote, c).attributes;
    let d = populated(s, terms, remote, c, fingerprint).attributes;
    assert forall|i: int, j: int|
        0 <= i < j < d.len() && extension_id(#[trigger] d[i]) is Some implies extension_id(
        #[trigger] d[j],
    ) != extension_id(d[i]) by {
        assert(i < b.len());
        assert(d[i] == b[i]);
        if j < b.len() {
            assert(d[j] == b[j]);
        }
    }
}

proof fn extension_lines_are_distinct(
    s: SectionView,
    sdp_type: SdpType,
    remote: Option<DescriptionView>,
    c: ConfigView,
    free: Seq<u8>,
)
    requires
        without_extmaps(s.attributes),
        leaves_ids(remote, s.mid, free),
        free.len() == 4,
    ensures
        distinct_extensions(extension_lines(s, sdp_type, remote, c).attributes),
{
    let offer = sdp_type == SdpType::Offer && c.transport_mode != TransportMode::Rtp;
    let base = remote_extension_ids(remote, s.mid);
    let f0 = free[0];
    let f1 = free[1];
    let f2 = free[2];
    let f3 = free[3];
    let s0 = ExtensionState { attributes: s.attributes, used: base };
    let k0 = Set::<u8>::empty();
    assert(lines_fit(s0.attributes, s0.used, base, k0));
    let ra = remote_extension(remote, s.mid, rid_uri());
    let rb = remote_extension(remote, s.mid, repaired_rid_uri());
    let rc = remote_extension(remote, s.mid, abs_send_time_uri());
    let rd = remote_extension(remote, s.mid, sdes_mid_uri());
    let (s1, k1, s2, k2) = if s.kind == MediaKind::Video {
        let a = extension_step(s0, ra, offer, 1, rid_uri());
        let ka = with_taken(k0, ra);
        step_keeps_distinct(s0, remote, s.mid, rid_uri(), offer, 1, k0, f0);
        let fa = if a.used.contains(f0) {
            f1
        } else {
            f0
        };
        step_keeps_distinct(a, remote, s.mid, repaired_rid_uri(), offer, 2, ka, fa);
        let b = extension_step(a, rb, offer, 2, repaired_rid_uri());
        (a, ka, b, with_taken(ka, rb))
    } else {
        (s0, k0, s0, k0)
    };
    let fb = if !s2.used.contains(f0) {
        f0
    } else if !s2.used.contains(f1) {
        f1
    } else {
        f2
    };
    step_keeps_distinct(s2, remote, s.mid, abs_send_time_uri(), offer, 3, k2, fb);
    let s3 = extension_step(s2, rc, offer, 3, abs_send_time_uri());
    let k3 = with_taken(k2, rc);
    let fc = if !s3.used.contains(f0) {
        f0
    } else if !s3.used.contains(f1) {
        f1
    } else if !s3.used.contains(f2) {
        f2
    } else {
        f3
    };
    step_keeps_distinct(s3, remote, s.mid, sdes_mid_uri(), offer, 4, k3, fc);
}

/// An offered format has a codec that is known and that is also one of ours.
spec fn is_shared(s: SectionView, local: Seq<AudioView>, j: int) -> bool {
    &&& 0 <= j < s.formats.len()
    &&& format_pt(s.formats[j]) matches Some(pt) && payload_map_of(s).contains_key(pt) && exists|
        i: int,
    |
        0 <= i < local.len() && is_same_codec(#[trigger] local[i], payload_map_of(s)[pt])
}

/// One of our codecs is the one that is offered: its name, whatever the case, its clock rate and
/// its channels, where an offer that names none means one.
pub open spec fn is_same_codec(local: AudioView, offered: CodecView) -> bool {
    &&& same_ignoring_case(local.codec_name, offered.name)
    &&& local.clock_rate == offered.clock_rate
    &&& local.channels == (if offered.channels == 0 {
        1
    } else {
        offered.channels
    })
}

/// A codec answers an offered format of a section.
pub open spec fn answers_format(s: SectionView, local: Seq<AudioView>, c: AudioView, j: int) -> bool {
    &&& 0 <= j < s.formats.len()
    &&& number(s.formats[j], 255) == Some(c.payload_type as nat)
    &&& payload_map_of(s).contains_key(c.payload_type)
    &&& c.codec_name == payload_map_of(s)[c.payload_type].name
    &&& c.clock_rate == payload_map_of(s)[c.payload_type].clock_rate
    &&& c.channels == payload_map_of(s)[c.payload_type].channels || (c.channels == 1
        && payload_map_of(s)[c.payload_type].channels == 0)
    &&& exists|i: int|
        0 <= i < local.len() && same_ignoring_case((#[trigger] local[i]).codec_name, c.codec_name)
            && local[i].clock_rate == c.clock_rate && local[i].channels == c.channels
            && local[i].rtcp_fbs == c.rtcp_fbs && c.fmtp == (if same_ignoring_case(
            c.codec_name,
            "telephone-event"@,
        ) && fmtp_of(s.attributes, c.payload_type) is Some {
            fmtp_of(s.attributes, c.payload_type)
        } else {
            local[i].fmtp
        })
}

/// The codecs answer offered formats, in the order of the offer.
pub open spec fn answers_in_order(
    s: SectionView,
    local: Seq<AudioView>,
    a: Seq<AudioView>,
    at: Seq<int>,
) -> bool {
    &&& at.len() == a.len()
    &&& forall|i: int| 0 <= i < a.len() ==> answers_format(s, local, #[trigger] a[i], at[i])
    &&& forall|i: int, j: int| 0 <= i < j < at.len() ==> #[trigger] at[i] < #[trigger] at[j]
}

/// The codecs that a section offers are those of its formats, in order.
spec fn offers_in_order(s: SectionView, o: Seq<AudioView>, at: Seq<int>) -> bool {
    &&& at.len() == o.len()
    &&& forall|i: int|
        0 <= i < o.len() ==> 0 <= #[trigger] at[i] < s.formats.len() && format_pt(
            s.formats[at[i]],
        ) == Some(o[i].payload_type) && payload_map_of(s).contains_key(o[i].payload_type)
            && o[i] == offered_audio(s, o[i].payload_type)
    &&& forall|i: int, j: int| 0 <= i < j < at.len() ==> #[trigger] at[i] < #[trigger] at[j]
}

proof fn offer_is_in_order(s: SectionView, k: int, acc: Seq<AudioView>, at: Seq<int>) -> (r: Seq<
    int,
>)
    requires
        0 <= k <= s.formats.len(),
        offers_in_order(s, acc, at),
        forall|i: int| 0 <= i < at.len() ==> #[trigger] at[i] < k,
    ensures
        offers_in_order(s, audio_offer_from(s, k, acc), r),
        at.len() <= r.len(),
        forall|i: int| 0 <= i < at.len() ==> #[trigger] r[i] == at[i],
        forall|j: int|
            k <= j < s.formats.len() && format_pt(#[trigger] s.formats[j]) is Some
                && payload_map_of(s).contains_key(format_pt(s.formats[j])->0) ==> r.contains(j),
    decreases s.formats.len() - k,
{
    if k < s.formats.len() {
        let known = format_pt(s.formats[k]) is Some && payload_map_of(s).contains_key(
            format_pt(s.formats[k])->0,
        );
        if known {
            let c = offered_audio(s, format_pt(s.formats[k])->0);
            let r = offer_is_in_order(s, k + 1, acc.push(c), at.push(k));
            assert forall|i: int| 0 <= i < at.len() implies #[trigger] r[i] == at[i] by {
                assert(r[i] == at.push(k)[i]);
            }
            assert(r[at.len() as int] == at.push(k)[at.len() as int]);
            assert(r.contains(k));
            r
        } else {
            offer_is_in_order(s, k + 1, acc, at)
        }
    } else {
        at
    }
}

proof fn answer_is_in_order(
    s: SectionView,
    local: Seq<AudioView>,
    o: Seq<AudioView>,
    from: Seq<int>,
    k: int,
    acc: Seq<AudioView>,
    at: Seq<int>,
) -> (r: Seq<int>)
    requires
        0 <= k <= o.len(),
        offers_in_order(s, o, from),
        answers_in_order(s, local, acc, at),
        forall|i: int, j: int|
            0 <= i < at.len() && k <= j < from.len() ==> #[trigger] at[i] < #[trigger] from[j],
    ensures
        answers_in_order(s, local, audio_answer_from(o, local, k, acc), r),
        at.len() <= r.len(),
        forall|i: int| 0 <= i < at.len() ==> #[trigger] r[i] == at[i],
        forall|j: int|
            k <= j < from.len() && is_shared(s, local, #[trigger] from[j]) ==> r.contains(from[j]),
    decreases o.len() - k,
{
    if k < o.len() {
        let q = same_audio_codec(o[k]);
        crate::search::first_from_facts(local, q, 0);
        match first(local, q) {
            Some(i) => {
                let c = answered_audio(local[i], o[k]);
                assert(from[k] < s.formats.len());
                assert(answers_format(s, local, c, from[k])) by {
                    assert(q(local[i]));
                }
                let next = acc.push(c);
                let more = at.push(from[k]);
                assert forall|x: int, y: int|
                    0 <= x < more.len() && k + 1 <= y < from.len() implies #[trigger] more[x]
                    < #[trigger] from[y] by {
                    if x == at.len() {
                        assert(from[k] < from[y]);
                    } else {
                        assert(more[x] == at[x]);
                    }
                }
                assert forall|x: int, y: int| 0 <= x < y < more.len() implies #[trigger] more[x]
                    < #[trigger] more[y] by {
                    assert(more[x] == at[x]);
                    if y == at.len() {
                        assert(at[x] < from[k]);
                    } else {
                        assert(more[y] == at[y]);
                    }
                }
                assert forall|x: int| 0 <= x < next.len() implies answers_format(
                    s,
                    local,
                    #[trigger] next[x],
                    more[x],
                ) by {
                    if x < acc.len() {
                        assert(answers_format(s, local, acc[x], at[x]));
                    }
                }
                let r = answer_is_in_order(s, local, o, from, k + 1, next, more);
                assert forall|x: int| 0 <= x < at.len() implies #[trigger] r[x] == at[x] by {
                    assert(r[x] == more[x]);
                }
                assert(r[at.len() as int] == more[at.len() as int]);
                assert(r.contains(from[k]));
                r
            },
            None => {
                assert(!is_shared(s, local, from[k])) by {
                    if is_shared(s, local, from[k]) {
                        let i = choose|i: int|
                            0 <= i < local.len() && is_same_codec(
                                #[trigger] local[i],
                                payload_map_of(s)[o[k].payload_type],
                            );
                        assert(q(local[i]));
                    }
                }
                answer_is_in_order(s, local, o, from, k + 1, acc, at)
            },
        }
    } else {
        at
    }
}

/// The codecs of the answer to a re-offer are taken from the offer, in its order: each has the
/// payload type of an offered format and the name, the clock rate and the channels that are offered
/// under it, and is one of ours. What is offered and is one of ours is answered.
pub proof fn answers_take_offered_codecs(s: SectionView, local: Seq<AudioView>) -> (at: Seq<int>)
    ensures
        answers_in_order(s, local, audio_answer(s, local), at),
        forall|j: int, pt: u8, i: int|
            #![trigger number(s.formats[j], 255), is_same_codec(local[i], payload_map_of(s)[pt])]
            0 <= j < s.formats.len() && number(s.formats[j], 255) == Some(pt as nat)
                && payload_map_of(s).contains_key(pt) && 0 <= i < local.len() && is_same_codec(
                local[i],
                payload_map_of(s)[pt],
            ) ==> at.contains(j),
{
    let from = offer_is_in_order(s, 0, Seq::empty(), Seq::empty());
    let at = answer_is_in_order(
        s,
        local,
        audio_offer(s),
        from,
        0,
        Seq::empty(),
        Seq::empty(),
    );
    assert forall|j: int, pt: u8, i: int|
        #![trigger number(s.formats[j], 255), is_same_codec(local[i], payload_map_of(s)[pt])]
        0 <= j < s.formats.len() && number(s.formats[j], 255) == Some(pt as nat) && payload_map_of(
            s,
        ).contains_key(pt) && 0 <= i < local.len() && is_same_codec(
            local[i],
            payload_map_of(s)[pt],
        ) implies at.contains(j) by {
        assert(format_pt(s.formats[j]) == Some(pt));
        assert(from.contains(j));
        let k = from.index_of(j);
        assert(is_shared(s, local, from[k]));
    }
    at
}

/// Writing what the configuration offers leaves the kind and the mid of a section.
pub proof fn audio_section_keeps_frame(s: SectionView, c: ConfigView)
    ensures
        configured(s, c).kind == s.kind,
        configured(s, c).mid == s.mid,
{
    configured_keeps_frame(s, c);
}

proof fn lowest_free_id(used: Set<u8>, k: int, id: u8)
    requires
        1 <= k <= 15,
    ensures
        free_id_from(used, k) matches Some(n) ==> k <= n <= 14 && !used.contains(n),
        free_id_from(used, k) matches Some(n) ==> (k <= id < n ==> used.contains(id)),
        free_id_from(used, k) is None ==> (k <= id <= 14 ==> used.contains(id)),
    decreases 15 - k,
{
    if k <= 14 {
        lowest_free_id(used, k + 1, id);
    }
}

/// An identifier that is claimed is the preferred one where that is free, else the lowest free one
/// of a one-byte header extension; it is in use before only where all of these are.
pub proof fn claimed_identifiers_are_free(used: Set<u8>, preferred: u8, id: u8)
    ensures
        !used.contains(preferred) ==> claimed(used, preferred) == preferred,
        used.contains(preferred) && 1 <= id <= 14 && !used.contains(id) ==> 1 <= claimed(
            used,
            preferred,
        ) <= id && !used.contains(claimed(used, preferred)),
        used.contains(preferred) && (forall|x: u8| 1 <= x <= 14 ==> used.contains(x)) ==> claimed(
            used,
            preferred,
        ) == preferred,
{
    lowest_free_id(used, 1, id);
    if let Some(n) = free_id_from(used, 1) {
        lowest_free_id(used, 1, n);
    }
}

proof fn first_extension_counts_from(a: Seq<AttributeView>, uri: Seq<char>, k: int, i: int, line: Seq<char>)
    requires
        0 <= k <= i < a.len(),
        a[i] == (AttributeView { key: "extmap"@, value: Some(line) }),
        contains_text(line, uri),
        words(line).len() > 0,
        forall|j: int|
            0 <= j < i && (#[trigger] a[j]).key == "extmap"@ ==> a[j].value is Some
                && !contains_text(a[j].value->0, uri),
    ensures
        extension_in(a, uri, k) == Some(words(line)[0]),
    decreases i - k,
{
    if k < i {
        first_extension_counts_from(a, uri, k + 1, i, line);
    }
}

/// The other side gives an extension the identifier that the first extmap line that names it begins
/// with, in the first section with the mid.
pub proof fn first_extmap_line_counts(
    d: DescriptionView,
    n: int,
    i: int,
    line: Seq<char>,
    uri: Seq<char>,
)
    requires
        0 <= n < d.media.len(),
        forall|j: int| 0 <= j < n ==> (#[trigger] d.media[j]).mid != d.media[n].mid,
        0 <= i < d.media[n].attributes.len(),
        d.media[n].attributes[i] == (AttributeView { key: "extmap"@, value: Some(line) }),
        contains_text(line, uri),
        words(line).len() > 0,
        forall|j: int|
            0 <= j < i && (#[trigger] d.media[n].attributes[j]).key == "extmap"@
                ==> d.media[n].attributes[j].value is Some && !contains_text(
                d.media[n].attributes[j].value->0,
                uri,
            ),
    ensures
        remote_extension(Some(d), d.media[n].mid, uri) == Some(words(line)[0]),
        remote_extension(None, d.media[n].mid, uri) is None,
{
    let mid = d.media[n].mid;
    crate::search::first_from_facts(d.media, with_mid(mid), 0);
    assert(with_mid(mid)(d.media[n]));
    let x = first(d.media, with_mid(mid))->0;
    assert(with_mid(mid)(d.media[x]));
    assert(x == n);
    first_extension_counts_from(d.media[n].attributes, uri, 0, i, line);
}

/// Lines have an extmap line that gives an extension an identifier.
pub open spec fn maps_extension(a: Seq<AttributeView>, id: Seq<char>, uri: Seq<char>) -> bool {
    a.contains(AttributeView { key: "extmap"@, value: Some(id + " "@ + uri) })
}

proof fn extension_is_written(
    s: ExtensionState,
    remote: Option<Seq<char>>,
    offer: bool,
    preferred: u8,
    uri: Seq<char>,
    x: AttributeView,
)
    ensures
        ({
            let r = extension_step(s, remote, offer, preferred, uri);
            &&& s.attributes.contains(x) ==> r.attributes.contains(x)
            &&& remote matches Some(id) ==> maps_extension(r.attributes, id, uri) && r.used
                == s.used
            &&& remote is None && offer ==> maps_extension(
                r.attributes,
                decimal(claimed(s.used, preferred) as nat),
                uri,
            ) && r.used == s.used.insert(claimed(s.used, preferred))
            &&& remote is None && !offer ==> r == s
        }),
{
    let r = extension_step(s, remote, offer, preferred, uri);
    if s.attributes.contains(x) {
        let i = s.attributes.index_of(x);
        assert(r.attributes[i] == x);
    }
    if remote is Some || offer {
        assert(r.attributes.last() == r.attributes[r.attributes.len() - 1]);
        assert(r.attributes.contains(r.attributes.last()));
    }
}

/// A section maps the extensions that the other side maps, under its identifiers: the send time,
/// for all but legacy peers the mid, for video the simulcast layers and their repairs. Beyond that
/// an offer maps the send time and the mid under identifiers of its own, an answer and plain RTP
/// nothing; the lines that were there stay.
pub proof fn extensions_are_echoed(
    s: SectionView,
    sdp_type: SdpType,
    remote: Option<DescriptionView>,
    c: ConfigView,
    x: AttributeView,
)
    ensures
        ({
            let r = extension_lines(s, sdp_type, remote, c).attributes;
            let time = "http://www.webrtc.org/experiments/rtp-hdrext/abs-send-time"@;
            let mid = "urn:ietf:params:rtp-hdrext:sdes:mid"@;
            let layer = "urn:ietf:params:rtp-hdrext:sdes:rtp-stream-id"@;
            let repaired = "urn:ietf:params:rtp-hdrext:sdes:repaired-rtp-stream-id"@;
            let legacy = c.sdp_compatibility == SdpCompatibilityMode::LegacySip;
            let offer = sdp_type == SdpType::Offer && c.transport_mode != TransportMode::Rtp;
            &&& s.attributes.contains(x) ==> r.contains(x)
            &&& remote_extension(remote, s.mid, time) matches Some(id) ==> maps_extension(
                r,
                id,
                time,
            )
            &&& remote_extension(remote, s.mid, mid) matches Some(id) ==> (!legacy
                ==> maps_extension(r, id, mid))
            &&& remote_extension(remote, s.mid, layer) matches Some(id) ==> (s.kind
                == MediaKind::Video ==> maps_extension(r, id, layer))
            &&& remote_extension(remote, s.mid, repaired) matches Some(id) ==> (s.kind
                == MediaKind::Video ==> maps_extension(r, id, repaired))
            &&& offer && remote_extension(remote, s.mid, time) is None ==> exists|id: u8| #[trigger]
                maps_extension(r, decimal(id as nat), time)
            &&& offer && !legacy && remote_extension(remote, s.mid, mid) is None
                ==> exists|id: u8| #[trigger] maps_extension(r, decimal(id as nat), mid)
            &&& offer && s.kind == MediaKind::Video && remote is None ==> maps_extension(
                r,
                "1"@,
                layer,
            ) && maps_extension(r, "2"@, repaired) && maps_extension(r, "3"@, time)
            &&& offer && s.kind != MediaKind::Video && remote is None ==> maps_extension(
                r,
                "3"@,
                time,
            ) && (!legacy ==> maps_extension(r, "4"@, mid))
            &&& !offer && remote is None ==> r == s.attributes
        }),
{
    let offer = sdp_type == SdpType::Offer && c.transport_mode != TransportMode::Rtp;
    let s0 = ExtensionState {
        attributes: s.attributes,
        used: remote_extension_ids(remote, s.mid),
    };
    let la = remote_extension(remote, s.mid, rid_uri());
    let lb = remote_extension(remote, s.mid, repaired_rid_uri());
    let lt = remote_extension(remote, s.mid, abs_send_time_uri());
    let lm = remote_extension(remote, s.mid, sdes_mid_uri());
    let a = extension_step(s0, la, offer, 1, rid_uri());
    let b = extension_step(a, lb, offer, 2, repaired_rid_uri());
    let s1 = if s.kind == MediaKind::Video {
        b
    } else {
        s0
    };
    let s2 = extension_step(s1, lt, offer, 3, abs_send_time_uri());
    let s3 = extension_step(s2, lm, offer, 4, sdes_mid_uri());
    let xa = if la is Some {
        extmap_line(la->0, rid_uri())
    } else {
        extmap_line(decimal(claimed(s0.used, 1) as nat), rid_uri())
    };
    let xb = if lb is Some {
        extmap_line(lb->0, repaired_rid_uri())
    } else {
        extmap_line(decimal(claimed(a.used, 2) as nat), repaired_rid_uri())
    };
    let xt = if lt is Some {
        extmap_line(lt->0, abs_send_time_uri())
    } else {
        extmap_line(decimal(claimed(s1.used, 3) as nat), abs_send_time_uri())
    };
    extension_is_written(s0, la, offer, 1, rid_uri(), x);
    extension_is_written(a, lb, offer, 2, repaired_rid_uri(), x);
    extension_is_written(a, lb, offer, 2, repaired_rid_uri(), xa);
    extension_is_written(s1, lt, offer, 3, abs_send_time_uri(), x);
    extension_is_written(s1, lt, offer, 3, abs_send_time_uri(), xa);
    extension_is_written(s1, lt, offer, 3, abs_send_time_uri(), xb);
    extension_is_written(s2, lm, offer, 4, sdes_mid_uri(), x);
    extension_is_written(s2, lm, offer, 4, sdes_mid_uri(), xa);
    extension_is_written(s2, lm, offer, 4, sdes_mid_uri(), xb);
    extension_is_written(s2, lm, offer, 4, sdes_mid_uri(), xt);
    reveal_strlit("1");
    reveal_strlit("2");
    reveal_strlit("3");
    reveal_strlit("4");
    assert(decimal(1) =~= "1"@);
    assert(decimal(2) =~= "2"@);
    assert(decimal(3) =~= "3"@);
    assert(decimal(4) =~= "4"@);
    let r = extension_lines(s, sdp_type, remote, c).attributes;
    let time = "http://www.webrtc.org/experiments/rtp-hdrext/abs-send-time"@;
    let mid = "urn:ietf:params:rtp-hdrext:sdes:mid"@;
    let legacy = c.sdp_compatibility == SdpCompatibilityMode::LegacySip;
    if offer && lt is None {
        assert(s2.attributes.contains(xt));
        assert(r.contains(xt));
        assert(maps_extension(r, decimal(claimed(s1.used, 3) as nat), time));
    }
    if offer && !legacy && lm is None {
        assert(maps_extension(r, decimal(claimed(s2.used, 4) as nat), mid));
    }
    if offer && remote is None {
        assert(s0.used =~= Set::<u8>::empty());
        assert(claimed(s0.used, 1) == 1);
        assert(!a.used.contains(2));
        assert(claimed(a.used, 2) == 2);
        assert(!s1.used.contains(3));
        assert(!s2.used.contains(4));
        if s.kind == MediaKind::Video {
            assert(a.attributes.contains(xa) && b.attributes.contains(xb));
            assert(r.contains(xa) && r.contains(xb));
        }
    }
}

proof fn first_parameters_count(a: Seq<AttributeView>, i: int, pt: u8, line: Seq<char>)
    requires
        0 <= i < a.len(),
        a[i] == (AttributeView { key: "fmtp"@, value: Some(line) }),
        words(line).len() > 0,
        number(words(line)[0], 255) == Some(pt as nat),
        forall|j: int|
            0 <= j < i && (#[trigger] a[j]).key == "fmtp"@ && a[j].value is Some && words(
                a[j].value->0,
            ).len() > 0 ==> number(words(a[j].value->0)[0], 255) != Some(pt as nat),
    ensures
        fmtp_of(a, pt) == rest_after(line, ' '),
{
    crate::search::first_from_facts(a, fmtp_for(pt), 0);
    assert(fmtp_for(pt)(a[i]));
    let x = first(a, fmtp_for(pt))->0;
    assert(fmtp_for(pt)(a[x]));
    if x < i {
        assert(words(a[x].value->0).len() > 0);
    }
}

/// The parameters of a payload type are what follows its number in the first fmtp line for it.
pub proof fn parameters_follow_the_payload_type(
    a: Seq<AttributeView>,
    i: int,
    pt: u8,
    parameters: Seq<char>,
)
    requires
        0 <= i < a.len(),
        a[i] == (AttributeView {
            key: "fmtp"@,
            value: Some(decimal(pt as nat) + " "@ + parameters),
        }),
        forall|j: int|
            0 <= j < i && (#[trigger] a[j]).key == "fmtp"@ && a[j].value is Some && words(
                a[j].value->0,
            ).len() > 0 ==> number(words(a[j].value->0)[0], 255) != Some(pt as nat),
    ensures
        fmtp_of(a, pt) == Some(parameters),
{
    let d = decimal(pt as nat);
    let line = d + " "@ + parameters;
    crate::text::decimal_is_solid(pt as nat);
    crate::text::number_of_decimal(pt as nat, 255);
    crate::text::leading_word(d, parameters);
    first_parameters_count(a, i, pt, line);
    reveal_strlit(" ");
    assert(" "@ =~= seq![' ']);
    assert(line =~= d.push(' ') + parameters);
    if d.contains(' ') {
        let j = d.index_of(' ');
        assert(crate::text::is_space(d[j]));
    }
    crate::text::rest_follows_the_first_separator(d, parameters, ' ');
}

/// The audio codecs that a section offers are those of its formats, in order, each under its
/// payload type, with the name and the clock rate that the section gives it; a format with a known
/// codec is not left out.
pub proof fn offered_codecs_are_read_in_order(s: SectionView) -> (at: Seq<int>)
    ensures
        at.len() == audio_offer(s).len(),
        forall|i: int|
            0 <= i < at.len() ==> 0 <= #[trigger] at[i] < s.formats.len() && number(
                s.formats[at[i]],
                255,
            ) == Some(audio_offer(s)[i].payload_type as nat),
        forall|i: int|
            0 <= i < audio_offer(s).len() ==> {
                let c = #[trigger] audio_offer(s)[i];
                let d = payload_map_of(s)[c.payload_type];
                &&& c.codec_name == d.name && c.clock_rate == d.clock_rate
                &&& c.channels == d.channels || (d.channels == 0 && c.channels == 1)
                &&& c.fmtp == fmtp_of(s.attributes, c.payload_type)
                &&& c.rtcp_fbs.len() == 0
            },
        forall|i: int, j: int| 0 <= i < j < at.len() ==> #[trigger] at[i] < #[trigger] at[j],
        forall|j: int, pt: u8|
            0 <= j < s.formats.len() && number(#[trigger] s.formats[j], 255) == Some(pt as nat)
                && #[trigger] payload_map_of(s).contains_key(pt) ==> at.contains(j),
{
    let at = offer_is_in_order(s, 0, Seq::empty(), Seq::empty());
    assert forall|i: int| 0 <= i < audio_offer(s).len() implies ({
        let c = #[trigger] audio_offer(s)[i];
        let d = payload_map_of(s)[c.payload_type];
        &&& c.codec_name == d.name && c.clock_rate == d.clock_rate
        &&& c.channels == d.channels || (d.channels == 0 && c.channels == 1)
        &&& c.fmtp == fmtp_of(s.attributes, c.payload_type)
        &&& c.rtcp_fbs.len() == 0
    }) by {
        assert(0 <= at[i] < s.formats.len());
    }
    at
}

} // verus!

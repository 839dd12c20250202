//! The configuration of a connection.

use crate::sdp::MediaKind;
use crate::text::clone_text_opt;
use crate::text::clone_texts;
use crate::text::has_prefix;
use crate::text::same_text;
use crate::text::starts_with;
use crate::text::text_opt;
use crate::text::texts;
use vstd::prelude::*;

verus! {

/// How media is carried.
#[derive(Clone, Copy, PartialEq, Eq, Structural, Debug)]
pub enum TransportMode {
    /// ICE and DTLS-SRTP.
    WebRtc,
    /// A direct transport with SDES-SRTP.
    Srtp,
    /// A direct transport with plain RTP.
    Rtp,
}

/// Which peers the descriptions are written for.
#[derive(Clone, Copy, PartialEq, Eq, Structural, Debug)]
pub enum SdpCompatibilityMode {
    Standard,
    /// SIP endpoints that take neither `a=mid`, BUNDLE nor `a=rtcp-mux`.
    LegacySip,
}

/// Whether RTCP on the RTP port is offered.
#[derive(Clone, Copy, PartialEq, Eq, Structural, Debug)]
pub enum RtcpMuxPolicy {
    Negotiate,
    Require,
}

/// An audio codec that the connection can be configured with.
#[derive(Debug)]
pub struct AudioCapability {
    pub payload_type: u8,
    pub codec_name: String,
    pub clock_rate: u32,
    pub channels: u8,
    pub fmtp: Option<String>,
    pub rtcp_fbs: Vec<String>,
}

/// The model of an audio codec.
#[verifier::ext_equal]
pub struct AudioView {
    pub payload_type: u8,
    pub codec_name: Seq<char>,
    pub clock_rate: u32,
    pub channels: u8,
    pub fmtp: Option<Seq<char>>,
    pub rtcp_fbs: Seq<Seq<char>>,
}

impl View for AudioCapability {
    type V = AudioView;

    open spec fn view(&self) -> AudioView {
        AudioView {
            payload_type: self.payload_type,
            codec_name: self.codec_name@,
            clock_rate: self.clock_rate,
            channels: self.channels,
            fmtp: text_opt(self.fmtp),
            rtcp_fbs: texts(self.rtcp_fbs@),
        }
    }
}

/// The model of a list of audio codecs.
pub open spec fn audio_views(v: Seq<AudioCapability>) -> Seq<AudioView> {
    v.map_values(|c: AudioCapability| c@)
}

impl Clone for AudioCapability {
    fn clone(&self) -> (r: Self)
        ensures
            r@ == self@,
    {
        AudioCapability {
            payload_type: self.payload_type,
            codec_name: self.codec_name.clone(),
            clock_rate: self.clock_rate,
            channels: self.channels,
            fmtp: clone_text_opt(&self.fmtp),
            rtcp_fbs: clone_texts(&self.rtcp_fbs),
        }
    }
}

/// An audio codec without feedback.
pub open spec fn plain_audio(
    payload_type: u8,
    codec_name: Seq<char>,
    clock_rate: u32,
    channels: u8,
    fmtp: Option<Seq<char>>,
) -> AudioView {
    AudioView {
        payload_type,
        codec_name,
        clock_rate,
        channels,
        fmtp,
        rtcp_fbs: Seq::empty(),
    }
}

fn audio(
    payload_type: u8,
    codec_name: &str,
    clock_rate: u32,
    channels: u8,
    fmtp: Option<String>,
) -> (r: AudioCapability)
    ensures
        r@ == plain_audio(payload_type, codec_name@, clock_rate, channels, text_opt(fmtp)),
{
    let r = AudioCapability {
        payload_type,
        codec_name: codec_name.to_owned(),
        clock_rate,
        channels,
        fmtp,
        rtcp_fbs: Vec::new(),
    };
    assert(r@.rtcp_fbs =~= Seq::<Seq<char>>::empty());
    r
}

/// Opus in stereo.
pub open spec fn opus_view() -> AudioView {
    plain_audio(111, "opus"@, 48000, 2, Some("minptime=10;useinbandfec=1"@))
}

impl AudioCapability {
    /// Opus in stereo.
    pub fn opus() -> (r: Self)
        ensures
            r@ == opus_view(),
    {
        audio(111, "opus", 48000, 2, Some("minptime=10;useinbandfec=1".to_owned()))
    }

    /// G.711 mu-law.
    pub fn pcmu() -> (r: Self)
        ensures
            r@ == plain_audio(0, "PCMU"@, 8000, 1, None),
    {
        audio(0, "PCMU", 8000, 1, None)
    }

    /// G.711 A-law.
    pub fn pcma() -> (r: Self)
        ensures
            r@ == plain_audio(8, "PCMA"@, 8000, 1, None),
    {
        audio(8, "PCMA", 8000, 1, None)
    }

    /// G.722.
    pub fn g722() -> (r: Self)
        ensures
            r@ == plain_audio(9, "G722"@, 8000, 1, None),
    {
        audio(9, "G722", 8000, 1, None)
    }

    /// Telephone events.
    pub fn telephone_event() -> (r: Self)
        ensures
            r@ == plain_audio(101, "telephone-event"@, 8000, 1, Some("0-16"@)),
    {
        audio(101, "telephone-event", 8000, 1, Some("0-16".to_owned()))
    }
}

impl Default for AudioCapability {
    fn default() -> (r: Self)
        ensures
            r@ == opus_view(),
    {
        Self::opus()
    }
}

/// Copies a list of audio codecs.
pub fn clone_audio(v: &Vec<AudioCapability>) -> (r: Vec<AudioCapability>)
    ensures
        audio_views(r@) == audio_views(v@),
{
    let mut out: Vec<AudioCapability> = Vec::new();
    let mut i: usize = 0;
    while i < v.len()
        invariant
            i <= v@.len(),
            audio_views(out@) == audio_views(v@).take(i as int),
        decreases v@.len() - i,
    {
        let ghost before = out@;
        let c = v[i].clone();
        out.push(c);
        assert(audio_views(out@) =~= audio_views(before).push(c@));
        i += 1;
        assert(audio_views(v@).take(i as int) =~= audio_views(v@).take(i - 1).push(
            audio_views(v@)[i - 1],
        ));
    }
    assert(audio_views(v@).take(i as int) =~= audio_views(v@));
    out
}

/// A video codec that the connection can be configured with.
#[derive(Debug)]
pub struct VideoCapability {
    pub payload_type: u8,
    pub codec_name: String,
    pub clock_rate: u32,
    pub fmtp: Option<String>,
    pub rtcp_fbs: Vec<String>,
    /// The payload type of the retransmission stream, where one is offered.
    pub rtx_payload_type: Option<u8>,
}

/// The model of a video codec.
#[verifier::ext_equal]
pub struct VideoView {
    pub payload_type: u8,
    pub codec_name: Seq<char>,
    pub clock_rate: u32,
    pub fmtp: Option<Seq<char>>,
    pub rtcp_fbs: Seq<Seq<char>>,
    pub rtx_payload_type: Option<u8>,
}

impl View for VideoCapability {
    type V = VideoView;

    open spec fn view(&self) -> VideoView {
        VideoView {
            payload_type: self.payload_type,
            codec_name: self.codec_name@,
            clock_rate: self.clock_rate,
            fmtp: text_opt(self.fmtp),
            rtcp_fbs: texts(self.rtcp_fbs@),
            rtx_payload_type: self.rtx_payload_type,
        }
    }
}

/// The model of a list of video codecs.
pub open spec fn video_views(v: Seq<VideoCapability>) -> Seq<VideoView> {
    v.map_values(|c: VideoCapability| c@)
}

impl Clone for VideoCapability {
    fn clone(&self) -> (r: Self)
        ensures
            r@ == self@,
    {
        VideoCapability {
            payload_type: self.payload_type,
            codec_name: self.codec_name.clone(),
            clock_rate: self.clock_rate,
            fmtp: clone_text_opt(&self.fmtp),
            rtcp_fbs: clone_texts(&self.rtcp_fbs),
            rtx_payload_type: self.rtx_payload_type,
        }
    }
}

/// The feedback that video is offered with.
pub open spec fn video_feedback() -> Seq<Seq<char>> {
    seq!["nack"@, "nack pli"@, "ccm fir"@, "goog-remb"@, "transport-cc"@]
}

fn video_fbs() -> (r: Vec<String>)
    ensures
        texts(r@) == video_feedback(),
{
    let mut v: Vec<String> = Vec::new();
    v.push("nack".to_owned());
    v.push("nack pli".to_owned());
    v.push("ccm fir".to_owned());
    v.push("goog-remb".to_owned());
    v.push("transport-cc".to_owned());
    assert(texts(v@) =~= video_feedback());
    v
}

/// VP8.
pub open spec fn vp8_view(rtx: Option<u8>) -> VideoView {
    VideoView {
        payload_type: 96,
        codec_name: "VP8"@,
        clock_rate: 90000,
        fmtp: None,
        rtcp_fbs: video_feedback(),
        rtx_payload_type: rtx,
    }
}

impl VideoCapability {
    /// VP8 with a retransmission stream.
    pub fn vp8_with_rtx(rtx_payload_type: u8) -> (r: Self)
        ensures
            r@ == vp8_view(Some(rtx_payload_type)),
    {
        VideoCapability {
            payload_type: 96,
            codec_name: "VP8".to_owned(),
            clock_rate: 90000,
            fmtp: None,
            rtcp_fbs: video_fbs(),
            rtx_payload_type: Some(rtx_payload_type),
        }
    }

    /// H.264, constrained baseline.
    pub fn h264() -> (r: Self)
        ensures
            r@ == (VideoView {
                payload_type: 103,
                codec_name: "H264"@,
                clock_rate: 90000,
                fmtp: Some(
                    "level-asymmetry-allowed=1;packetization-mode=1;profile-level-id=42e01f"@,
                ),
                rtcp_fbs: video_feedback(),
                rtx_payload_type: None,
            }),
    {
        VideoCapability {
            payload_type: 103,
            codec_name: "H264".to_owned(),
            clock_rate: 90000,
            fmtp: Some(
                "level-asymmetry-allowed=1;packetization-mode=1;profile-level-id=42e01f".to_owned(),
            ),
            rtcp_fbs: video_fbs(),
            rtx_payload_type: None,
        }
    }
}

impl Default for VideoCapability {
    fn default() -> (r: Self)
        ensures
            r@ == vp8_view(None),
    {
        VideoCapability {
            payload_type: 96,
            codec_name: "VP8".to_owned(),
            clock_rate: 90000,
            fmtp: None,
            rtcp_fbs: video_fbs(),
            rtx_payload_type: None,
        }
    }
}

/// The data-channel settings.
#[derive(Clone, Copy, PartialEq, Eq, Structural, Debug)]
pub struct ApplicationCapability {
    pub sctp_port: u16,
}

/// What the connection may negotiate.
#[derive(Debug)]
pub struct MediaCapabilities {
    pub audio: Vec<AudioCapability>,
    pub video: Vec<VideoCapability>,
    pub application: Option<ApplicationCapability>,
}

/// The model of what may be negotiated.
pub struct CapabilitiesView {
    pub audio: Seq<AudioView>,
    pub video: Seq<VideoView>,
    pub application: Option<ApplicationCapability>,
}

impl View for MediaCapabilities {
    type V = CapabilitiesView;

    open spec fn view(&self) -> CapabilitiesView {
        CapabilitiesView {
            audio: audio_views(self.audio@),
            video: video_views(self.video@),
            application: self.application,
        }
    }
}

/// The model of optional capabilities.
pub open spec fn capabilities_opt(c: Option<MediaCapabilities>) -> Option<CapabilitiesView> {
    match c {
        Some(x) => Some(x@),
        None => None,
    }
}

/// The configuration of a connection.
#[derive(Debug)]
pub struct RtcConfiguration {
    pub transport_mode: TransportMode,
    pub sdp_compatibility: SdpCompatibilityMode,
    pub rtcp_mux_policy: RtcpMuxPolicy,
    pub media_capabilities: Option<MediaCapabilities>,
    /// The first SSRC that is handed out.
    pub ssrc_start: u32,
    /// The canonical name of our streams.
    pub cname: Option<String>,
    /// The packets that a sender keeps for retransmission.
    pub nack_buffer_size: usize,
    /// Whether a direct transport follows the source address of what it receives.
    pub enable_latching: bool,
    /// Whether a plain-RTP description carries ICE attributes for full agents.
    pub enable_ice_lite: bool,
    /// The address that descriptions advertise.
    pub external_ip: Option<String>,
    /// How long one candidate pair may take to be nominated, in milliseconds.
    pub nomination_timeout: u64,
    /// How long a lost ICE connection may take to come back, in milliseconds.
    pub ice_disconnect_grace: u64,
}

/// The model of a configuration.
pub struct ConfigView {
    pub transport_mode: TransportMode,
    pub sdp_compatibility: SdpCompatibilityMode,
    pub rtcp_mux_policy: RtcpMuxPolicy,
    pub media_capabilities: Option<CapabilitiesView>,
    pub ssrc_start: u32,
    pub cname: Option<Seq<char>>,
    pub nack_buffer_size: usize,
    pub enable_latching: bool,
    pub enable_ice_lite: bool,
    pub external_ip: Option<Seq<char>>,
    pub nomination_timeout: u64,
    pub ice_disconnect_grace: u64,
}

impl View for RtcConfiguration {
    type V = ConfigView;

    open spec fn view(&self) -> ConfigView {
        ConfigView {
            transport_mode: self.transport_mode,
            sdp_compatibility: self.sdp_compatibility,
            rtcp_mux_policy: self.rtcp_mux_policy,
            media_capabilities: capabilities_opt(self.media_capabilities),
            ssrc_start: self.ssrc_start,
            cname: text_opt(self.cname),
            nack_buffer_size: self.nack_buffer_size,
            enable_latching: self.enable_latching,
            enable_ice_lite: self.enable_ice_lite,
            external_ip: text_opt(self.external_ip),
            nomination_timeout: self.nomination_timeout,
            ice_disconnect_grace: self.ice_disconnect_grace,
        }
    }
}

impl Default for RtcConfiguration {
    fn default() -> (r: Self)
        ensures
            r.transport_mode == TransportMode::WebRtc,
            r.sdp_compatibility == SdpCompatibilityMode::Standard,
            r.rtcp_mux_policy == RtcpMuxPolicy::Require,
            r.media_capabilities is None,
            r.cname is None,
            r.external_ip is None,
            !r.enable_latching,
            !r.enable_ice_lite,
            r.ssrc_start == 10000,
            r.nack_buffer_size == 200,
            r.nomination_timeout == 5000,
            r.ice_disconnect_grace == 10000,
    {
        RtcConfiguration {
            transport_mode: TransportMode::WebRtc,
            sdp_compatibility: SdpCompatibilityMode::Standard,
            rtcp_mux_policy: RtcpMuxPolicy::Require,
            media_capabilities: None,
            ssrc_start: 10000,
            cname: None,
            nack_buffer_size: 200,
            enable_latching: false,
            enable_ice_lite: false,
            external_ip: None,
            nomination_timeout: 5000,
            ice_disconnect_grace: 10000,
        }
    }
}

impl ConfigView {
    /// Media goes over a direct transport, without ICE.
    pub open spec fn is_direct(self) -> bool {
        self.transport_mode is Rtp || self.transport_mode is Srtp
    }

    /// The descriptions offer RTCP on the RTP port.
    pub open spec fn offers_rtcp_mux(self) -> bool {
        self.rtcp_mux_policy is Require && !(self.sdp_compatibility is LegacySip)
    }

    /// The audio codecs: those configured, or the default where there are none.
    pub open spec fn audio_codecs(self) -> Seq<AudioView> {
        match self.media_capabilities {
            Some(c) => if c.audio.len() == 0 {
                seq![opus_view()]
            } else {
                c.audio
            },
            None => seq![opus_view()],
        }
    }

    /// The video codecs: those configured, or the default where there are none.
    pub open spec fn video_codecs(self) -> Seq<VideoView> {
        match self.media_capabilities {
            Some(c) => if c.video.len() == 0 {
                seq![vp8_view(None)]
            } else {
                c.video
            },
            None => seq![vp8_view(None)],
        }
    }

    /// The SCTP port of data channels.
    pub open spec fn sctp_port(self) -> u16 {
        match self.media_capabilities {
            Some(c) => match c.application {
                Some(a) => a.sctp_port,
                None => 5000,
            },
            None => 5000,
        }
    }

    /// The streams of a kind are recovered by NACK: some codec of the kind asks for it.
    pub open spec fn nack_enabled(self, kind: MediaKind) -> bool {
        match self.media_capabilities {
            Some(c) => match kind {
                MediaKind::Audio => exists|i: int|
                    0 <= i < c.audio.len() && enables_nack((#[trigger] c.audio[i]).rtcp_fbs),
                MediaKind::Video => exists|i: int|
                    0 <= i < c.video.len() && enables_nack((#[trigger] c.video[i]).rtcp_fbs),
                _ => false,
            },
            None => match kind {
                MediaKind::Audio => enables_nack(opus_view().rtcp_fbs),
                MediaKind::Video => enables_nack(vp8_view(None).rtcp_fbs),
                _ => false,
            },
        }
    }
}

/// One feedback entry asks for generic NACK: `nack`, alone or with a parameter.
pub open spec fn is_nack(fb: Seq<char>) -> bool {
    fb == "nack"@ || starts_with(fb, "nack "@)
}

/// Some feedback entry asks for generic NACK.
pub open spec fn enables_nack(fbs: Seq<Seq<char>>) -> bool {
    exists|i: int| 0 <= i < fbs.len() && is_nack(#[trigger] fbs[i])
}

/// Whether a feedback list asks for generic NACK.
pub fn rtcp_fb_enables_nack(fbs: &Vec<String>) -> (r: bool)
    ensures
        r == enables_nack(texts(fbs@)),
{
    let mut i: usize = 0;
    while i < fbs.len()
        invariant
            i <= fbs@.len(),
            forall|j: int| 0 <= j < i ==> !is_nack(#[trigger] texts(fbs@)[j]),
        decreases fbs@.len() - i,
    {
        assert(texts(fbs@)[i as int] == fbs@[i as int]@);
        if same_text(fbs[i].as_str(), "nack") || has_prefix(fbs[i].as_str(), "nack ") {
            return true;
        }
        i += 1;
    }
    false
}

fn any_audio_nack(v: &Vec<AudioCapability>) -> (r: bool)
    ensures
        r == exists|i: int|
            0 <= i < audio_views(v@).len() && enables_nack(
                (#[trigger] audio_views(v@)[i]).rtcp_fbs,
            ),
{
    let mut i: usize = 0;
    while i < v.len()
        invariant
            i <= v@.len(),
            forall|j: int|
                0 <= j < i ==> !enables_nack((#[trigger] audio_views(v@)[j]).rtcp_fbs),
        decreases v@.len() - i,
    {
        assert(audio_views(v@)[i as int] == v@[i as int]@);
        if rtcp_fb_enables_nack(&v[i].rtcp_fbs) {
            return true;
        }
        i += 1;
    }
    false
}

fn any_video_nack(v: &Vec<VideoCapability>) -> (r: bool)
    ensures
        r == exists|i: int|
            0 <= i < video_views(v@).len() && enables_nack(
                (#[trigger] video_views(v@)[i]).rtcp_fbs,
            ),
{
    let mut i: usize = 0;
    while i < v.len()
        invariant
            i <= v@.len(),
            forall|j: int|
                0 <= j < i ==> !enables_nack((#[trigger] video_views(v@)[j]).rtcp_fbs),
        decreases v@.len() - i,
    {
        assert(video_views(v@)[i as int] == v@[i as int]@);
        if rtcp_fb_enables_nack(&v[i].rtcp_fbs) {
            return true;
        }
        i += 1;
    }
    false
}

impl RtcConfiguration {
    /// Whether media goes over a direct transport.
    pub fn is_direct(&self) -> (r: bool)
        ensures
            r == self@.is_direct(),
    {
        self.transport_mode == TransportMode::Rtp || self.transport_mode == TransportMode::Srtp
    }

    /// Whether descriptions offer RTCP on the RTP port.
    pub fn offers_rtcp_mux(&self) -> (r: bool)
        ensures
            r == self@.offers_rtcp_mux(),
    {
        self.rtcp_mux_policy == RtcpMuxPolicy::Require && self.sdp_compatibility
            != SdpCompatibilityMode::LegacySip
    }

    /// The audio codecs.
    pub fn configured_audio_capabilities(&self) -> (r: Vec<AudioCapability>)
        ensures
            audio_views(r@) == self@.audio_codecs(),
    {
        if let Some(caps) = &self.media_capabilities {
            if caps.audio.len() > 0 {
                return clone_audio(&caps.audio);
            }
        }
        let mut v: Vec<AudioCapability> = Vec::new();
        v.push(AudioCapability::default());
        assert(audio_views(v@) =~= seq![opus_view()]);
        v
    }

    /// The video codecs.
    pub fn configured_video_capabilities(&self) -> (r: Vec<VideoCapability>)
        ensures
            video_views(r@) == self@.video_codecs(),
    {
        if let Some(caps) = &self.media_capabilities {
            if caps.video.len() > 0 {
                return clone_video(&caps.video);
            }
        }
        let mut v: Vec<VideoCapability> = Vec::new();
        v.push(VideoCapability::default());
        assert(video_views(v@) =~= seq![vp8_view(None)]);
        v
    }

    /// The SCTP port of data channels.
    pub fn sctp_port(&self) -> (r: u16)
        ensures
            r == self@.sctp_port(),
    {
        match &self.media_capabilities {
            Some(c) => match c.application {
                Some(a) => a.sctp_port,
                None => 5000,
            },
            None => 5000,
        }
    }

    /// Whether the streams of a kind are recovered by NACK.
    pub fn nack_enabled(&self, kind: MediaKind) -> (r: bool)
        ensures
            r == self@.nack_enabled(kind),
    {
        match &self.media_capabilities {
            Some(c) => match kind {
                MediaKind::Audio => any_audio_nack(&c.audio),
                MediaKind::Video => any_video_nack(&c.video),
                _ => false,
            },
            None => match kind {
                MediaKind::Audio => rtcp_fb_enables_nack(&AudioCapability::default().rtcp_fbs),
                MediaKind::Video => rtcp_fb_enables_nack(&VideoCapability::default().rtcp_fbs),
                _ => false,
            },
        }
    }
}

/// Copies a list of video codecs.
pub fn clone_video(v: &Vec<VideoCapability>) -> (r: Vec<VideoCapability>)
    ensures
        video_views(r@) == video_views(v@),
{
    let mut out: Vec<VideoCapability> = Vec::new();
    let mut i: usize = 0;
    while i < v.len()
        invariant
            i <= v@.len(),
            video_views(out@) == video_views(v@).take(i as int),
        decreases v@.len() - i,
    {
        let ghost before = out@;
        let c = v[i].clone();
        out.push(c);
        assert(video_views(out@) =~= video_views(before).push(c@));
        i += 1;
        assert(video_views(v@).take(i as int) =~= video_views(v@).take(i - 1).push(
            video_views(v@)[i - 1],
        ));
    }
    assert(video_views(v@).take(i as int) =~= video_views(v@));
    out
}

/// The configured codecs are those that are used; where a kind has none, it is Opus in stereo for
/// audio and VP8 for video. Data channels use the configured port, else 5000.
pub proof fn configured_codecs_are_used(c: ConfigView, caps: CapabilitiesView)
    ensures
        c.media_capabilities == Some(caps) && caps.audio.len() > 0 ==> c.audio_codecs()
            == caps.audio,
        c.media_capabilities == Some(caps) && caps.video.len() > 0 ==> c.video_codecs()
            == caps.video,
        c.media_capabilities is None || c.media_capabilities->0.audio.len() == 0
            ==> c.audio_codecs().len() == 1 && c.audio_codecs()[0].payload_type == 111
            && c.audio_codecs()[0].codec_name == "opus"@ && c.audio_codecs()[0].clock_rate == 48000
            && c.audio_codecs()[0].channels == 2 && c.audio_codecs()[0].fmtp == Some(
            "minptime=10;useinbandfec=1"@,
        ) && c.audio_codecs()[0].rtcp_fbs.len() == 0,
        c.media_capabilities is None || c.media_capabilities->0.video.len() == 0
            ==> c.video_codecs().len() == 1 && c.video_codecs()[0].payload_type == 96
            && c.video_codecs()[0].codec_name == "VP8"@ && c.video_codecs()[0].clock_rate == 90000
            && c.video_codecs()[0].fmtp is None && c.video_codecs()[0].rtx_payload_type is None
            && c.video_codecs()[0].rtcp_fbs == seq![
            "nack"@,
            "nack pli"@,
            "ccm fir"@,
            "goog-remb"@,
            "transport-cc"@,
        ],
        c.media_capabilities == Some(caps) && caps.application is Some ==> c.sctp_port()
            == caps.application->0.sctp_port,
        c.media_capabilities is None || c.media_capabilities->0.application is None
            ==> c.sctp_port() == 5000,
{
}

/// Media is direct in the modes without ICE; RTCP is offered on the RTP port where the policy
/// requires it, but not to legacy SIP endpoints.
pub proof fn modes_are_told_apart(c: ConfigView)
    ensures
        c.is_direct() <==> c.transport_mode != TransportMode::WebRtc,
        c.offers_rtcp_mux() <==> c.rtcp_mux_policy == RtcpMuxPolicy::Require && c.sdp_compatibility
            != SdpCompatibilityMode::LegacySip,
{
}

/// A codec with a feedback entry `nack`, alone or with a parameter, turns recovery on for its
/// kind; without any entry that begins with `nack` it stays off. Without configured capabilities
/// it is on for video alone.
pub proof fn feedback_turns_recovery_on(
    c: ConfigView,
    caps: CapabilitiesView,
    i: int,
    j: int,
    parameter: Seq<char>,
)
    requires
        c.media_capabilities == Some(caps),
    ensures
        0 <= i < caps.audio.len() && 0 <= j < caps.audio[i].rtcp_fbs.len()
            && (caps.audio[i].rtcp_fbs[j] == "nack"@ || caps.audio[i].rtcp_fbs[j] == "nack "@
            + parameter) ==> c.nack_enabled(MediaKind::Audio),
        0 <= i < caps.video.len() && 0 <= j < caps.video[i].rtcp_fbs.len()
            && (caps.video[i].rtcp_fbs[j] == "nack"@ || caps.video[i].rtcp_fbs[j] == "nack "@
            + parameter) ==> c.nack_enabled(MediaKind::Video),
        (forall|x: int, y: int|
            0 <= x < caps.audio.len() && 0 <= y < caps.audio[x].rtcp_fbs.len() ==> !starts_with(
                #[trigger] caps.audio[x].rtcp_fbs[y],
                "nack"@,
            )) ==> !c.nack_enabled(MediaKind::Audio),
        (forall|x: int, y: int|
            0 <= x < caps.video.len() && 0 <= y < caps.video[x].rtcp_fbs.len() ==> !starts_with(
                #[trigger] caps.video[x].rtcp_fbs[y],
                "nack"@,
            )) ==> !c.nack_enabled(MediaKind::Video),
        !c.nack_enabled(MediaKind::Application),
        !(ConfigView { media_capabilities: None, ..c }).nack_enabled(MediaKind::Audio),
        (ConfigView { media_capabilities: None, ..c }).nack_enabled(MediaKind::Video),
{
    reveal_strlit("nack");
    reveal_strlit("nack ");
    let s = "nack "@ + parameter;
    assert(s.take(5) =~= "nack "@);
    assert(is_nack(s));
    assert(is_nack("nack"@));
    assert forall|f: Seq<char>| is_nack(f) implies starts_with(f, "nack"@) by {
        if starts_with(f, "nack "@) {
            assert(f.take(4) =~= "nack"@) by {
                assert("nack "@.take(4) =~= "nack"@);
                assert(f.take(4) =~= f.take(5).take(4));
            }
        } else {
            assert(f.take(4) =~= f);
        }
    }
    if 0 <= i < caps.audio.len() && 0 <= j < caps.audio[i].rtcp_fbs.len() && is_nack(
        caps.audio[i].rtcp_fbs[j],
    ) {
        assert(enables_nack(caps.audio[i].rtcp_fbs));
    }
    if 0 <= i < caps.video.len() && 0 <= j < caps.video[i].rtcp_fbs.len() && is_nack(
        caps.video[i].rtcp_fbs[j],
    ) {
        assert(enables_nack(caps.video[i].rtcp_fbs));
    }
    let v = vp8_view(None).rtcp_fbs;
    assert(v[0] == "nack"@);
    assert(enables_nack(v));
}

} // verus!

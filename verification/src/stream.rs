//! The streams that a media section announces.

use crate::sdp::attrs;
use crate::sdp::Attribute;
use crate::sdp::AttributeView;
use crate::codec::read_ssrc;
use crate::codec::ssrc_of;
use crate::search::first;
use crate::search::first_from;
use crate::text::contains_text;
use crate::text::has_part;
use crate::text::has_prefix;
use crate::text::number;
use crate::text::parse_u32;
use crate::text::parse_u8;
use crate::text::pieces;
use crate::text::same_text;
use crate::text::split_pieces;
use crate::text::split_words;
use crate::text::starts_with;
use crate::text::texts;
use crate::text::words;
use crate::apt::leading_pt;
use crate::transceiver::abs_send_time_uri;
use crate::capability::rid_uri;
use vstd::prelude::*;

verus! {

/// A retransmission group: `a=ssrc-group:FID <primary> <rtx>`.
pub open spec fn fid_group(a: AttributeView) -> Option<(u32, Option<u32>)> {
    match a.value {
        Some(v) => {
            let w = words(v);
            if a.key == "ssrc-group"@ && starts_with(v, "FID"@) && w.len() >= 3 && number(
                w[1],
                0xffff_ffff,
            ) is Some {
                Some(
                    (
                        number(w[1], 0xffff_ffff)->0 as u32,
                        match number(w[2], 0xffff_ffff) {
                            Some(n) => Some(n as u32),
                            None => None,
                        },
                    ),
                )
            } else {
                None
            }
        },
        None => None,
    }
}

/// The primary SSRC and the retransmission SSRC that the groups from index `k` on name, the last
/// of each.
pub open spec fn fid_from(
    a: Seq<AttributeView>,
    k: int,
    primary: Option<u32>,
    rtx: Option<u32>,
) -> (Option<u32>, Option<u32>)
    decreases a.len() - k,
{
    if k < 0 || k >= a.len() {
        (primary, rtx)
    } else {
        match fid_group(a[k]) {
            Some(g) => fid_from(
                a,
                k + 1,
                Some(g.0),
                if g.1 is Some {
                    g.1
                } else {
                    rtx
                },
            ),
            None => fid_from(a, k + 1, primary, rtx),
        }
    }
}

/// The words `send`.
pub open spec fn is_send() -> spec_fn(Seq<char>) -> bool {
    |w: Seq<char>| w == "send"@
}

/// The layers that a simulcast line says are sent: `send <rid>;<rid>..`.
pub open spec fn sent_layers(v: Seq<char>) -> Seq<Seq<char>> {
    let w = words(v);
    match first(w, is_send()) {
        Some(i) => if i + 1 < w.len() {
            pieces(w[i + 1], ';')
        } else {
            Seq::empty()
        },
        None => Seq::empty(),
    }
}

/// The model of what a section announces.
#[verifier::ext_equal]
pub struct StreamView {
    pub ssrc: Option<u32>,
    pub rtx_ssrc: Option<u32>,
    pub layers: Seq<Seq<char>>,
    pub rid_extension: Option<u8>,
    pub send_time_extension: Option<u8>,
}

/// What a section announces.
#[derive(Debug)]
pub struct StreamInfo {
    /// The SSRC of the media.
    pub ssrc: Option<u32>,
    /// The SSRC of its retransmissions.
    pub rtx_ssrc: Option<u32>,
    /// The simulcast layers.
    pub layers: Vec<String>,
    /// The identifier of the extension that names the layer.
    pub rid_extension: Option<u8>,
    /// The identifier of the extension that carries the send time.
    pub send_time_extension: Option<u8>,
}

impl View for StreamInfo {
    type V = StreamView;

    open spec fn view(&self) -> StreamView {
        StreamView {
            ssrc: self.ssrc,
            rtx_ssrc: self.rtx_ssrc,
            layers: texts(self.layers@),
            rid_extension: self.rid_extension,
            send_time_extension: self.send_time_extension,
        }
    }
}

/// What is known after one more line. With a retransmission group only its primary SSRC counts,
/// without one the first SSRC.
pub open spec fn stream_step(a: AttributeView, primary: Option<u32>, s: StreamView) -> StreamView {
    match a.value {
        None => s,
        Some(v) => if a.key == "ssrc"@ {
            match ssrc_of(a) {
                Some(n) => match primary {
                    Some(p) => if n == p {
                        StreamView { ssrc: Some(n), ..s }
                    } else {
                        s
                    },
                    None => if s.ssrc is None {
                        StreamView { ssrc: Some(n), ..s }
                    } else {
                        s
                    },
                },
                None => s,
            }
        } else if a.key == "simulcast"@ {
            StreamView { layers: sent_layers(v), ..s }
        } else if a.key == "extmap"@ {
            if contains_text(v, rid_uri()) {
                if leading_pt(v) is Some {
                    StreamView { rid_extension: leading_pt(v), ..s }
                } else {
                    s
                }
            } else if contains_text(v, abs_send_time_uri()) && leading_pt(v) is Some {
                StreamView { send_time_extension: leading_pt(v), ..s }
            } else {
                s
            }
        } else {
            s
        },
    }
}

/// What is known after the lines from index `k` on.
pub open spec fn stream_from(
    a: Seq<AttributeView>,
    k: int,
    primary: Option<u32>,
    s: StreamView,
) -> StreamView
    decreases a.len() - k,
{
    if k < 0 || k >= a.len() {
        s
    } else {
        stream_from(a, k + 1, primary, stream_step(a[k], primary, s))
    }
}

/// What a section announces.
pub open spec fn stream_of(a: Seq<AttributeView>) -> StreamView {
    let fid = fid_from(a, 0, None, None);
    stream_from(
        a,
        0,
        fid.0,
        StreamView {
            ssrc: None,
            rtx_ssrc: fid.1,
            layers: Seq::empty(),
            rid_extension: None,
            send_time_extension: None,
        },
    )
}

fn read_fid(a: &Attribute) -> (r: Option<(u32, Option<u32>)>)
    ensures
        r == fid_group(a@),
{
    let v = match &a.value {
        Some(v) => v,
        None => {
            return None;
        },
    };
    if !same_text(a.key.as_str(), "ssrc-group") || !has_prefix(v.as_str(), "FID") {
        return None;
    }
    let w = split_words(v.as_str());
    assert(texts(w@).len() == w@.len());
    if w.len() < 3 {
        return None;
    }
    assert(texts(w@)[1] == w@[1]@ && texts(w@)[2] == w@[2]@);
    match parse_u32(w[1].as_str()) {
        Some(primary) => Some((primary, parse_u32(w[2].as_str()))),
        None => None,
    }
}

fn read_layers(v: &str) -> (r: Vec<String>)
    ensures
        texts(r@) == sent_layers(v@),
{
    let w = split_words(v);
    let ghost x = texts(w@);
    let mut i: usize = 0;
    while i < w.len()
        invariant
            i <= w@.len(),
            x == texts(w@),
            x == words(v@),
            first(x, is_send()) == first_from(x, is_send(), i as int),
        decreases w@.len() - i,
    {
        assert(x[i as int] == w@[i as int]@);
        if same_text(w[i].as_str(), "send") {
            if i + 1 < w.len() {
                assert(x[i + 1] == w@[i + 1]@);
                return split_pieces(w[i + 1].as_str(), ';');
            }
            let none: Vec<String> = Vec::new();
            assert(texts(none@) =~= Seq::<Seq<char>>::empty());
            return none;
        }
        i += 1;
    }
    let none: Vec<String> = Vec::new();
    assert(texts(none@) =~= Seq::<Seq<char>>::empty());
    none
}

fn read_leading(v: &str) -> (r: Option<u8>)
    ensures
        r == leading_pt(v@),
{
    let w = split_words(v);
    assert(texts(w@).len() == w@.len());
    if w.len() == 0 {
        return None;
    }
    assert(texts(w@)[0] == w@[0]@);
    parse_u8(w[0].as_str())
}

fn stream_line(a: &Attribute, primary: Option<u32>, s: &mut StreamInfo)
    ensures
        final(s)@ == stream_step(a@, primary, old(s)@),
{
    let v = match &a.value {
        Some(v) => v,
        None => {
            return;
        },
    };
    let key = a.key.as_str();
    if same_text(key, "ssrc") {
        if let Some(n) = read_ssrc(a) {
            match primary {
                Some(p) => {
                    if n == p {
                        s.ssrc = Some(n);
                    }
                },
                None => {
                    if s.ssrc.is_none() {
                        s.ssrc = Some(n);
                    }
                },
            }
        }
    } else if same_text(key, "simulcast") {
        s.layers = read_layers(v.as_str());
    } else if same_text(key, "extmap") {
        if has_part(v.as_str(), "urn:ietf:params:rtp-hdrext:sdes:rtp-stream-id") {
            let id = read_leading(v.as_str());
            if id.is_some() {
                s.rid_extension = id;
            }
        } else if has_part(
            v.as_str(),
            "http://www.webrtc.org/experiments/rtp-hdrext/abs-send-time",
        ) {
            let id = read_leading(v.as_str());
            if id.is_some() {
                s.send_time_extension = id;
            }
        }
    }
}

/// Reads what a section announces.
pub fn read_stream(v: &Vec<Attribute>) -> (r: StreamInfo)
    ensures
        r@ == stream_of(attrs(v@)),
{
    let ghost a = attrs(v@);
    let mut primary: Option<u32> = None;
    let mut rtx: Option<u32> = None;
    let mut i: usize = 0;
    while i < v.len()
        invariant
            i <= v@.len(),
            a == attrs(v@),
            fid_from(a, 0, None, None) == fid_from(a, i as int, primary, rtx),
        decreases v@.len() - i,
    {
        assert(a[i as int] == v@[i as int]@);
        if let Some(g) = read_fid(&v[i]) {
            primary = Some(g.0);
            if g.1.is_some() {
                rtx = g.1;
            }
        }
        i += 1;
    }
    let mut s = StreamInfo {
        ssrc: None,
        rtx_ssrc: rtx,
        layers: Vec::new(),
        rid_extension: None,
        send_time_extension: None,
    };
    assert(s@.layers =~= Seq::<Seq<char>>::empty());
    let ghost start = s@;
    let mut k: usize = 0;
    while k < v.len()
        invariant
            k <= v@.len(),
            a == attrs(v@),
            stream_from(a, 0, primary, start) == stream_from(a, k as int, primary, s@),
        decreases v@.len() - k,
    {
        assert(a[k as int] == v@[k as int]@);
        stream_line(&v[k], primary, &mut s);
        k += 1;
    }
    s
}

proof fn grouped_stream_is_primary(
    a: Seq<AttributeView>,
    k: int,
    primary: u32,
    s: StreamView,
)
    requires
        s.ssrc is None || s.ssrc == Some(primary),
    ensures
        stream_from(a, k, Some(primary), s).ssrc is None || stream_from(
            a,
            k,
            Some(primary),
            s,
        ).ssrc == Some(primary),
    decreases a.len() - k,
{
    if 0 <= k < a.len() {
        grouped_stream_is_primary(a, k + 1, primary, stream_step(a[k], Some(primary), s));
    }
}

/// With a retransmission group, wherever it stands, the stream is the primary one and never the
/// retransmission.
pub proof fn group_gives_primary_stream(a: Seq<AttributeView>, primary: u32)
    requires
        fid_from(a, 0, None, None).0 == Some(primary),
    ensures
        stream_of(a).ssrc matches Some(n) ==> n == primary,
{
    grouped_stream_is_primary(
        a,
        0,
        primary,
        StreamView {
            ssrc: None,
            rtx_ssrc: fid_from(a, 0, None, None).1,
            layers: Seq::empty(),
            rid_extension: None,
            send_time_extension: None,
        },
    );
}

/// A line groups a stream with its retransmissions.
pub open spec fn is_group_line(a: AttributeView, primary: u32, rtx: u32) -> bool {
    &&& a.key == "ssrc-group"@
    &&& a.value matches Some(v) && starts_with(v, "FID"@) && words(v).len() >= 3 && number(
        words(v)[1],
        0xffff_ffff,
    ) == Some(primary as nat) && number(words(v)[2], 0xffff_ffff) == Some(rtx as nat)
}

proof fn only_group_counts(
    a: Seq<AttributeView>,
    k: int,
    p: Option<u32>,
    r: Option<u32>,
    i: int,
    primary: u32,
    rtx: u32,
)
    requires
        0 <= k,
        0 <= i < a.len(),
        is_group_line(a[i], primary, rtx),
        forall|j: int| 0 <= j < a.len() && j != i ==> (#[trigger] a[j]).key != "ssrc-group"@,
        i < k ==> p == Some(primary) && r == Some(rtx),
    ensures
        fid_from(a, k, p, r) == (Some(primary), Some(rtx)),
    decreases a.len() - k,
{
    if k < a.len() {
        if k == i {
            only_group_counts(a, k + 1, Some(primary), Some(rtx), i, primary, rtx);
        } else {
            assert(a[k].key != "ssrc-group"@);
            only_group_counts(a, k + 1, p, r, i, primary, rtx);
        }
    } else {
        assert(i < k);
    }
}

proof fn no_group_no_primary(a: Seq<AttributeView>, k: int)
    requires
        0 <= k,
        forall|j: int| 0 <= j < a.len() ==> (#[trigger] a[j]).key != "ssrc-group"@,
    ensures
        fid_from(a, k, None, None) == (None::<u32>, None::<u32>),
    decreases a.len() - k,
{
    if k < a.len() {
        assert(a[k].key != "ssrc-group"@);
        no_group_no_primary(a, k + 1);
    }
}

proof fn stream_is_found(
    a: Seq<AttributeView>,
    k: int,
    primary: Option<u32>,
    s: StreamView,
    i: int,
    ssrc: u32,
)
    requires
        0 <= k,
        primary is Some ==> primary == Some(ssrc),
        s.ssrc == Some(ssrc) || (k <= i < a.len() && crate::codec::is_ssrc_line(a[i], ssrc)
            && s.ssrc is None && (primary is None ==> forall|j: int, n: u32|
            0 <= j < i ==> !#[trigger] crate::codec::is_ssrc_line(a[j], n))),
    ensures
        stream_from(a, k, primary, s).ssrc == Some(ssrc),
    decreases a.len() - k,
{
    stream_keys_differ();
    if k < a.len() {
        let next = stream_step(a[k], primary, s);
        if s.ssrc is None && k < i {
            if ssrc_of(a[k]) is Some {
                assert(crate::codec::is_ssrc_line(a[k], ssrc_of(a[k])->0));
            }
        }
        stream_is_found(a, k + 1, primary, next, i, ssrc);
    }
}

proof fn stream_keys_differ()
    ensures
        "ssrc"@ != "simulcast"@,
        "ssrc"@ != "extmap"@,
        "ssrc"@ != "ssrc-group"@,
        "simulcast"@ != "extmap"@,
{
    reveal_strlit("ssrc");
    reveal_strlit("simulcast");
    reveal_strlit("extmap");
    reveal_strlit("ssrc-group");
    assert("ssrc"@.len() == 4);
    assert("simulcast"@.len() == 9);
    assert("extmap"@.len() == 6);
    assert("ssrc-group"@.len() == 10);
}

proof fn other_lines_keep(a: Seq<AttributeView>, k: int, primary: Option<u32>, s: StreamView)
    requires
        0 <= k,
    ensures
        stream_from(a, k, primary, s).rtx_ssrc == s.rtx_ssrc,
        (forall|j: int| k <= j < a.len() ==> (#[trigger] a[j]).key != "simulcast"@) ==> stream_from(
            a,
            k,
            primary,
            s,
        ).layers == s.layers,
        (forall|j: int, n: u32|
            k <= j < a.len() ==> !#[trigger] crate::codec::is_ssrc_line(a[j], n)) ==> stream_from(
            a,
            k,
            primary,
            s,
        ).ssrc == s.ssrc,
    decreases a.len() - k,
{
    stream_keys_differ();
    if k < a.len() {
        if ssrc_of(a[k]) is Some {
            assert(crate::codec::is_ssrc_line(a[k], ssrc_of(a[k])->0));
        }
        other_lines_keep(a, k + 1, primary, stream_step(a[k], primary, s));
    }
}

proof fn layers_are_found(
    a: Seq<AttributeView>,
    k: int,
    primary: Option<u32>,
    s: StreamView,
    i: int,
    line: Seq<char>,
)
    requires
        0 <= k <= i < a.len(),
        a[i] == (AttributeView { key: "simulcast"@, value: Some(line) }),
        forall|j: int| i < j < a.len() ==> (#[trigger] a[j]).key != "simulcast"@,
    ensures
        stream_from(a, k, primary, s).layers == sent_layers(line),
    decreases a.len() - k,
{
    stream_keys_differ();
    let next = stream_step(a[k], primary, s);
    if k < i {
        layers_are_found(a, k + 1, primary, next, i, line);
    } else {
        other_lines_keep(a, k + 1, primary, next);
    }
}

/// What a section announces: without a group, the stream of its first ssrc line; with one, the
/// primary stream that the group names, wherever its ssrc line stands, and the retransmissions of
/// it. Without an ssrc line there is no stream.
pub proof fn announced_streams(a: Seq<AttributeView>, i: int, ssrc: u32, g: int, rtx: u32)
    ensures
        (forall|j: int| 0 <= j < a.len() ==> (#[trigger] a[j]).key != "ssrc-group"@) ==> {
            &&& stream_of(a).rtx_ssrc is None
            &&& 0 <= i < a.len() && crate::codec::is_ssrc_line(a[i], ssrc) && (forall|
                j: int,
                n: u32,
            |
                0 <= j < i ==> !#[trigger] crate::codec::is_ssrc_line(a[j], n)) ==> stream_of(
                a,
            ).ssrc == Some(ssrc)
        },
        0 <= g < a.len() && is_group_line(a[g], ssrc, rtx) && (forall|j: int|
            0 <= j < a.len() && j != g ==> (#[trigger] a[j]).key != "ssrc-group"@) ==> {
            &&& stream_of(a).rtx_ssrc == Some(rtx)
            &&& 0 <= i < a.len() && crate::codec::is_ssrc_line(a[i], ssrc) ==> stream_of(a).ssrc
                == Some(ssrc)
        },
        (forall|j: int, n: u32|
            0 <= j < a.len() ==> !#[trigger] crate::codec::is_ssrc_line(a[j], n)) ==> stream_of(
            a,
        ).ssrc is None,
{
    let fid = fid_from(a, 0, None, None);
    let s = StreamView {
        ssrc: None,
        rtx_ssrc: fid.1,
        layers: Seq::empty(),
        rid_extension: None,
        send_time_extension: None,
    };
    other_lines_keep(a, 0, fid.0, s);
    if forall|j: int| 0 <= j < a.len() ==> (#[trigger] a[j]).key != "ssrc-group"@ {
        no_group_no_primary(a, 0);
        if 0 <= i < a.len() && crate::codec::is_ssrc_line(a[i], ssrc) && (forall|j: int, n: u32|
            0 <= j < i ==> !#[trigger] crate::codec::is_ssrc_line(a[j], n)) {
            stream_is_found(a, 0, None, s, i, ssrc);
        }
    }
    if 0 <= g < a.len() && is_group_line(a[g], ssrc, rtx) && (forall|j: int|
        0 <= j < a.len() && j != g ==> (#[trigger] a[j]).key != "ssrc-group"@) {
        only_group_counts(a, 0, None, None, g, ssrc, rtx);
        if 0 <= i < a.len() && crate::codec::is_ssrc_line(a[i], ssrc) {
            stream_is_found(a, 0, Some(ssrc), s, i, ssrc);
        }
    }
}

/// The simulcast layers of a section are those that its last simulcast line lists behind `send`,
/// in order; without such a line there are none.
pub proof fn announced_layers(a: Seq<AttributeView>, i: int, line: Seq<char>, w: int)
    ensures
        0 <= i < a.len() && a[i] == (AttributeView { key: "simulcast"@, value: Some(line) }) && (
        forall|j: int| i < j < a.len() ==> (#[trigger] a[j]).key != "simulcast"@) && 0 <= w && w + 1
            < words(line).len() && words(line)[w] == "send"@ && (forall|j: int|
            0 <= j < w ==> #[trigger] words(line)[j] != "send"@) ==> stream_of(a).layers == pieces(
            words(line)[w + 1],
            ';',
        ),
        (forall|j: int| 0 <= j < a.len() ==> (#[trigger] a[j]).key != "simulcast"@) ==> stream_of(
            a,
        ).layers.len() == 0,
{
    let fid = fid_from(a, 0, None, None);
    let s = StreamView {
        ssrc: None,
        rtx_ssrc: fid.1,
        layers: Seq::empty(),
        rid_extension: None,
        send_time_extension: None,
    };
    other_lines_keep(a, 0, fid.0, s);
    if 0 <= i < a.len() && a[i] == (AttributeView { key: "simulcast"@, value: Some(line) }) && (
    forall|j: int| i < j < a.len() ==> (#[trigger] a[j]).key != "simulcast"@) {
        layers_are_found(a, 0, fid.0, s, i, line);
        let t = words(line);
        crate::search::first_from_facts(t, is_send(), 0);
        if 0 <= w < t.len() && t[w] == "send"@ {
            assert(is_send()(t[w]));
        }
    }
}

} // verus!

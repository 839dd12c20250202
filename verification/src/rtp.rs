//! RTP packets and RTCP feedback.

use vstd::prelude::*;

verus! {

/// A header extension element.
#[derive(Debug)]
pub struct HeaderExtension {
    pub id: u8,
    pub data: Vec<u8>,
}

/// An RTP header.
#[derive(Debug)]
pub struct RtpHeader {
    pub marker: bool,
    pub payload_type: u8,
    pub sequence_number: u16,
    pub timestamp: u32,
    pub ssrc: u32,
    pub extensions: Vec<HeaderExtension>,
}

/// An RTP packet.
#[derive(Debug)]
pub struct RtpPacket {
    pub header: RtpHeader,
    pub payload: Vec<u8>,
    pub padding_len: u8,
}

/// The model of an RTP header.
#[verifier::ext_equal]
pub struct HeaderView {
    pub marker: bool,
    pub payload_type: u8,
    pub sequence_number: u16,
    pub timestamp: u32,
    pub ssrc: u32,
    pub extensions: Seq<(u8, Seq<u8>)>,
}

/// The model of an RTP packet.
#[verifier::ext_equal]
pub struct PacketView {
    pub header: HeaderView,
    pub payload: Seq<u8>,
    pub padding_len: u8,
}

/// The model of a list of header extensions.
pub open spec fn extensions(v: Seq<HeaderExtension>) -> Seq<(u8, Seq<u8>)> {
    v.map_values(|e: HeaderExtension| (e.id, e.data@))
}

impl View for RtpHeader {
    type V = HeaderView;

    open spec fn view(&self) -> HeaderView {
        HeaderView {
            marker: self.marker,
            payload_type: self.payload_type,
            sequence_number: self.sequence_number,
            timestamp: self.timestamp,
            ssrc: self.ssrc,
            extensions: extensions(self.extensions@),
        }
    }
}

impl View for RtpPacket {
    type V = PacketView;

    open spec fn view(&self) -> PacketView {
        PacketView {
            header: self.header@,
            payload: self.payload@,
            padding_len: self.padding_len,
        }
    }
}

/// The model of a list of packets.
pub open spec fn packets(v: Seq<RtpPacket>) -> Seq<PacketView> {
    v.map_values(|p: RtpPacket| p@)
}

/// Copies octets.
pub fn clone_octets(v: &Vec<u8>) -> (r: Vec<u8>)
    ensures
        r@ == v@,
{
    let mut out: Vec<u8> = Vec::new();
    let mut i: usize = 0;
    while i < v.len()
        invariant
            i <= v@.len(),
            out@ == v@.take(i as int),
        decreases v@.len() - i,
    {
        out.push(v[i]);
        i += 1;
        assert(v@.take(i as int) =~= v@.take(i - 1).push(v@[i - 1]));
    }
    assert(v@.take(i as int) =~= v@);
    out
}

fn clone_extensions(v: &Vec<HeaderExtension>) -> (r: Vec<HeaderExtension>)
    ensures
        extensions(r@) == extensions(v@),
{
    let mut out: Vec<HeaderExtension> = Vec::new();
    let mut i: usize = 0;
    while i < v.len()
        invariant
            i <= v@.len(),
            extensions(out@) == extensions(v@).take(i as int),
        decreases v@.len() - i,
    {
        let ghost before = out@;
        out.push(HeaderExtension { id: v[i].id, data: clone_octets(&v[i].data) });
        assert(extensions(out@) =~= extensions(before).push(extensions(v@)[i as int]));
        i += 1;
        assert(extensions(v@).take(i as int) =~= extensions(v@).take(i - 1).push(
            extensions(v@)[i - 1],
        ));
    }
    assert(extensions(v@).take(i as int) =~= extensions(v@));
    out
}

impl Clone for RtpHeader {
    fn clone(&self) -> (r: Self)
        ensures
            r@ == self@,
    {
        RtpHeader {
            marker: self.marker,
            payload_type: self.payload_type,
            sequence_number: self.sequence_number,
            timestamp: self.timestamp,
            ssrc: self.ssrc,
            extensions: clone_extensions(&self.extensions),
        }
    }
}

impl Clone for RtpPacket {
    fn clone(&self) -> (r: Self)
        ensures
            r@ == self@,
    {
        RtpPacket {
            header: self.header.clone(),
            payload: clone_octets(&self.payload),
            padding_len: self.padding_len,
        }
    }
}

/// `list` with the element `id` set to `data`: replaced where it stands, else appended.
pub open spec fn extension_set(list: Seq<(u8, Seq<u8>)>, id: u8, data: Seq<u8>) -> Seq<
    (u8, Seq<u8>),
> {
    match crate::search::first(list, with_extension_id(id)) {
        Some(i) => list.update(i, (id, data)),
        None => list.push((id, data)),
    }
}

/// Elements with the given identifier.
pub open spec fn with_extension_id(id: u8) -> spec_fn((u8, Seq<u8>)) -> bool {
    |e: (u8, Seq<u8>)| e.0 == id
}

impl RtpHeader {
    /// A header without marker and extensions.
    pub fn new(payload_type: u8, sequence_number: u16, timestamp: u32, ssrc: u32) -> (r: Self)
        ensures
            r@ == (HeaderView {
                marker: false,
                payload_type,
                sequence_number,
                timestamp,
                ssrc,
                extensions: Seq::empty(),
            }),
    {
        let r = RtpHeader {
            marker: false,
            payload_type,
            sequence_number,
            timestamp,
            ssrc,
            extensions: Vec::new(),
        };
        assert(r@.extensions =~= Seq::<(u8, Seq<u8>)>::empty());
        r
    }

    /// Sets an extension element.
    pub fn set_extension(&mut self, id: u8, data: Vec<u8>)
        ensures
            final(self)@ == (HeaderView {
                extensions: extension_set(old(self)@.extensions, id, data@),
                ..old(self)@
            }),
    {
        let ghost list = extensions(self.extensions@);
        let mut i: usize = 0;
        while i < self.extensions.len()
            invariant
                i <= self.extensions@.len(),
                list == extensions(self.extensions@),
                crate::search::first(list, with_extension_id(id)) == crate::search::first_from(
                    list,
                    with_extension_id(id),
                    i as int,
                ),
                *self == *old(self),
            decreases self.extensions@.len() - i,
        {
            assert(list[i as int].0 == self.extensions@[i as int].id);
            if self.extensions[i].id == id {
                let ghost data_view = data@;
                self.extensions.set(i, HeaderExtension { id, data });
                assert(extensions(self.extensions@) =~= list.update(i as int, (id, data_view)));
                return;
            }
            i += 1;
        }
        let ghost data_view = data@;
        self.extensions.push(HeaderExtension { id, data });
        assert(extensions(self.extensions@) =~= list.push((id, data_view)));
    }
}

impl RtpPacket {
    /// A packet without padding.
    pub fn new(header: RtpHeader, payload: Vec<u8>) -> (r: Self)
        ensures
            r@ == (PacketView { header: header@, payload: payload@, padding_len: 0 }),
    {
        RtpPacket { header, payload, padding_len: 0 }
    }
}

/// A reception report block.
#[derive(Clone, Copy, PartialEq, Eq, Structural, Debug)]
pub struct ReportBlock {
    pub ssrc: u32,
    pub fraction_lost: u8,
    pub packets_lost: u32,
    pub highest_sequence: u32,
    pub jitter: u32,
    pub last_sender_report: u32,
    pub delay_since_last_sender_report: u32,
}

/// A sender report.
#[derive(Debug)]
pub struct SenderReport {
    pub sender_ssrc: u32,
    pub ntp_most: u32,
    pub ntp_least: u32,
    pub rtp_timestamp: u32,
    pub packet_count: u32,
    pub octet_count: u32,
    pub report_blocks: Vec<ReportBlock>,
}

/// A receiver report.
#[derive(Debug)]
pub struct ReceiverReport {
    pub sender_ssrc: u32,
    pub report_blocks: Vec<ReportBlock>,
}

/// A generic negative acknowledgement.
#[derive(Debug)]
pub struct GenericNack {
    pub sender_ssrc: u32,
    pub media_ssrc: u32,
    pub lost_packets: Vec<u16>,
}

/// A picture loss indication.
#[derive(Clone, Copy, PartialEq, Eq, Structural, Debug)]
pub struct PictureLossIndication {
    pub sender_ssrc: u32,
    pub media_ssrc: u32,
}

/// One request of a full intra request.
#[derive(Clone, Copy, PartialEq, Eq, Structural, Debug)]
pub struct FirRequest {
    pub ssrc: u32,
    pub sequence_number: u8,
}

/// A full intra request.
#[derive(Debug)]
pub struct FullIntraRequest {
    pub sender_ssrc: u32,
    pub requests: Vec<FirRequest>,
}

/// A goodbye.
#[derive(Debug)]
pub struct Goodbye {
    pub sources: Vec<u32>,
    pub reason: Option<String>,
}

/// A receiver-estimated maximum bitrate.
#[derive(Clone, Copy, PartialEq, Eq, Structural, Debug)]
pub struct RemoteBitrateEstimate {
    pub bitrate_bps: u64,
}

/// An RTCP packet.
#[derive(Debug)]
pub enum RtcpPacket {
    SenderReport(SenderReport),
    ReceiverReport(ReceiverReport),
    PictureLossIndication(PictureLossIndication),
    FullIntraRequest(FullIntraRequest),
    GenericNack(GenericNack),
    Goodbye(Goodbye),
    RemoteBitrateEstimate(RemoteBitrateEstimate),
    Other,
}

/// Whether an RTCP packet concerns a sender: feedback names its SSRC, a receiver report is empty
/// or reports on it, and every sender report describes the remote stream.
pub open spec fn targets_sender(packet: RtcpPacket, ssrc: u32) -> bool {
    match packet {
        RtcpPacket::PictureLossIndication(p) => p.media_ssrc == ssrc,
        RtcpPacket::FullIntraRequest(f) => exists|i: int|
            0 <= i < f.requests@.len() && (#[trigger] f.requests@[i]).ssrc == ssrc,
        RtcpPacket::GenericNack(n) => n.media_ssrc == ssrc,
        RtcpPacket::ReceiverReport(r) => r.report_blocks@.len() == 0 || reports_on(
            r.report_blocks@,
            ssrc,
        ),
        RtcpPacket::SenderReport(_) => true,
        _ => false,
    }
}

fn has_request(requests: &Vec<FirRequest>, ssrc: u32) -> (r: bool)
    ensures
        r == exists|i: int| 0 <= i < requests@.len() && (#[trigger] requests@[i]).ssrc == ssrc,
{
    let mut i: usize = 0;
    while i < requests.len()
        invariant
            i <= requests@.len(),
            forall|j: int| 0 <= j < i ==> (#[trigger] requests@[j]).ssrc != ssrc,
        decreases requests@.len() - i,
    {
        if requests[i].ssrc == ssrc {
            return true;
        }
        i += 1;
    }
    false
}

/// Whether an incoming RTCP packet is delivered to a sender.
pub fn rtcp_targets_sender(packet: &RtcpPacket, sender_ssrc: u32) -> (r: bool)
    ensures
        r == targets_sender(*packet, sender_ssrc),
{
    match packet {
        RtcpPacket::PictureLossIndication(pli) => pli.media_ssrc == sender_ssrc,
        RtcpPacket::FullIntraRequest(fir) => has_request(&fir.requests, sender_ssrc),
        RtcpPacket::GenericNack(nack) => nack.media_ssrc == sender_ssrc,
        RtcpPacket::ReceiverReport(rr) => rr.report_blocks.len() == 0 || has_block(
            &rr.report_blocks,
            sender_ssrc,
        ),
        RtcpPacket::SenderReport(_) => true,
        _ => false,
    }
}

/// `acc` followed by the blocks from index `k` on whose SSRC `acc` does not hold yet.
pub open spec fn distinct_from(b: Seq<ReportBlock>, k: int, acc: Seq<ReportBlock>) -> Seq<
    ReportBlock,
>
    decreases b.len() - k,
{
    if k < 0 || k >= b.len() {
        acc
    } else if reports_on(acc, b[k].ssrc) {
        distinct_from(b, k + 1, acc)
    } else {
        distinct_from(b, k + 1, acc.push(b[k]))
    }
}

/// Some block is about the given SSRC.
pub open spec fn reports_on(b: Seq<ReportBlock>, ssrc: u32) -> bool {
    exists|i: int| 0 <= i < b.len() && (#[trigger] b[i]).ssrc == ssrc
}

/// The blocks of a list, each SSRC once: the first block about it.
pub open spec fn distinct_blocks(b: Seq<ReportBlock>) -> Seq<ReportBlock> {
    distinct_from(b, 0, Seq::empty())
}

fn has_block(b: &Vec<ReportBlock>, ssrc: u32) -> (r: bool)
    ensures
        r == reports_on(b@, ssrc),
{
    let mut i: usize = 0;
    while i < b.len()
        invariant
            i <= b@.len(),
            forall|j: int| 0 <= j < i ==> (#[trigger] b@[j]).ssrc != ssrc,
        decreases b@.len() - i,
    {
        if b[i].ssrc == ssrc {
            return true;
        }
        i += 1;
    }
    false
}

/// Keeps the first block about each SSRC.
pub fn dedup_report_blocks(b: &Vec<ReportBlock>) -> (r: Vec<ReportBlock>)
    ensures
        r@ == distinct_blocks(b@),
{
    let mut out: Vec<ReportBlock> = Vec::new();
    let mut i: usize = 0;
    while i < b.len()
        invariant
            i <= b@.len(),
            distinct_blocks(b@) == distinct_from(b@, i as int, out@),
        decreases b@.len() - i,
    {
        if !has_block(&out, b[i].ssrc) {
            out.push(b[i]);
        }
        i += 1;
    }
    out
}

proof fn distinct_from_keeps(b: Seq<ReportBlock>, k: int, acc: Seq<ReportBlock>)
    requires
        0 <= k <= b.len(),
        forall|i: int, j: int| 0 <= i < j < acc.len() ==> acc[i].ssrc != acc[j].ssrc,
        forall|j: int| 0 <= j < k ==> reports_on(acc, (#[trigger] b[j]).ssrc),
    ensures
        forall|i: int, j: int|
            0 <= i < j < distinct_from(b, k, acc).len() ==> distinct_from(b, k, acc)[i].ssrc
                != distinct_from(b, k, acc)[j].ssrc,
        forall|j: int|
            0 <= j < b.len() ==> reports_on(distinct_from(b, k, acc), (#[trigger] b[j]).ssrc),
    decreases b.len() - k,
{
    if k < b.len() {
        if reports_on(acc, b[k].ssrc) {
            distinct_from_keeps(b, k + 1, acc);
        } else {
            let next = acc.push(b[k]);
            assert forall|i: int, j: int| 0 <= i < j < next.len() implies next[i].ssrc
                != next[j].ssrc by {
                if j == acc.len() {
                    assert(acc[i].ssrc != b[k].ssrc);
                }
            }
            assert forall|j: int| 0 <= j < k + 1 implies reports_on(
                next,
                (#[trigger] b[j]).ssrc,
            ) by {
                if j == k {
                    assert(next[acc.len() as int].ssrc == b[k].ssrc);
                } else {
                    assert(reports_on(acc, b[j].ssrc));
                    let i = choose|i: int| 0 <= i < acc.len() && (#[trigger] acc[i]).ssrc
                        == b[j].ssrc;
                    assert(next[i].ssrc == b[j].ssrc);
                }
            }
            distinct_from_keeps(b, k + 1, next);
        }
    }
}

/// A report carries one block for every SSRC that was reported on, and none twice.
pub proof fn distinct_blocks_are_distinct_and_complete(b: Seq<ReportBlock>)
    ensures
        forall|i: int, j: int|
            0 <= i < j < distinct_blocks(b).len() ==> distinct_blocks(b)[i].ssrc
                != distinct_blocks(b)[j].ssrc,
        forall|j: int|
            0 <= j < b.len() ==> reports_on(distinct_blocks(b), (#[trigger] b[j]).ssrc),
{
    distinct_from_keeps(b, 0, Seq::empty());
}

/// The high word of the NTP time `unix_seconds` after the Unix epoch.
pub open spec fn ntp_high(unix_seconds: u64) -> u32 {
    let s = if unix_seconds + 2_208_988_800 > u64::MAX {
        u64::MAX as int
    } else {
        unix_seconds + 2_208_988_800
    };
    (s % 0x1_0000_0000) as u32
}

/// The low word of the NTP time: the fraction of a second in units of 2^-32.
pub open spec fn ntp_low(nanos: u32) -> u32 {
    (nanos as int * 0x1_0000_0000 / 1_000_000_000) as u32
}

/// A sender report at `unix_seconds` and `nanos` after the Unix epoch.
pub fn build_sender_report(
    sender_ssrc: u32,
    rtp_timestamp: u32,
    packet_count: u32,
    octet_count: u32,
    unix_seconds: u64,
    nanos: u32,
    report_blocks: Vec<ReportBlock>,
) -> (r: SenderReport)
    requires
        nanos < 1_000_000_000,
    ensures
        r.sender_ssrc == sender_ssrc,
        r.ntp_most == ntp_high(unix_seconds),
        r.ntp_least == ntp_low(nanos),
        r.rtp_timestamp == rtp_timestamp,
        r.packet_count == packet_count,
        r.octet_count == octet_count,
        r.report_blocks@ == report_blocks@,
{
    let seconds: u64 = unix_seconds.saturating_add(2_208_988_800);
    let high: u64 = seconds % 0x1_0000_0000;
    let low: u64 = nanos as u64 * 0x1_0000_0000 / 1_000_000_000;
    assert(low < 0x1_0000_0000) by (nonlinear_arith)
        requires
            low == nanos as u64 * 0x1_0000_0000 / 1_000_000_000,
            nanos < 1_000_000_000,
    ;
    SenderReport {
        sender_ssrc,
        ntp_most: high as u32,
        ntp_least: low as u32,
        rtp_timestamp,
        packet_count,
        octet_count,
        report_blocks,
    }
}

/// Each block of a report is the first one about its SSRC.
pub proof fn first_blocks_are_kept(b: Seq<ReportBlock>, i: int)
    requires
        0 <= i < distinct_blocks(b).len(),
    ensures
        exists|j: int|
            0 <= j < b.len() && #[trigger] b[j] == distinct_blocks(b)[i] && !reports_on(
                b.take(j),
                b[j].ssrc,
            ),
{
    blocks_come_from_the_list(b, 0, Seq::empty(), i);
}

proof fn blocks_come_from_the_list(b: Seq<ReportBlock>, k: int, acc: Seq<ReportBlock>, i: int)
    requires
        0 <= k <= b.len(),
        forall|s: u32| reports_on(acc, s) <==> #[trigger] reports_on(b.take(k), s),
        0 <= i < distinct_from(b, k, acc).len(),
    ensures
        i < acc.len() ==> distinct_from(b, k, acc)[i] == acc[i],
        i >= acc.len() ==> exists|j: int|
            0 <= j < b.len() && #[trigger] b[j] == distinct_from(b, k, acc)[i] && !reports_on(
                b.take(j),
                b[j].ssrc,
            ),
    decreases b.len() - k,
{
    if k < b.len() {
        let seen = reports_on(acc, b[k].ssrc);
        let next = if seen {
            acc
        } else {
            acc.push(b[k])
        };
        assert forall|s: u32| reports_on(next, s) <==> #[trigger] reports_on(b.take(k + 1), s) by {
            assert(reports_on(acc, s) <==> reports_on(b.take(k), s));
            if reports_on(b.take(k + 1), s) {
                let j = choose|j: int|
                    0 <= j < k + 1 && (#[trigger] b.take(k + 1)[j]).ssrc == s;
                if j < k {
                    assert(b.take(k)[j].ssrc == s);
                    let x = choose|x: int| 0 <= x < acc.len() && (#[trigger] acc[x]).ssrc == s;
                    assert(next[x].ssrc == s);
                } else if seen {
                    let x = choose|x: int| 0 <= x < acc.len() && (#[trigger] acc[x]).ssrc == s;
                    assert(next[x].ssrc == s);
                } else {
                    assert(next[acc.len() as int].ssrc == s);
                }
            }
            if reports_on(next, s) {
                let x = choose|x: int| 0 <= x < next.len() && (#[trigger] next[x]).ssrc == s;
                if x < acc.len() {
                    assert(acc[x].ssrc == s);
                    let j = choose|j: int| 0 <= j < k && (#[trigger] b.take(k)[j]).ssrc == s;
                    assert(b.take(k + 1)[j].ssrc == s);
                } else {
                    assert(b.take(k + 1)[k].ssrc == s);
                }
            }
        }
        blocks_come_from_the_list(b, k + 1, next, i);
        if i == acc.len() && !seen {
            assert(distinct_from(b, k, acc)[i] == b[k]);
            assert(!reports_on(b.take(k), b[k].ssrc));
        }
    }
}

/// The NTP time of a report: seconds since 1900, as far as they fit, and the fraction of a second,
/// rounded down.
pub proof fn reports_tell_the_time(unix_seconds: u64, nanos: u32)
    requires
        nanos < 1_000_000_000,
        unix_seconds <= 0xffff_ffff_ffff_ffff - 2_208_988_800,
    ensures
        ntp_high(unix_seconds) == (unix_seconds + 2_208_988_800) % 0x1_0000_0000,
        ntp_low(nanos) * 1_000_000_000 <= nanos * 0x1_0000_0000,
        nanos * 0x1_0000_0000 < (ntp_low(nanos) + 1) * 1_000_000_000,
{
    let x = nanos as int * 0x1_0000_0000;
    let q = x / 1_000_000_000;
    assert(0 <= q < 0x1_0000_0000);
    assert(ntp_low(nanos) == q);
}

/// Setting a header extension puts the data under its identifier and leaves all others.
pub proof fn extensions_are_set_alone(list: Seq<(u8, Seq<u8>)>, id: u8, data: Seq<u8>, i: int)
    ensures
        extension_set(list, id, data).contains((id, data)),
        0 <= i < list.len() && list[i].0 != id ==> extension_set(list, id, data)[i] == list[i],
        extension_set(list, id, data).len() <= list.len() + 1,
        (forall|j: int| 0 <= j < list.len() ==> (#[trigger] list[j]).0 != id) ==> extension_set(
            list,
            id,
            data,
        ) == list.push((id, data)),
{
    let p = with_extension_id(id);
    crate::search::first_from_facts(list, p, 0);
    let r = extension_set(list, id, data);
    match crate::search::first(list, p) {
        Some(j) => {
            assert(p(list[j]));
            assert(r[j] == (id, data));
        },
        None => {
            assert(r[list.len() as int] == (id, data));
        },
    }
}

/// Feedback reaches the sender whose stream it is about, and no other; reports reach every sender
/// that they may concern.
pub proof fn feedback_reaches_its_sender(
    pli: PictureLossIndication,
    nack: GenericNack,
    report: SenderReport,
    ssrc: u32,
)
    ensures
        targets_sender(RtcpPacket::PictureLossIndication(pli), ssrc) <==> pli.media_ssrc == ssrc,
        targets_sender(RtcpPacket::GenericNack(nack), ssrc) <==> nack.media_ssrc == ssrc,
        targets_sender(RtcpPacket::SenderReport(report), ssrc),
        !targets_sender(RtcpPacket::Other, ssrc),
{
}

/// A request for full frames reaches the senders that it names; a receiver report those that it
/// has a block about, and an empty one all.
pub proof fn requests_and_reports_reach_their_senders(
    fir: FullIntraRequest,
    report: ReceiverReport,
    ssrc: u32,
    i: int,
)
    ensures
        0 <= i < fir.requests@.len() && fir.requests@[i].ssrc == ssrc ==> targets_sender(
            RtcpPacket::FullIntraRequest(fir),
            ssrc,
        ),
        (forall|j: int| 0 <= j < fir.requests@.len() ==> (#[trigger] fir.requests@[j]).ssrc != ssrc)
            ==> !targets_sender(RtcpPacket::FullIntraRequest(fir), ssrc),
        report.report_blocks@.len() == 0 ==> targets_sender(
            RtcpPacket::ReceiverReport(report),
            ssrc,
        ),
        0 <= i < report.report_blocks@.len() && report.report_blocks@[i].ssrc == ssrc
            ==> targets_sender(RtcpPacket::ReceiverReport(report), ssrc),
        report.report_blocks@.len() > 0 && (forall|j: int|
            0 <= j < report.report_blocks@.len() ==> (#[trigger] report.report_blocks@[j]).ssrc
                != ssrc) ==> !targets_sender(RtcpPacket::ReceiverReport(report), ssrc),
{
    if 0 <= i < fir.requests@.len() && fir.requests@[i].ssrc == ssrc {
        let p = RtcpPacket::FullIntraRequest(fir);
        assert(p->FullIntraRequest_0.requests@[i].ssrc == ssrc);
        assert(targets_sender(p, ssrc));
    }
}

} // verus!
